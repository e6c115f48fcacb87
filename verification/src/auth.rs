use vstd::prelude::*;
use crate::config::AuthConfig;

verus! {

/// Why an inbound request could not be authenticated.
#[derive(Debug)]
pub enum AuthError {
    /// No credential is stored; the operator must authorize first.
    NoCredential,
    /// The refresh-token exchange against the identity provider failed.
    RefreshFailed,
}

/// What the token lifecycle requires before an outbound call may proceed.
pub enum TokenAction {
    /// The stored access token is still valid; use it unchanged.
    UseCurrent,
    /// The access token is within the safety margin of its expiry; a
    /// refresh-token exchange must be performed first.
    Refresh,
}

/// The credential produced by a completed authorization handshake.
pub struct OAuthResult {
    pub access_token: String,
    pub refresh_token: String,
    pub expires_at: u64,
    pub email: String,
}

/// The safety margin, in seconds, before `expires_at` at which a token is
/// already treated as expired.
pub const EXPIRY_MARGIN_SECS: u64 = 60;

/// A token is expired once the current time is within the safety margin of
/// its expiry timestamp.
pub open spec fn spec_expired(now: u64, expires_at: u64) -> bool {
    now + EXPIRY_MARGIN_SECS >= expires_at
}

/// Whether the access token expiring at `expires_at` is already expired at
/// time `now` (both in unix seconds).
pub fn token_is_expired(now: u64, expires_at: u64) -> (r: bool)
    ensures
        r == spec_expired(now, expires_at),
{
    if expires_at >= EXPIRY_MARGIN_SECS {
        now >= expires_at - EXPIRY_MARGIN_SECS
    } else {
        true
    }
}

/// Decide what must happen before an outbound call: fail when no credential
/// is stored, refresh when the stored token is within the safety margin of
/// its expiry, and otherwise use the stored token unchanged.
pub fn ensure_valid_token(auth: &Option<AuthConfig>, now: u64) -> (r: Result<
    TokenAction,
    AuthError,
>)
    ensures
        r is Ok <==> auth is Some,
        r matches Err(e) ==> e is NoCredential,
        r matches Ok(a) ==> ((a is Refresh) <==> (auth matches Some(c) && spec_expired(
            now,
            c.expires_at,
        ))),
        r matches Ok(a) ==> ((a is UseCurrent) <==> (auth matches Some(c) && !spec_expired(
            now,
            c.expires_at,
        ))),
{
    match auth {
        None => Err(AuthError::NoCredential),
        Some(c) => {
            if token_is_expired(now, c.expires_at) {
                Ok(TokenAction::Refresh)
            } else {
                Ok(TokenAction::UseCurrent)
            }
        },
    }
}

/// The expiry timestamp of a token obtained at `now` that the provider says
/// lives for `expires_in` seconds; one hour is assumed when the provider
/// gives no lifetime.
pub fn compute_expiry(now: u64, expires_in: Option<u64>) -> (r: u64)
    requires
        now + (match expires_in {
            Some(e) => e,
            None => 3600u64,
        }) <= u64::MAX,
    ensures
        r == now + (match expires_in {
            Some(e) => e,
            None => 3600u64,
        }),
{
    match expires_in {
        Some(e) => now + e,
        None => now + 3600,
    }
}

/// Install the outcome of a successful refresh-token exchange: the access
/// token and expiry are replaced, the refresh token and email are kept.
pub fn apply_refresh(auth: &mut AuthConfig, new_token: String, new_expires: u64)
    ensures
        final(auth).access_token == new_token,
        final(auth).expires_at == new_expires,
        final(auth).refresh_token == old(auth).refresh_token,
        final(auth).email == old(auth).email,
{
    auth.access_token = new_token;
    auth.expires_at = new_expires;
}

/// Settle a `Refresh` action from what the refresh-token exchange returned:
/// a new access token and expiry, or nothing when the exchange failed or the
/// provider answered with a non-success status. Success installs the new
/// token; failure leaves the credential untouched and is reported as
/// `RefreshFailed`, exactly then.
pub fn apply_refresh_outcome(auth: &mut AuthConfig, exchanged: Option<(String, u64)>) -> (r:
    Result<(), AuthError>)
    ensures
        r is Ok <==> exchanged is Some,
        r matches Err(e) ==> e is RefreshFailed,
        exchanged matches Some(p) ==> final(auth).access_token == p.0 && final(auth).expires_at
            == p.1,
        exchanged is None ==> final(auth).access_token == old(auth).access_token
            && final(auth).expires_at == old(auth).expires_at,
        final(auth).refresh_token == old(auth).refresh_token,
        final(auth).email == old(auth).email,
{
    match exchanged {
        Some((new_token, new_expires)) => {
            apply_refresh(auth, new_token, new_expires);
            Ok(())
        },
        None => Err(AuthError::RefreshFailed),
    }
}

} // verus!
