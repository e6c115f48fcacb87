use vstd::prelude::*;
use vstd::string::*;
use crate::auth::spec_expired;
use crate::auth::token_is_expired;
use crate::auth::AuthError;
use crate::config::Config;
use crate::strutil::str_eq;

verus! {

/// What the bridge needs before translating one inbound request: the access
/// token, whether it must be refreshed first, the project id to bind to, and
/// whether a discovery call should be attempted.
pub struct AuthPlan {
    pub access_token: String,
    pub needs_refresh: bool,
    pub project_id: String,
    pub needs_discovery: bool,
}

/// The cached project id of a configuration, the sentinel `"default"` when
/// none was cached.
pub open spec fn effective_project(c: Config) -> Seq<char> {
    match c.project_id {
        Some(p) => p@,
        None => "default"@,
    }
}

/// Plan authentication for one inbound request, at time `now`. It fails
/// exactly when no credential is stored. The plan demands a refresh-token
/// exchange exactly when the stored token is within the safety margin of its
/// expiry; the project id is the cached one (the sentinel when none is), and
/// discovery is wanted exactly when the id is the sentinel.
pub fn get_auth(config: &Config, now: u64) -> (r: Result<AuthPlan, AuthError>)
    ensures
        r is Ok <==> config.auth is Some,
        r matches Ok(p) ==> ({
            &&& config.auth matches Some(a) && p.access_token@ == a.access_token@
            &&& (config.auth matches Some(a) && p.needs_refresh == spec_expired(
                now,
                a.expires_at,
            ))
            &&& p.project_id@ == effective_project(*config)
            &&& p.needs_discovery == (effective_project(*config) == "default"@)
        }),
        r matches Err(e) ==> e is NoCredential,
{
    match &config.auth {
        None => Err(AuthError::NoCredential),
        Some(a) => {
            let project_id = match &config.project_id {
                Some(p) => p.clone(),
                None => String::from_str("default"),
            };
            let needs_discovery = str_eq(project_id.as_str(), "default");
            Ok(
                AuthPlan {
                    access_token: a.access_token.clone(),
                    needs_refresh: token_is_expired(now, a.expires_at),
                    project_id,
                    needs_discovery,
                },
            )
        },
    }
}

/// The project id, if any, that a discovery response body yields: the string
/// under `cloudaicompanionProject`, or that object's `id` field.
pub uninterp spec fn project_id_of(s: Seq<char>) -> Option<Seq<char>>;

/// Relies on serde_json::from_str and the Value accessors get and as_str:
/// reads the discovery response's project id; depends on the characters
/// alone.
#[verifier::external_body]
fn extract_project_id(body: &str) -> (r: Option<String>)
    ensures
        r is Some <==> project_id_of(body@) is Some,
        r matches Some(p) ==> project_id_of(body@) == Some(p@),
{
    let v: serde_json::Value = match serde_json::from_str(body) {
        Ok(x) => x,
        Err(_) => return None,
    };
    let p = v.get("cloudaicompanionProject")?;
    match p.get("id").and_then(|i| i.as_str()) {
        Some(s) => Some(s.to_string()),
        None => p.as_str().map(|s| s.to_string()),
    }
}

/// The project id a discovery call resolves to. `body` is the response text
/// of a successful call, or nothing when the call failed or returned a
/// non-success status; failure is recoverable and simply yields no id.
pub fn load_managed_project(body: Option<&str>) -> (r: Option<String>)
    ensures
        r is Some <==> (body matches Some(b) && project_id_of(b@) is Some),
        r matches Some(p) ==> (body matches Some(b) && project_id_of(b@) == Some(p@)),
{
    match body {
        Some(b) => extract_project_id(b),
        None => None,
    }
}

/// Install a freshly discovered project id; reports whether the
/// configuration changed and must be persisted. An absent discovery result
/// keeps the cached value: resolution is best-effort and never blocks the
/// request.
pub fn update_project(config: &mut Config, managed: Option<String>) -> (persist: bool)
    ensures
        final(config).auth == old(config).auth,
        managed matches Some(m) ==> final(config).project_id == Some(m) && persist,
        managed is None ==> final(config).project_id == old(config).project_id && !persist,
{
    match managed {
        Some(m) => {
            config.project_id = Some(m);
            true
        },
        None => false,
    }
}

/// Project-resolution idempotence law: once a non-default project id is
/// cached, every authentication plan built from that configuration — the
/// premises below are exactly what `get_auth` ensures of its result — asks
/// for no discovery call, and any two such plans carry the same id.
pub proof fn lemma_project_resolution_idempotent(config: Config, p1: AuthPlan, p2: AuthPlan)
    requires
        effective_project(config) != "default"@,
        p1.project_id@ == effective_project(config),
        p1.needs_discovery == (effective_project(config) == "default"@),
        p2.project_id@ == effective_project(config),
        p2.needs_discovery == (effective_project(config) == "default"@),
    ensures
        !p1.needs_discovery,
        !p2.needs_discovery,
        p1.project_id@ == p2.project_id@,
{
}

} // verus!
