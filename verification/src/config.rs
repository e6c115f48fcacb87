use vstd::prelude::*;
use vstd::string::*;
use crate::auth::OAuthResult;

verus! {

/// The persisted credential record: access and refresh tokens, expiry
/// timestamp (unix seconds), and the account email when known.
#[derive(Clone)]
pub struct AuthConfig {
    pub access_token: String,
    pub refresh_token: String,
    pub expires_at: u64,
    pub email: Option<String>,
}

/// The persisted configuration: the credential, if any, and the cached
/// backend project id, if one was resolved or set.
#[derive(Clone)]
pub struct Config {
    pub auth: Option<AuthConfig>,
    pub project_id: Option<String>,
}

/// The path of the configuration file inside a given configuration directory.
pub fn get_config_file(config_dir: &str) -> (r: String)
    ensures
        r@ == config_dir@ + "/config.json"@,
{
    let mut path = String::from_str(config_dir);
    path.append("/config.json");
    path
}

/// Install the credential obtained from a completed authorization flow,
/// leaving the cached project id untouched.
pub fn apply_login(config: &mut Config, result: OAuthResult)
    ensures
        final(config).auth matches Some(a) && a.access_token == result.access_token
            && a.refresh_token == result.refresh_token
            && a.expires_at == result.expires_at
            && a.email == Some(result.email),
        final(config).project_id == old(config).project_id,
{
    config.auth = Some(AuthConfig {
        access_token: result.access_token,
        refresh_token: result.refresh_token,
        expires_at: result.expires_at,
        email: Some(result.email),
    });
}

/// Remove the stored credential; reports whether one was present.
pub fn clear_auth(config: &mut Config) -> (removed: bool)
    ensures
        final(config).auth is None,
        final(config).project_id == old(config).project_id,
        removed == (old(config).auth is Some),
{
    let removed = config.auth.is_some();
    config.auth = None;
    removed
}

/// Pin the backend project id explicitly.
pub fn set_project(config: &mut Config, project_id: String)
    ensures
        final(config).project_id == Some(project_id),
        final(config).auth == old(config).auth,
{
    config.project_id = Some(project_id);
}

} // verus!
