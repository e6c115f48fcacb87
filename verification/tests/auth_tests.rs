use gemini_proxy::auth::{
    apply_refresh, apply_refresh_outcome, compute_expiry, ensure_valid_token, token_is_expired,
    AuthError, OAuthResult, TokenAction,
};
use gemini_proxy::config::{apply_login, clear_auth, get_config_file, set_project, AuthConfig, Config};
use gemini_proxy::proxy::{get_auth, load_managed_project, update_project};
use gemini_proxy::server::{bind_address, health_authenticated, model_catalog, ServerState};
use gemini_proxy::strutil::{str_eq, u16_to_string, u64_to_string};

fn auth(expires_at: u64) -> AuthConfig {
    AuthConfig {
        access_token: "at-1".to_string(),
        refresh_token: "rt-1".to_string(),
        expires_at,
        email: Some("a@b.c".to_string()),
    }
}

#[test]
fn token_within_margin_is_expired() {
    let now: u64 = 1_700_000_000;
    assert!(token_is_expired(now, now + 30));
    assert!(!token_is_expired(now, now + 120));
    assert!(token_is_expired(now, now + 60));
    assert!(!token_is_expired(now, now + 61));
    assert!(token_is_expired(now, now));
    assert!(token_is_expired(5, 30));
}

#[test]
fn ensure_valid_token_decides_refresh() {
    let now: u64 = 1_700_000_000;
    assert!(matches!(
        ensure_valid_token(&None, now),
        Err(AuthError::NoCredential)
    ));
    assert!(matches!(
        ensure_valid_token(&Some(auth(now + 30)), now),
        Ok(TokenAction::Refresh)
    ));
    assert!(matches!(
        ensure_valid_token(&Some(auth(now + 120)), now),
        Ok(TokenAction::UseCurrent)
    ));
}

#[test]
fn expiry_computation() {
    assert_eq!(compute_expiry(1000, Some(100)), 1100);
    assert_eq!(compute_expiry(1000, None), 4600);
}

#[test]
fn refresh_keeps_refresh_token_and_email() {
    let mut a = auth(1000);
    apply_refresh(&mut a, "at-2".to_string(), 9000);
    assert_eq!(a.access_token, "at-2");
    assert_eq!(a.expires_at, 9000);
    assert_eq!(a.refresh_token, "rt-1");
    assert_eq!(a.email.as_deref(), Some("a@b.c"));
}

#[test]
fn refresh_outcome_installs_or_reports_failure() {
    let mut a = auth(1000);
    let r = apply_refresh_outcome(&mut a, Some(("at-3".to_string(), 8000)));
    assert!(r.is_ok());
    assert_eq!(a.access_token, "at-3");
    assert_eq!(a.expires_at, 8000);
    assert_eq!(a.refresh_token, "rt-1");

    let r = apply_refresh_outcome(&mut a, None);
    assert!(matches!(r, Err(AuthError::RefreshFailed)));
    assert_eq!(a.access_token, "at-3");
    assert_eq!(a.expires_at, 8000);
    assert_eq!(a.email.as_deref(), Some("a@b.c"));
}

#[test]
fn auth_plan_demands_refresh_inside_margin() {
    let now: u64 = 1_700_000_000;
    let expiring = Config { auth: Some(auth(now + 30)), project_id: Some("p".to_string()) };
    let plan = get_auth(&expiring, now).unwrap();
    assert!(plan.needs_refresh);

    let fresh = Config { auth: Some(auth(now + 120)), project_id: Some("p".to_string()) };
    let plan = get_auth(&fresh, now).unwrap();
    assert!(!plan.needs_refresh);
    assert_eq!(plan.access_token, "at-1");
}

#[test]
fn login_logout_and_set_project() {
    let mut config = Config { auth: None, project_id: Some("p".to_string()) };
    assert!(!health_authenticated(&config));
    apply_login(
        &mut config,
        OAuthResult {
            access_token: "at".to_string(),
            refresh_token: "rt".to_string(),
            expires_at: 77,
            email: "x@y.z".to_string(),
        },
    );
    assert!(health_authenticated(&config));
    let a = config.auth.as_ref().unwrap();
    assert_eq!(a.access_token, "at");
    assert_eq!(a.refresh_token, "rt");
    assert_eq!(a.expires_at, 77);
    assert_eq!(a.email.as_deref(), Some("x@y.z"));
    assert_eq!(config.project_id.as_deref(), Some("p"));

    set_project(&mut config, "proj-9".to_string());
    assert_eq!(config.project_id.as_deref(), Some("proj-9"));

    assert!(clear_auth(&mut config));
    assert!(config.auth.is_none());
    assert!(!clear_auth(&mut config));
}

#[test]
fn config_file_path() {
    assert_eq!(
        get_config_file("/home/u/.gemini-proxy"),
        "/home/u/.gemini-proxy/config.json"
    );
}

#[test]
fn cached_project_resolution_is_idempotent() {
    let config = Config {
        auth: Some(auth(10)),
        project_id: Some("proj-1".to_string()),
    };
    let p1 = get_auth(&config, 0).unwrap();
    let p2 = get_auth(&config, 0).unwrap();
    assert!(!p1.needs_discovery);
    assert!(!p2.needs_discovery);
    assert_eq!(p1.project_id, "proj-1");
    assert_eq!(p2.project_id, p1.project_id);
    assert_eq!(p1.access_token, "at-1");
}

#[test]
fn missing_or_default_project_asks_for_discovery() {
    let none = Config { auth: Some(auth(10)), project_id: None };
    let p = get_auth(&none, 0).unwrap();
    assert!(p.needs_discovery);
    assert_eq!(p.project_id, "default");

    let sentinel = Config { auth: Some(auth(10)), project_id: Some("default".to_string()) };
    assert!(get_auth(&sentinel, 0).unwrap().needs_discovery);

    let unauthed = Config { auth: None, project_id: None };
    assert!(matches!(get_auth(&unauthed, 0), Err(AuthError::NoCredential)));
}

#[test]
fn discovery_body_yields_project_id() {
    assert_eq!(
        load_managed_project(Some("{\"cloudaicompanionProject\":\"p1\"}")).as_deref(),
        Some("p1")
    );
    assert_eq!(
        load_managed_project(Some("{\"cloudaicompanionProject\":{\"id\":\"p2\"}}")).as_deref(),
        Some("p2")
    );
    assert_eq!(load_managed_project(Some("{\"other\":1}")), None);
    assert_eq!(load_managed_project(Some("not json")), None);
    assert_eq!(load_managed_project(None), None);
}

#[test]
fn discovered_project_is_cached_for_persistence() {
    let mut config = Config { auth: Some(auth(10)), project_id: None };
    assert!(!update_project(&mut config, None));
    assert_eq!(config.project_id, None);
    assert!(update_project(&mut config, Some("proj-7".to_string())));
    assert_eq!(config.project_id.as_deref(), Some("proj-7"));
}

#[test]
fn numbers_format_as_decimal() {
    assert_eq!(u64_to_string(0), "0");
    assert_eq!(u64_to_string(7), "7");
    assert_eq!(u64_to_string(10), "10");
    assert_eq!(u64_to_string(305), "305");
    assert_eq!(u64_to_string(u64::MAX), "18446744073709551615");
    assert_eq!(u16_to_string(65535), "65535");
}

#[test]
fn bind_address_joins_host_and_port() {
    let state = ServerState { port: 3000, host: "localhost".to_string() };
    assert_eq!(bind_address(&state), "localhost:3000");
    let state = ServerState { port: 0, host: "0.0.0.0".to_string() };
    assert_eq!(bind_address(&state), "0.0.0.0:0");
}

#[test]
fn string_equality_is_by_characters() {
    assert!(str_eq("", ""));
    assert!(str_eq("abc", "abc"));
    assert!(!str_eq("abc", "abd"));
    assert!(!str_eq("abc", "ab"));
    assert!(str_eq("naïve ✓", "naïve ✓"));
}

#[test]
fn model_catalog_is_static() {
    let models = model_catalog();
    assert_eq!(models.len(), 4);
    assert_eq!(models[0], "gemini-2.5-flash");
    assert_eq!(models[1], "gemini-2.5-pro");
    assert_eq!(models[2], "gemini-3-flash-preview");
    assert_eq!(models[3], "gemini-3-pro-preview");
}
