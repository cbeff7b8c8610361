use bullshark::auth_controller::{get_strava_config, AuthController, TokenStep};
use bullshark::error::ApiError;
use bullshark::oauth::{StravaAuthToken, StravaTokenResponse};

const NOW: i64 = 1_750_000_000;

fn token(access: &str, expires_at: i64) -> StravaAuthToken {
    StravaAuthToken {
        id: "admin".to_string(),
        token_type: "Bearer".to_string(),
        access_token: access.to_string(),
        expires_at,
        expires_in: 0,
        refresh_token: "refresh-1".to_string(),
    }
}

fn controller() -> AuthController {
    AuthController::new(get_strava_config("client".to_string(), "SECRET-REDACTED".to_string(), "club-7".to_string()))
}

fn response(access: &str, expires_at: i64) -> StravaTokenResponse {
    StravaTokenResponse {
        token_type: "Bearer".to_string(),
        access_token: access.to_string(),
        expires_at,
        expires_in: 21600,
        refresh_token: "refresh-2".to_string(),
    }
}

#[test]
fn config_uses_admin_identity() {
    let c = controller();
    assert_eq!(c.strava_config.admin_id, "admin");
    assert_eq!(c.get_club_id(), "club-7");
}

#[test]
fn empty_cache_sends_caller_to_store() {
    let c = controller();
    assert!(matches!(c.get_valid_auth_token(NOW), TokenStep::ReadStore));
}

#[test]
fn missing_durable_credential_is_no_credential() {
    let c = controller();
    let r = c.on_stored_token("admin", None, NOW);
    assert!(matches!(r, Err(ApiError::NoCredential(_))));
}

#[test]
fn fresh_stored_credential_is_served_and_cached() {
    let c = controller();
    let r = c.on_stored_token("admin", Some(token("abc", NOW + 3600)), NOW);
    assert!(matches!(r, Ok(TokenStep::Ready(ref s)) if s == "abc"));
    // Now served from the cache without touching the store.
    assert!(matches!(c.get_valid_auth_token(NOW + 10), TokenStep::Ready(ref s) if s == "abc"));
}

#[test]
fn cached_credential_far_from_expiry_needs_no_refresh() {
    let c = controller();
    c.on_stored_token("admin", Some(token("abc", NOW + 301)), NOW).unwrap();
    assert!(matches!(c.get_valid_auth_token_for_user("admin", NOW), TokenStep::Ready(ref s) if s == "abc"));
}

#[test]
fn expired_cache_entry_is_evicted() {
    let c = controller();
    c.on_stored_token("admin", Some(token("abc", NOW + 3600)), NOW).unwrap();
    assert!(matches!(c.get_valid_auth_token(NOW + 3600), TokenStep::ReadStore));
    assert!(c.token_cache.get("admin").is_none());
}

#[test]
fn expiring_credential_is_refreshed_once_and_stored() {
    let c = controller();
    let old = token("old", NOW + 299);
    let step = c.on_stored_token("admin", Some(old.clone()), NOW).unwrap();
    let to_refresh = match step {
        TokenStep::Refresh(t) => t,
        other => panic!("expected a refresh, got {:?}", other),
    };
    assert_eq!(to_refresh.refresh_token, "refresh-1");
    let step = c.on_refreshed(&to_refresh, Ok(response("new", NOW + 21600))).unwrap();
    let new = match step {
        TokenStep::Persist(t) => t,
        other => panic!("expected a write, got {:?}", other),
    };
    assert_eq!(new.id, "admin");
    assert_eq!(new.access_token, "new");
    assert_eq!(new.refresh_token, "refresh-2");
    assert_eq!(c.token_cache.get("admin").unwrap().access_token, "new");
    assert_eq!(c.on_persisted(&new, Ok(())).unwrap(), "new");
    assert!(matches!(c.get_valid_auth_token(NOW), TokenStep::Ready(ref s) if s == "new"));
}

#[test]
fn expired_stored_credential_is_refreshed() {
    let c = controller();
    let r = c.on_stored_token("admin", Some(token("old", NOW - 1)), NOW);
    assert!(matches!(r, Ok(TokenStep::Refresh(_))));
}

#[test]
fn failed_refresh_leaves_cache_empty() {
    let c = controller();
    let old = token("old", NOW + 10);
    let r = c.on_refreshed(&old, Err(ApiError::ExternalAPIError("503".to_string())));
    assert!(matches!(r, Err(ApiError::ExternalAPIError(_))));
    assert!(c.token_cache.get("admin").is_none());
}

#[test]
fn failed_store_write_is_reported() {
    let c = controller();
    let new = token("new", NOW + 21600);
    let r = c.on_persisted(&new, Err(ApiError::DatabaseError("down".to_string())));
    assert!(matches!(r, Err(ApiError::DatabaseError(_))));
}

#[test]
fn expiry_checks() {
    let t = token("a", NOW + 300);
    assert!(!t.is_expired(NOW));
    assert!(!t.expires_soon(NOW));
    assert!(t.expires_soon(NOW + 1));
    assert!(t.is_expired(NOW + 300));
    let r = StravaAuthToken::new("admin".to_string(), response("x", 5));
    assert_eq!(r.access_token, "x");
    assert_eq!(r.expires_at, 5);
}
