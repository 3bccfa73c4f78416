use boosty_gate::auth::{
    current_unix_time, default_device_os, default_grant_type, AuthData, AuthError,
    RefreshAuthDataResponse,
};

fn credential(expires_at: u128) -> AuthData {
    AuthData {
        access_token: "old-access".to_string(),
        refresh_token: "old-refresh".to_string(),
        device_id: "device-1".to_string(),
        device_os: "web".to_string(),
        grant_type: "refresh_token".to_string(),
        expires_at,
    }
}

#[test]
fn expired_iff_strictly_before_now() {
    let auth = credential(1000);
    assert!(!auth.is_expired_at(999));
    assert!(!auth.is_expired_at(1000));
    assert!(auth.is_expired_at(1001));
}

#[test]
fn never_expired_at_epoch() {
    let auth = credential(5);
    assert!(!auth.is_expired_at(0));
}

#[test]
fn max_expiry_never_expires_on_real_clock() {
    let auth = credential(u128::MAX);
    assert!(!auth.expired());
    assert!(!auth.is_expired_at(current_unix_time()));
}

#[test]
fn defaults_match_protocol() {
    assert_eq!(default_device_os(), "web");
    assert_eq!(default_grant_type(), "refresh_token");
}

#[test]
fn successful_refresh_replaces_tokens_and_unexpires() {
    let mut auth = credential(100);
    assert!(auth.is_expired_at(500));
    let resp = RefreshAuthDataResponse {
        access_token: "new-access".to_string(),
        refresh_token: "new-refresh".to_string(),
        expires_in: 3_600_000,
    };
    let out = auth.refresh_step(Some(resp), 500);
    assert!(out.is_ok());
    assert_eq!(auth.access_token, "new-access");
    assert_eq!(auth.refresh_token, "new-refresh");
    assert_eq!(auth.expires_at, 500 + 3_600_000);
    assert!(!auth.is_expired_at(500));
    assert_eq!(auth.device_id, "device-1");
    assert_eq!(auth.device_os, "web");
    assert_eq!(auth.grant_type, "refresh_token");
}

#[test]
fn zero_lifetime_refresh_is_still_fresh() {
    let mut auth = credential(0);
    let resp = RefreshAuthDataResponse {
        access_token: "a".to_string(),
        refresh_token: "r".to_string(),
        expires_in: 0,
    };
    auth.apply_refresh(resp, 777);
    assert_eq!(auth.expires_at, 777);
    assert!(!auth.is_expired_at(777));
}

#[test]
fn failed_refresh_leaves_credential_untouched() {
    let mut auth = credential(100);
    let out = auth.refresh_step(None, 500);
    assert_eq!(out, Err(AuthError::RefreshFailed));
    assert_eq!(auth.access_token, "old-access");
    assert_eq!(auth.refresh_token, "old-refresh");
    assert_eq!(auth.expires_at, 100);
    assert_eq!(auth.bearer_token(), "old-access");
    assert!(auth.is_expired_at(500));
}

#[test]
fn clock_based_update_extends_past_the_lifetime() {
    let mut auth = credential(0);
    auth.update_from_expires_in(5_000);
    assert!(auth.expires_at >= 5_000);
    assert_eq!(auth.access_token, "old-access");
    assert_eq!(auth.refresh_token, "old-refresh");
    assert_eq!(auth.device_id, "device-1");
}

#[test]
fn expiry_addition_saturates() {
    let mut auth = credential(0);
    auth.update_from_expires_in_at(u128::MAX - 5, 10);
    assert_eq!(auth.expires_at, u128::MAX);
    auth.update_from_expires_in_at(40, 2);
    assert_eq!(auth.expires_at, 42);
}

#[test]
fn refresh_request_carries_stored_fields() {
    let auth = credential(9);
    let req = auth.refresh_request();
    assert_eq!(req.device_id, "device-1");
    assert_eq!(req.device_os, "web");
    assert_eq!(req.grant_type, "refresh_token");
    assert_eq!(req.refresh_token, "old-refresh");
}
