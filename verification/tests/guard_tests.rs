use exposure_core::guard::check_secret;
use exposure_core::GuardError;
use exposure_core::VWApi;

#[test]
fn missing_header_is_unauthorized() {
    let configured = Some(String::from("SECRET-REDACTED"));
    let r = check_secret(None, configured.as_ref());
    assert_eq!(r, Err(GuardError::MissingCredential));
    assert_eq!(GuardError::MissingCredential.status_code(), 401);
}

#[test]
fn empty_header_is_unauthorized() {
    let provided = Some(String::new());
    let configured = Some(String::from("SECRET-REDACTED"));
    let r = check_secret(provided.as_ref(), configured.as_ref());
    assert_eq!(r, Err(GuardError::MissingCredential));
}

#[test]
fn unconfigured_guard_is_server_error() {
    let provided = Some(String::from("anything"));
    let r = check_secret(provided.as_ref(), None);
    assert_eq!(r, Err(GuardError::NotConfigured));
    assert_eq!(GuardError::NotConfigured.status_code(), 500);
}

#[test]
fn mismatch_is_unauthorized() {
    let provided = Some(String::from("wrong"));
    let configured = Some(String::from("right"));
    let r = check_secret(provided.as_ref(), configured.as_ref());
    assert_eq!(r, Err(GuardError::InvalidCredential));
    assert_eq!(GuardError::InvalidCredential.status_code(), 401);
}

#[test]
fn exact_match_passes() {
    let provided = Some(String::from("token-1"));
    let configured = Some(String::from("token-1"));
    let r = check_secret(provided.as_ref(), configured.as_ref());
    assert_eq!(r, Ok(()));
}

#[test]
fn case_differs_is_unauthorized() {
    let provided = Some(String::from("Token-1"));
    let configured = Some(String::from("token-1"));
    let r = check_secret(provided.as_ref(), configured.as_ref());
    assert_eq!(r, Err(GuardError::InvalidCredential));
}

#[test]
fn guards_are_not_interchangeable() {
    // The administrative secret presented on the system-integration header
    // never satisfies the system-integration guard.
    let admin_secret = Some(String::from("admin-secret"));
    let vw_secret = Some(String::from("vw-secret"));
    let r = VWApi::from_request(admin_secret.as_ref(), vw_secret.as_ref());
    assert!(matches!(r, Err(GuardError::InvalidCredential)));
    let ok = VWApi::from_request(vw_secret.as_ref(), vw_secret.as_ref());
    assert!(ok.is_ok());
}
