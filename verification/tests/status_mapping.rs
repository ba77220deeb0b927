use auth_orchestrator::auth_key::{status_from_message, AuthKey, AuthKeyStatus};

#[test]
fn authorized_maps_to_authorized() {
    let s = status_from_message(&"authorized".to_owned());
    assert_eq!(s, AuthKeyStatus::Authorized);
}

#[test]
fn unauthorized_maps_to_unauthorized() {
    let s = status_from_message(&"unauthorized".to_owned());
    assert_eq!(s, AuthKeyStatus::Unauthorized);
}

#[test]
fn unknown_maps_to_unknown() {
    let s = status_from_message(&"unknown".to_owned());
    assert_eq!(s, AuthKeyStatus::Unknown);
}

#[test]
fn unrecognized_maps_to_pending_fallback() {
    assert_eq!(status_from_message(&"".to_owned()), AuthKeyStatus::Pending);
    assert_eq!(status_from_message(&"AUTHORIZED".to_owned()), AuthKeyStatus::Pending);
    assert_eq!(status_from_message(&"denied".to_owned()), AuthKeyStatus::Pending);
    assert_eq!(status_from_message(&"authorized ".to_owned()), AuthKeyStatus::Pending);
}

#[test]
fn new_key_starts_pending() {
    let k = AuthKey::new("10.0.0.1".to_owned(), "A1".to_owned(), "K1".to_owned());
    assert_eq!(k.host(), "10.0.0.1");
    assert_eq!(k.id(), "A1");
    assert_eq!(k.status(), AuthKeyStatus::Pending);
}

#[test]
fn set_status_overwrites() {
    let mut k = AuthKey::new("10.0.0.1".to_owned(), "A1".to_owned(), "K1".to_owned());
    k.set_status(AuthKeyStatus::Authorized);
    assert_eq!(k.status(), AuthKeyStatus::Authorized);
    k.set_status(AuthKeyStatus::Unauthorized);
    assert_eq!(k.status(), AuthKeyStatus::Unauthorized);
}
