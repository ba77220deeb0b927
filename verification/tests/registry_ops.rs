use auth_orchestrator::auth_key::{AuthKey, AuthKeyStatus};
use auth_orchestrator::jobs::check_targets;
use auth_orchestrator::registry::Registry;

#[test]
fn upsert_keeps_one_credential_per_host() {
    let mut r = Registry::new();
    r.upsert(AuthKey::new("10.0.0.1".to_owned(), "A1".to_owned(), "K1".to_owned()));
    r.upsert(AuthKey::new("10.0.0.2".to_owned(), "B1".to_owned(), "L1".to_owned()));
    assert_eq!(r.len(), 2);
    r.upsert(AuthKey::new("10.0.0.1".to_owned(), "A2".to_owned(), "K2".to_owned()));
    assert_eq!(r.len(), 2);
    let k = r.lookup(&"10.0.0.1".to_owned()).unwrap();
    assert_eq!(k.id(), "A2");
}

#[test]
fn lookup_absent_host() {
    let r = Registry::new();
    assert!(r.lookup(&"10.0.0.1".to_owned()).is_none());
}

#[test]
fn set_status_reports_prior() {
    let mut r = Registry::new();
    r.upsert(AuthKey::new("10.0.0.1".to_owned(), "A1".to_owned(), "K1".to_owned()));
    let prior = r.set_status(&"10.0.0.1".to_owned(), AuthKeyStatus::Unknown);
    assert_eq!(prior, Some(AuthKeyStatus::Pending));
    let prior = r.set_status(&"10.0.0.1".to_owned(), AuthKeyStatus::Authorized);
    assert_eq!(prior, Some(AuthKeyStatus::Unknown));
    assert_eq!(r.lookup(&"10.0.0.1".to_owned()).unwrap().status(), AuthKeyStatus::Authorized);
}

#[test]
fn set_status_on_absent_host_changes_nothing() {
    let mut r = Registry::new();
    r.upsert(AuthKey::new("10.0.0.1".to_owned(), "A1".to_owned(), "K1".to_owned()));
    let prior = r.set_status(&"10.0.0.9".to_owned(), AuthKeyStatus::Authorized);
    assert_eq!(prior, None);
    assert_eq!(r.lookup(&"10.0.0.1".to_owned()).unwrap().status(), AuthKeyStatus::Pending);
}

#[test]
fn all_and_index_snapshot_in_order() {
    let mut r = Registry::new();
    r.upsert(AuthKey::new("10.0.0.1".to_owned(), "A1".to_owned(), "K1".to_owned()));
    r.upsert(AuthKey::new("10.0.0.2".to_owned(), "B1".to_owned(), "L1".to_owned()));
    let snapshot = r.all();
    assert_eq!(snapshot.len(), 2);
    assert_eq!(snapshot[0].host(), "10.0.0.1");
    assert_eq!(snapshot[1].host(), "10.0.0.2");
    assert_eq!(r.index(1).id(), "B1");
}

#[test]
fn check_targets_lists_host_id_pairs() {
    let mut r = Registry::new();
    r.upsert(AuthKey::new("10.0.0.1".to_owned(), "A1".to_owned(), "K1".to_owned()));
    r.upsert(AuthKey::new("10.0.0.2".to_owned(), "B1".to_owned(), "L1".to_owned()));
    let targets = check_targets(&r);
    assert_eq!(targets.len(), 2);
    assert_eq!(targets[0], ("10.0.0.1".to_owned(), "A1".to_owned()));
    assert_eq!(targets[1], ("10.0.0.2".to_owned(), "B1".to_owned()));
}
