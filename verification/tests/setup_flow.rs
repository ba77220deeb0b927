use auth_orchestrator::api::AuthResponse;
use auth_orchestrator::auth_key::AuthKeyStatus;
use auth_orchestrator::config::Config;
use auth_orchestrator::jobs::{adopt_host, needs_pairing, setup_pass};
use auth_orchestrator::registry::Registry;
use auth_orchestrator::store::Store;

fn test_config() -> Config {
    Config::new(
        "app".to_owned(),
        "alex".to_owned(),
        vec!["10.0.0.1".to_owned(), "10.0.0.2".to_owned()],
    )
}

#[test]
fn setup_pairs_reachable_host_and_skips_unreachable() {
    // Configured hosts 10.0.0.1 and 10.0.0.2; only the first is
    // reachable and it pairs successfully with {id: A1, key: K1}.
    let config = test_config();
    let mut registry = Registry::new();
    let mut store = Store::new();
    let available = vec!["10.0.0.1".to_owned()];
    let pairings = vec![Some(AuthResponse { id: "A1".to_owned(), key: "K1".to_owned() })];
    setup_pass(&mut registry, &mut store, &config, &available, &pairings);

    assert_eq!(registry.len(), 1);
    let k = registry.lookup(&"10.0.0.1".to_owned()).unwrap();
    assert_eq!(k.id(), "A1");
    assert_eq!(k.status(), AuthKeyStatus::Pending);
    assert!(registry.lookup(&"10.0.0.2".to_owned()).is_none());

    assert_eq!(store.len(), 1);
    let row = store.lookup(&"app".to_owned(), &"10.0.0.1".to_owned()).unwrap();
    assert_eq!(row.appuser, "alex");
    assert_eq!(row.appid, "A1");
    assert_eq!(row.appkey, "K1");
    assert!(store.lookup(&"app".to_owned(), &"10.0.0.2".to_owned()).is_none());
}

#[test]
fn setup_loads_existing_row_instead_of_pairing() {
    // A row for (app, 10.0.0.1) already exists; setup must load it
    // rather than issue a new pairing request.
    let config = test_config();
    let mut registry = Registry::new();
    let mut store = Store::new();
    store.upsert(
        "alex".to_owned(),
        "app".to_owned(),
        "10.0.0.1".to_owned(),
        "A1".to_owned(),
        "K1".to_owned(),
    );

    assert!(!needs_pairing(&store, &"app".to_owned(), &"10.0.0.1".to_owned()));

    let available = vec!["10.0.0.1".to_owned()];
    let pairings = vec![None];
    setup_pass(&mut registry, &mut store, &config, &available, &pairings);

    assert_eq!(registry.len(), 1);
    let k = registry.lookup(&"10.0.0.1".to_owned()).unwrap();
    assert_eq!(k.id(), "A1");
    assert_eq!(k.status(), AuthKeyStatus::Pending);
    // the store keeps its one row, untouched
    assert_eq!(store.len(), 1);
    let row = store.lookup(&"app".to_owned(), &"10.0.0.1".to_owned()).unwrap();
    assert_eq!(row.appid, "A1");
    assert_eq!(row.appkey, "K1");
}

#[test]
fn needs_pairing_when_no_row() {
    let store = Store::new();
    assert!(needs_pairing(&store, &"app".to_owned(), &"10.0.0.1".to_owned()));
}

#[test]
fn adopt_host_without_pairing_changes_nothing() {
    // Pairing failed for a host with no stored row: no credential may
    // appear anywhere for it.
    let config = test_config();
    let mut registry = Registry::new();
    let mut store = Store::new();
    let adopted = adopt_host(&mut registry, &mut store, &config, &"10.0.0.1".to_owned(), None);
    assert!(!adopted);
    assert_eq!(registry.len(), 0);
    assert_eq!(store.len(), 0);
}

#[test]
fn adopt_host_prefers_stored_row_over_pairing() {
    let config = test_config();
    let mut registry = Registry::new();
    let mut store = Store::new();
    store.upsert(
        "alex".to_owned(),
        "app".to_owned(),
        "10.0.0.1".to_owned(),
        "A1".to_owned(),
        "K1".to_owned(),
    );
    let resp = AuthResponse { id: "A9".to_owned(), key: "K9".to_owned() };
    let adopted =
        adopt_host(&mut registry, &mut store, &config, &"10.0.0.1".to_owned(), Some(&resp));
    assert!(adopted);
    let k = registry.lookup(&"10.0.0.1".to_owned()).unwrap();
    assert_eq!(k.id(), "A1");
    let row = store.lookup(&"app".to_owned(), &"10.0.0.1".to_owned()).unwrap();
    assert_eq!(row.appid, "A1");
}
