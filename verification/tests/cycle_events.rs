use auth_orchestrator::api::{
    auth_check_url, auth_request_url, classify_probe, collect_available, probe_url, Api,
    AuthCheckResponse, ProbeOutcome, TransportError,
};
use auth_orchestrator::auth_key::{status_from_message, AuthKey, AuthKeyStatus};
use auth_orchestrator::config::Config;
use auth_orchestrator::jobs::{apply_check_result, loop_step};
use auth_orchestrator::registry::Registry;

#[test]
fn authorized_check_publishes_one_event() {
    // A device answers {"message": "authorized"}: the host's entry
    // moves from Pending to Authorized and exactly one change event
    // comes back.
    let mut registry = Registry::new();
    registry.upsert(AuthKey::new("10.0.0.1".to_owned(), "A1".to_owned(), "K1".to_owned()));
    let status = status_from_message(&"authorized".to_owned());
    let results = vec![("10.0.0.1".to_owned(), status)];
    let events = loop_step(&mut registry, &results);
    assert_eq!(events.len(), 1);
    assert_eq!(events[0].host, "10.0.0.1");
    assert_eq!(events[0].status, AuthKeyStatus::Authorized);
    assert_eq!(
        registry.lookup(&"10.0.0.1".to_owned()).unwrap().status(),
        AuthKeyStatus::Authorized
    );
}

#[test]
fn unchanged_status_publishes_nothing() {
    let mut registry = Registry::new();
    registry.upsert(AuthKey::new("10.0.0.1".to_owned(), "A1".to_owned(), "K1".to_owned()));
    let results = vec![("10.0.0.1".to_owned(), AuthKeyStatus::Pending)];
    let events = loop_step(&mut registry, &results);
    assert!(events.is_empty());
}

#[test]
fn result_for_unknown_host_publishes_nothing() {
    let mut registry = Registry::new();
    registry.upsert(AuthKey::new("10.0.0.1".to_owned(), "A1".to_owned(), "K1".to_owned()));
    let evt = apply_check_result(&mut registry, &"10.0.0.9".to_owned(), AuthKeyStatus::Authorized);
    assert!(evt.is_none());
    assert_eq!(
        registry.lookup(&"10.0.0.1".to_owned()).unwrap().status(),
        AuthKeyStatus::Pending
    );
}

#[test]
fn two_results_two_events() {
    let mut registry = Registry::new();
    registry.upsert(AuthKey::new("10.0.0.1".to_owned(), "A1".to_owned(), "K1".to_owned()));
    registry.upsert(AuthKey::new("10.0.0.2".to_owned(), "B1".to_owned(), "L1".to_owned()));
    let results = vec![
        ("10.0.0.1".to_owned(), AuthKeyStatus::Authorized),
        ("10.0.0.2".to_owned(), AuthKeyStatus::Unauthorized),
    ];
    let events = loop_step(&mut registry, &results);
    assert_eq!(events.len(), 2);
    assert_eq!(events[0].host, "10.0.0.1");
    assert_eq!(events[0].status, AuthKeyStatus::Authorized);
    assert_eq!(events[1].host, "10.0.0.2");
    assert_eq!(events[1].status, AuthKeyStatus::Unauthorized);
}

#[test]
fn probe_timeout_is_unreachable_with_timeout_reason() {
    let o = classify_probe(&Err(TransportError::TimedOut));
    assert_eq!(o, ProbeOutcome::Unreachable(TransportError::TimedOut));
    let o = classify_probe(&Err(TransportError::Other));
    assert_eq!(o, ProbeOutcome::Unreachable(TransportError::Other));
    let o = classify_probe(&Ok(()));
    assert_eq!(o, ProbeOutcome::Reachable);
}

#[test]
fn collect_available_keeps_reachable_hosts_in_order() {
    let hosts = vec!["10.0.0.1".to_owned(), "10.0.0.2".to_owned(), "10.0.0.3".to_owned()];
    let outcomes = vec![
        ProbeOutcome::Reachable,
        ProbeOutcome::Unreachable(TransportError::TimedOut),
        ProbeOutcome::Reachable,
    ];
    let avail = collect_available(&hosts, &outcomes);
    assert_eq!(avail, vec!["10.0.0.1".to_owned(), "10.0.0.3".to_owned()]);
}

#[test]
fn urls_are_framed_exactly() {
    let host = "10.0.0.1".to_owned();
    assert_eq!(probe_url(&host), "http://10.0.0.1");
    assert_eq!(auth_request_url(&host), "http://10.0.0.1/api/v1/auth/request");
    assert_eq!(
        auth_check_url(&host, &"A1".to_owned()),
        "http://10.0.0.1/api/v1/auth/check/A1"
    );
}

#[test]
fn config_hosts_and_identity() {
    let c = Config::new(
        "app".to_owned(),
        "alex".to_owned(),
        vec!["10.0.0.1".to_owned()],
    );
    assert_eq!(c.application(), "app");
    assert_eq!(c.appuser(), "alex");
    assert_eq!(c.get_hosts().unwrap(), &vec!["10.0.0.1".to_owned()]);
}

#[test]
fn config_without_hosts_is_an_error() {
    let c = Config::new("app".to_owned(), "alex".to_owned(), Vec::new());
    let err = c.get_hosts().unwrap_err();
    assert_eq!(
        err,
        "Config did not parse correctly or there are no hosts set in Config.toml"
    );
}

#[test]
fn check_response_message_drives_the_mapping() {
    let rr = AuthCheckResponse { message: "unauthorized".to_owned() };
    assert_eq!(status_from_message(&rr.message), AuthKeyStatus::Unauthorized);
    let rr = AuthCheckResponse { message: "accepted".to_owned() };
    assert_eq!(status_from_message(&rr.message), AuthKeyStatus::Pending);
}

#[test]
fn api_exposes_pairing_params() {
    let c = Config::new("app".to_owned(), "alex".to_owned(), vec!["10.0.0.1".to_owned()]);
    let api = Api::new(c);
    let (application, user) = api.pairing_params();
    assert_eq!(application, "app");
    assert_eq!(user, "alex");
}
