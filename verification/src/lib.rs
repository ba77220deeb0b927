//! Auth lifecycle orchestration for a fleet of network printers.
//!
//! Each configured host owns at most one credential. The orchestrator
//! probes the hosts, pairs the reachable ones that lack a credential,
//! keeps the registry of credentials in sync with the durable store,
//! and reports every observed status change.
//!
//! All network and database traffic happens outside this library: the
//! functions here take the outcomes of those calls as plain values and
//! make every decision about them.

pub mod api;
pub mod auth_key;
pub mod config;
pub mod jobs;
pub mod registry;
pub mod store;
