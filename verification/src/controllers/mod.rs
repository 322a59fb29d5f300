//! Reconciliation: what each controller decides from what it finds.
pub mod backup;
pub mod cronjob;
pub mod daemonset;
pub mod deployment;
pub mod endpoint;
pub mod events;
pub mod hpa;
pub mod job;
pub mod node;
pub mod replicaset;
pub mod restore_watcher;
