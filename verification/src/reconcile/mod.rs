//! Reconciling: what the operator does about a `NamespaceScan`, and what it reports.
pub mod namespace_scan;
pub mod scan_orchestrator;
pub mod scheduler;
pub mod status_aggregator;
