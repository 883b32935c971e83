//! What the operator does, stated on the fields that go in and come out: each law says for all
//! inputs what a result has to satisfy, whatever way it is computed in.
pub mod duration;
pub mod leader;
pub mod namespace_scan;
pub mod scan_job;
pub mod scan_orchestrator;
pub mod scheduler;
pub mod status;
pub mod status_aggregator;
pub mod text;
pub mod time;
