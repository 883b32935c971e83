//! The custom resources of the operator.
pub mod namespace_scan;
