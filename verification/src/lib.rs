//! Verified core of a Kubernetes operator that scans the container images of a namespace.
pub mod crds;
pub mod digest;
pub mod k8s;
pub mod kube;
pub mod laws;
pub mod leader;
pub mod reconcile;
pub mod scan_job;
pub mod status;
pub mod text;
pub mod text_map;
pub mod time;
pub mod view;
