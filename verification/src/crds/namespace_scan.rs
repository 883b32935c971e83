//! The `NamespaceScan` resource: `kusari.dev/v1alpha1`.
use crate::k8s::{ObjectMeta, ObjectMetaView};
use vstd::prelude::*;
use vstd::string::StringExecFns;

verus! {

/// A request to scan the images that run in some namespaces.
#[derive(Debug, PartialEq, Eq)]
pub struct NamespaceScan {
    pub metadata: ObjectMeta,
    pub spec: NamespaceScanSpec,
    pub status: Option<NamespaceScanStatus>,
}

/// What to scan, when, with what, and where the results go.
#[derive(Debug, Clone, PartialEq, Eq)]
pub struct NamespaceScanSpec {
    pub target: Target,
    pub schedule: Schedule,
    /// Pinned mikebom image (e.g., `ghcr.io/kusari-oss/mikebom:v0.1.0-alpha.51`).
    pub mikebom_image: String,
    pub scan_format: ScanFormat,
    pub output: Output,
}

/// The workloads whose images are scanned.
#[derive(Debug, Clone, PartialEq, Eq)]
pub struct Target {
    pub namespaces: Vec<String>,
    /// Workload kinds. Defaults to `[Pod]`.
    pub kinds: Vec<String>,
    pub label_selector: Option<String>,
}

/// When to scan again: exactly one of the two is to be set.
#[derive(Debug, Clone, PartialEq, Eq)]
pub struct Schedule {
    /// Five-field cron expression, in UTC.
    pub cron: Option<String>,
    /// Go-style duration string (`6h`, `30m`, etc.).
    pub interval: Option<String>,
}

/// The format of the SBOM.
#[derive(Debug, Clone, Copy, PartialEq, Eq)]
pub enum ScanFormat {
    CyclonedxJson,
    Spdx23Json,
    Spdx3Json,
}

/// Where the SBOM goes.
#[derive(Debug, Clone, PartialEq, Eq)]
pub struct Output {
    pub backend_type: OutputType,
    pub pvc: Option<PvcOutput>,
    pub s3: Option<S3Output>,
    pub oci: Option<OciOutput>,
}

/// The kind of place that the SBOM goes to.
#[derive(Debug, Clone, Copy, PartialEq, Eq)]
pub enum OutputType {
    Pvc,
    S3,
    Oci,
}

/// A persistent volume claim.
#[derive(Debug, Clone, PartialEq, Eq)]
pub struct PvcOutput {
    pub claim_name: String,
    pub path_prefix: Option<String>,
}

/// An S3 bucket.
#[derive(Debug, Clone, PartialEq, Eq)]
pub struct S3Output {
    pub bucket: String,
    pub region: String,
    pub path_prefix: Option<String>,
    /// Name of a Secret in the operator's namespace that holds AWS credentials under the keys
    /// `AWS_ACCESS_KEY_ID` and `AWS_SECRET_ACCESS_KEY`.
    pub credentials_secret_name: Option<String>,
}

/// A repository of an OCI registry.
#[derive(Debug, Clone, PartialEq, Eq)]
pub struct OciOutput {
    pub registry: String,
    pub repository: String,
    /// Name of a Secret of type `kubernetes.io/dockerconfigjson` in the operator's namespace.
    pub credentials_secret_name: Option<String>,
}

/// What the operator reports about a `NamespaceScan`.
#[derive(Debug, Clone, PartialEq, Eq, Default)]
pub struct NamespaceScanStatus {
    pub conditions: Vec<StatusCondition>,
    /// The time of the most recent reconcile attempt, refreshed on every reconcile cycle.
    pub last_reconciled_at: Option<String>,
    pub last_scan_completed_at: Option<String>,
    pub scanned_images: Vec<ScannedImage>,
    /// The time of the next scheduled scan.
    pub next_scheduled_scan_at: Option<String>,
}

/// One aspect of the state of a `NamespaceScan`.
#[derive(Debug, PartialEq, Eq)]
pub struct StatusCondition {
    pub condition_type: String,
    pub status: String,
    pub reason: Option<String>,
    pub message: Option<String>,
    pub last_transition_time: Option<String>,
}

/// An image that was scanned, and where its SBOM is.
#[derive(Debug, PartialEq, Eq)]
pub struct ScannedImage {
    pub image_ref: String,
    pub resolved_sha: Option<String>,
    pub sbom_location: String,
    pub completed_at: String,
}

/// The view of a [`NamespaceScanStatus`].
#[verifier::ext_equal]
pub ghost struct NamespaceScanStatusView {
    pub conditions: Seq<StatusConditionView>,
    pub last_reconciled_at: Option<Seq<char>>,
    pub last_scan_completed_at: Option<Seq<char>>,
    pub scanned_images: Seq<ScannedImageView>,
    pub next_scheduled_scan_at: Option<Seq<char>>,
}

impl DeepView for NamespaceScanStatus {
    type V = NamespaceScanStatusView;

    open spec fn deep_view(&self) -> NamespaceScanStatusView {
        NamespaceScanStatusView {
            conditions: self.conditions.deep_view(),
            last_reconciled_at: self.last_reconciled_at.deep_view(),
            last_scan_completed_at: self.last_scan_completed_at.deep_view(),
            scanned_images: self.scanned_images.deep_view(),
            next_scheduled_scan_at: self.next_scheduled_scan_at.deep_view(),
        }
    }
}

/// The view of a [`StatusCondition`].
#[verifier::ext_equal]
pub ghost struct StatusConditionView {
    pub condition_type: Seq<char>,
    pub status: Seq<char>,
    pub reason: Option<Seq<char>>,
    pub message: Option<Seq<char>>,
    pub last_transition_time: Option<Seq<char>>,
}

impl DeepView for StatusCondition {
    type V = StatusConditionView;

    open spec fn deep_view(&self) -> StatusConditionView {
        StatusConditionView {
            condition_type: self.condition_type.deep_view(),
            status: self.status.deep_view(),
            reason: self.reason.deep_view(),
            message: self.message.deep_view(),
            last_transition_time: self.last_transition_time.deep_view(),
        }
    }
}

/// The view of a [`ScannedImage`].
#[verifier::ext_equal]
pub ghost struct ScannedImageView {
    pub image_ref: Seq<char>,
    pub resolved_sha: Option<Seq<char>>,
    pub sbom_location: Seq<char>,
    pub completed_at: Seq<char>,
}

impl DeepView for ScannedImage {
    type V = ScannedImageView;

    open spec fn deep_view(&self) -> ScannedImageView {
        ScannedImageView {
            image_ref: self.image_ref.deep_view(),
            resolved_sha: self.resolved_sha.deep_view(),
            sbom_location: self.sbom_location.deep_view(),
            completed_at: self.completed_at.deep_view(),
        }
    }
}

impl Clone for StatusCondition {
    fn clone(&self) -> (r: Self)
        ensures
            r == *self,
    {
        StatusCondition {
            condition_type: self.condition_type.clone(),
            status: self.status.clone(),
            reason: self.reason.clone(),
            message: self.message.clone(),
            last_transition_time: self.last_transition_time.clone(),
        }
    }
}

impl Clone for ScannedImage {
    fn clone(&self) -> (r: Self)
        ensures
            r == *self,
    {
        ScannedImage {
            image_ref: self.image_ref.clone(),
            resolved_sha: self.resolved_sha.clone(),
            sbom_location: self.sbom_location.clone(),
            completed_at: self.completed_at.clone(),
        }
    }
}

impl NamespaceScan {
    /// A `NamespaceScan` of the given name, without a status.
    pub fn new(name: &str, spec: NamespaceScanSpec) -> (r: Self)
        ensures
            r.spec == spec,
            r.status is None,
            r.metadata.deep_view() == (ObjectMetaView {
                name: Some(name@),
                namespace: None,
                uid: None,
                creation_timestamp: None,
                labels: None,
                owner_references: None,
            }),
    {
        NamespaceScan {
            metadata: ObjectMeta {
                name: Some(String::from_str(name)),
                namespace: None,
                uid: None,
                creation_timestamp: None,
                labels: None,
                owner_references: None,
            },
            spec,
            status: None,
        }
    }
}

} // verus!
