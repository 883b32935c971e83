//! The Kubernetes objects that the operator reads and writes, with the fields that it uses.
//!
//! Each type has a view of the same shape, which contracts speak of.
use crate::text_map::TextMap;
use crate::time::Timestamp;
use vstd::prelude::*;

verus! {

/// An environment variable of a container.
#[derive(Debug, PartialEq, Eq, Default)]
pub struct EnvVar {
    pub name: String,
    pub value: Option<String>,
}

/// The view of a [`EnvVar`].
#[verifier::ext_equal]
pub ghost struct EnvVarView {
    pub name: Seq<char>,
    pub value: Option<Seq<char>>,
}

impl DeepView for EnvVar {
    type V = EnvVarView;

    open spec fn deep_view(&self) -> EnvVarView {
        EnvVarView {
            name: self.name.deep_view(),
            value: self.value.deep_view(),
        }
    }
}

/// A Secret whose entries become environment variables.
#[derive(Debug, PartialEq, Eq, Default)]
pub struct SecretEnvSource {
    pub name: String,
    pub optional: Option<bool>,
}

/// The view of a [`SecretEnvSource`].
#[verifier::ext_equal]
pub ghost struct SecretEnvSourceView {
    pub name: Seq<char>,
    pub optional: Option<bool>,
}

impl DeepView for SecretEnvSource {
    type V = SecretEnvSourceView;

    open spec fn deep_view(&self) -> SecretEnvSourceView {
        SecretEnvSourceView {
            name: self.name.deep_view(),
            optional: self.optional.deep_view(),
        }
    }
}

/// A source of environment variables.
#[derive(Debug, PartialEq, Eq, Default)]
pub struct EnvFromSource {
    pub secret_ref: Option<SecretEnvSource>,
}

/// The view of a [`EnvFromSource`].
#[verifier::ext_equal]
pub ghost struct EnvFromSourceView {
    pub secret_ref: Option<SecretEnvSourceView>,
}

impl DeepView for EnvFromSource {
    type V = EnvFromSourceView;

    open spec fn deep_view(&self) -> EnvFromSourceView {
        EnvFromSourceView {
            secret_ref: self.secret_ref.deep_view(),
        }
    }
}

/// A volume as a container sees it.
#[derive(Debug, PartialEq, Eq, Default)]
pub struct VolumeMount {
    pub name: String,
    pub mount_path: String,
    pub read_only: Option<bool>,
}

/// The view of a [`VolumeMount`].
#[verifier::ext_equal]
pub ghost struct VolumeMountView {
    pub name: Seq<char>,
    pub mount_path: Seq<char>,
    pub read_only: Option<bool>,
}

impl DeepView for VolumeMount {
    type V = VolumeMountView;

    open spec fn deep_view(&self) -> VolumeMountView {
        VolumeMountView {
            name: self.name.deep_view(),
            mount_path: self.mount_path.deep_view(),
            read_only: self.read_only.deep_view(),
        }
    }
}

/// The resources that a container asks for.
#[derive(Debug, PartialEq, Eq, Default)]
pub struct ResourceRequirements {
    pub requests: Option<TextMap<String>>,
}

/// The view of a [`ResourceRequirements`].
#[verifier::ext_equal]
pub ghost struct ResourceRequirementsView {
    pub requests: Option<Map<Seq<char>, Seq<char>>>,
}

impl DeepView for ResourceRequirements {
    type V = ResourceRequirementsView;

    open spec fn deep_view(&self) -> ResourceRequirementsView {
        ResourceRequirementsView {
            requests: self.requests.deep_view(),
        }
    }
}

/// A container of a pod.
#[derive(Debug, PartialEq, Eq, Default)]
pub struct Container {
    pub name: String,
    pub image: Option<String>,
    pub command: Option<Vec<String>>,
    pub args: Option<Vec<String>>,
    pub env: Option<Vec<EnvVar>>,
    pub env_from: Option<Vec<EnvFromSource>>,
    pub resources: Option<ResourceRequirements>,
    pub volume_mounts: Option<Vec<VolumeMount>>,
}

/// The view of a [`Container`].
#[verifier::ext_equal]
pub ghost struct ContainerView {
    pub name: Seq<char>,
    pub image: Option<Seq<char>>,
    pub command: Option<Seq<Seq<char>>>,
    pub args: Option<Seq<Seq<char>>>,
    pub env: Option<Seq<EnvVarView>>,
    pub env_from: Option<Seq<EnvFromSourceView>>,
    pub resources: Option<ResourceRequirementsView>,
    pub volume_mounts: Option<Seq<VolumeMountView>>,
}

impl DeepView for Container {
    type V = ContainerView;

    open spec fn deep_view(&self) -> ContainerView {
        ContainerView {
            name: self.name.deep_view(),
            image: self.image.deep_view(),
            command: self.command.deep_view(),
            args: self.args.deep_view(),
            env: self.env.deep_view(),
            env_from: self.env_from.deep_view(),
            resources: self.resources.deep_view(),
            volume_mounts: self.volume_mounts.deep_view(),
        }
    }
}

/// A container that was added to a running pod.
#[derive(Debug, PartialEq, Eq, Default)]
pub struct EphemeralContainer {
    pub name: String,
    pub image: Option<String>,
}

/// The view of a [`EphemeralContainer`].
#[verifier::ext_equal]
pub ghost struct EphemeralContainerView {
    pub name: Seq<char>,
    pub image: Option<Seq<char>>,
}

impl DeepView for EphemeralContainer {
    type V = EphemeralContainerView;

    open spec fn deep_view(&self) -> EphemeralContainerView {
        EphemeralContainerView {
            name: self.name.deep_view(),
            image: self.image.deep_view(),
        }
    }
}

/// A scratch directory that lives as long as its pod.
#[derive(Debug, PartialEq, Eq, Default)]
pub struct EmptyDirVolumeSource {}

/// The view of a [`EmptyDirVolumeSource`].
#[verifier::ext_equal]
pub ghost struct EmptyDirVolumeSourceView {}

impl DeepView for EmptyDirVolumeSource {
    type V = EmptyDirVolumeSourceView;

    open spec fn deep_view(&self) -> EmptyDirVolumeSourceView {
        EmptyDirVolumeSourceView {}
    }
}

/// A volume behind a persistent volume claim.
#[derive(Debug, PartialEq, Eq, Default)]
pub struct PersistentVolumeClaimVolumeSource {
    pub claim_name: String,
    pub read_only: Option<bool>,
}

/// The view of a [`PersistentVolumeClaimVolumeSource`].
#[verifier::ext_equal]
pub ghost struct PersistentVolumeClaimVolumeSourceView {
    pub claim_name: Seq<char>,
    pub read_only: Option<bool>,
}

impl DeepView for PersistentVolumeClaimVolumeSource {
    type V = PersistentVolumeClaimVolumeSourceView;

    open spec fn deep_view(&self) -> PersistentVolumeClaimVolumeSourceView {
        PersistentVolumeClaimVolumeSourceView {
            claim_name: self.claim_name.deep_view(),
            read_only: self.read_only.deep_view(),
        }
    }
}

/// An entry of a Secret and the file that it becomes.
#[derive(Debug, PartialEq, Eq, Default)]
pub struct KeyToPath {
    pub key: String,
    pub path: String,
}

/// The view of a [`KeyToPath`].
#[verifier::ext_equal]
pub ghost struct KeyToPathView {
    pub key: Seq<char>,
    pub path: Seq<char>,
}

impl DeepView for KeyToPath {
    type V = KeyToPathView;

    open spec fn deep_view(&self) -> KeyToPathView {
        KeyToPathView {
            key: self.key.deep_view(),
            path: self.path.deep_view(),
        }
    }
}

/// A Secret whose entries become files.
#[derive(Debug, PartialEq, Eq, Default)]
pub struct SecretVolumeSource {
    pub secret_name: Option<String>,
    pub items: Option<Vec<KeyToPath>>,
}

/// The view of a [`SecretVolumeSource`].
#[verifier::ext_equal]
pub ghost struct SecretVolumeSourceView {
    pub secret_name: Option<Seq<char>>,
    pub items: Option<Seq<KeyToPathView>>,
}

impl DeepView for SecretVolumeSource {
    type V = SecretVolumeSourceView;

    open spec fn deep_view(&self) -> SecretVolumeSourceView {
        SecretVolumeSourceView {
            secret_name: self.secret_name.deep_view(),
            items: self.items.deep_view(),
        }
    }
}

/// A volume of a pod.
#[derive(Debug, PartialEq, Eq, Default)]
pub struct Volume {
    pub name: String,
    pub empty_dir: Option<EmptyDirVolumeSource>,
    pub persistent_volume_claim: Option<PersistentVolumeClaimVolumeSource>,
    pub secret: Option<SecretVolumeSource>,
}

/// The view of a [`Volume`].
#[verifier::ext_equal]
pub ghost struct VolumeView {
    pub name: Seq<char>,
    pub empty_dir: Option<EmptyDirVolumeSourceView>,
    pub persistent_volume_claim: Option<PersistentVolumeClaimVolumeSourceView>,
    pub secret: Option<SecretVolumeSourceView>,
}

impl DeepView for Volume {
    type V = VolumeView;

    open spec fn deep_view(&self) -> VolumeView {
        VolumeView {
            name: self.name.deep_view(),
            empty_dir: self.empty_dir.deep_view(),
            persistent_volume_claim: self.persistent_volume_claim.deep_view(),
            secret: self.secret.deep_view(),
        }
    }
}

/// What a pod runs.
#[derive(Debug, PartialEq, Eq, Default)]
pub struct PodSpec {
    pub restart_policy: Option<String>,
    pub volumes: Option<Vec<Volume>>,
    pub init_containers: Option<Vec<Container>>,
    pub containers: Vec<Container>,
    pub ephemeral_containers: Option<Vec<EphemeralContainer>>,
}

/// The view of a [`PodSpec`].
#[verifier::ext_equal]
pub ghost struct PodSpecView {
    pub restart_policy: Option<Seq<char>>,
    pub volumes: Option<Seq<VolumeView>>,
    pub init_containers: Option<Seq<ContainerView>>,
    pub containers: Seq<ContainerView>,
    pub ephemeral_containers: Option<Seq<EphemeralContainerView>>,
}

impl DeepView for PodSpec {
    type V = PodSpecView;

    open spec fn deep_view(&self) -> PodSpecView {
        PodSpecView {
            restart_policy: self.restart_policy.deep_view(),
            volumes: self.volumes.deep_view(),
            init_containers: self.init_containers.deep_view(),
            containers: self.containers.deep_view(),
            ephemeral_containers: self.ephemeral_containers.deep_view(),
        }
    }
}

/// The object that owns another one.
#[derive(Debug, PartialEq, Eq, Default)]
pub struct OwnerReference {
    pub api_version: String,
    pub kind: String,
    pub name: String,
    pub uid: String,
    pub controller: Option<bool>,
    pub block_owner_deletion: Option<bool>,
}

/// The view of a [`OwnerReference`].
#[verifier::ext_equal]
pub ghost struct OwnerReferenceView {
    pub api_version: Seq<char>,
    pub kind: Seq<char>,
    pub name: Seq<char>,
    pub uid: Seq<char>,
    pub controller: Option<bool>,
    pub block_owner_deletion: Option<bool>,
}

impl DeepView for OwnerReference {
    type V = OwnerReferenceView;

    open spec fn deep_view(&self) -> OwnerReferenceView {
        OwnerReferenceView {
            api_version: self.api_version.deep_view(),
            kind: self.kind.deep_view(),
            name: self.name.deep_view(),
            uid: self.uid.deep_view(),
            controller: self.controller.deep_view(),
            block_owner_deletion: self.block_owner_deletion.deep_view(),
        }
    }
}

/// The metadata of an object.
#[derive(Debug, PartialEq, Eq, Default)]
pub struct ObjectMeta {
    pub name: Option<String>,
    pub namespace: Option<String>,
    pub uid: Option<String>,
    pub creation_timestamp: Option<Timestamp>,
    pub labels: Option<TextMap<String>>,
    pub owner_references: Option<Vec<OwnerReference>>,
}

/// The view of a [`ObjectMeta`].
#[verifier::ext_equal]
pub ghost struct ObjectMetaView {
    pub name: Option<Seq<char>>,
    pub namespace: Option<Seq<char>>,
    pub uid: Option<Seq<char>>,
    pub creation_timestamp: Option<Timestamp>,
    pub labels: Option<Map<Seq<char>, Seq<char>>>,
    pub owner_references: Option<Seq<OwnerReferenceView>>,
}

impl DeepView for ObjectMeta {
    type V = ObjectMetaView;

    open spec fn deep_view(&self) -> ObjectMetaView {
        ObjectMetaView {
            name: self.name.deep_view(),
            namespace: self.namespace.deep_view(),
            uid: self.uid.deep_view(),
            creation_timestamp: self.creation_timestamp.deep_view(),
            labels: self.labels.deep_view(),
            owner_references: self.owner_references.deep_view(),
        }
    }
}

/// The pod that a Job starts.
#[derive(Debug, PartialEq, Eq, Default)]
pub struct PodTemplateSpec {
    pub metadata: Option<ObjectMeta>,
    pub spec: Option<PodSpec>,
}

/// The view of a [`PodTemplateSpec`].
#[verifier::ext_equal]
pub ghost struct PodTemplateSpecView {
    pub metadata: Option<ObjectMetaView>,
    pub spec: Option<PodSpecView>,
}

impl DeepView for PodTemplateSpec {
    type V = PodTemplateSpecView;

    open spec fn deep_view(&self) -> PodTemplateSpecView {
        PodTemplateSpecView {
            metadata: self.metadata.deep_view(),
            spec: self.spec.deep_view(),
        }
    }
}

/// What a Job runs, and how often.
#[derive(Debug, PartialEq, Eq, Default)]
pub struct JobSpec {
    pub completions: Option<i32>,
    pub parallelism: Option<i32>,
    pub backoff_limit: Option<i32>,
    pub ttl_seconds_after_finished: Option<i32>,
    pub template: PodTemplateSpec,
}

/// The view of a [`JobSpec`].
#[verifier::ext_equal]
pub ghost struct JobSpecView {
    pub completions: Option<i32>,
    pub parallelism: Option<i32>,
    pub backoff_limit: Option<i32>,
    pub ttl_seconds_after_finished: Option<i32>,
    pub template: PodTemplateSpecView,
}

impl DeepView for JobSpec {
    type V = JobSpecView;

    open spec fn deep_view(&self) -> JobSpecView {
        JobSpecView {
            completions: self.completions.deep_view(),
            parallelism: self.parallelism.deep_view(),
            backoff_limit: self.backoff_limit.deep_view(),
            ttl_seconds_after_finished: self.ttl_seconds_after_finished.deep_view(),
            template: self.template.deep_view(),
        }
    }
}

/// How far a Job has come.
#[derive(Debug, PartialEq, Eq, Default)]
pub struct JobStatus {
    pub succeeded: Option<i32>,
    pub failed: Option<i32>,
    pub completion_time: Option<Timestamp>,
}

/// The view of a [`JobStatus`].
#[verifier::ext_equal]
pub ghost struct JobStatusView {
    pub succeeded: Option<i32>,
    pub failed: Option<i32>,
    pub completion_time: Option<Timestamp>,
}

impl DeepView for JobStatus {
    type V = JobStatusView;

    open spec fn deep_view(&self) -> JobStatusView {
        JobStatusView {
            succeeded: self.succeeded.deep_view(),
            failed: self.failed.deep_view(),
            completion_time: self.completion_time.deep_view(),
        }
    }
}

/// A `batch/v1` Job.
#[derive(Debug, PartialEq, Eq, Default)]
pub struct Job {
    pub metadata: ObjectMeta,
    pub spec: Option<JobSpec>,
    pub status: Option<JobStatus>,
}

/// The view of a [`Job`].
#[verifier::ext_equal]
pub ghost struct JobView {
    pub metadata: ObjectMetaView,
    pub spec: Option<JobSpecView>,
    pub status: Option<JobStatusView>,
}

impl DeepView for Job {
    type V = JobView;

    open spec fn deep_view(&self) -> JobView {
        JobView {
            metadata: self.metadata.deep_view(),
            spec: self.spec.deep_view(),
            status: self.status.deep_view(),
        }
    }
}

/// The phase that a pod is in.
#[derive(Debug, PartialEq, Eq, Default)]
pub struct PodStatus {
    pub phase: Option<String>,
}

/// The view of a [`PodStatus`].
#[verifier::ext_equal]
pub ghost struct PodStatusView {
    pub phase: Option<Seq<char>>,
}

impl DeepView for PodStatus {
    type V = PodStatusView;

    open spec fn deep_view(&self) -> PodStatusView {
        PodStatusView {
            phase: self.phase.deep_view(),
        }
    }
}

/// A pod.
#[derive(Debug, PartialEq, Eq, Default)]
pub struct Pod {
    pub spec: Option<PodSpec>,
    pub status: Option<PodStatus>,
}

/// The view of a [`Pod`].
#[verifier::ext_equal]
pub ghost struct PodView {
    pub spec: Option<PodSpecView>,
    pub status: Option<PodStatusView>,
}

impl DeepView for Pod {
    type V = PodView;

    open spec fn deep_view(&self) -> PodView {
        PodView {
            spec: self.spec.deep_view(),
            status: self.status.deep_view(),
        }
    }
}

/// Who holds a lease, and since when.
#[derive(Debug, PartialEq, Eq, Default)]
pub struct LeaseSpec {
    pub holder_identity: Option<String>,
    pub lease_duration_seconds: Option<i32>,
    pub acquire_time: Option<Timestamp>,
    pub renew_time: Option<Timestamp>,
}

/// The view of a [`LeaseSpec`].
#[verifier::ext_equal]
pub ghost struct LeaseSpecView {
    pub holder_identity: Option<Seq<char>>,
    pub lease_duration_seconds: Option<i32>,
    pub acquire_time: Option<Timestamp>,
    pub renew_time: Option<Timestamp>,
}

impl DeepView for LeaseSpec {
    type V = LeaseSpecView;

    open spec fn deep_view(&self) -> LeaseSpecView {
        LeaseSpecView {
            holder_identity: self.holder_identity.deep_view(),
            lease_duration_seconds: self.lease_duration_seconds.deep_view(),
            acquire_time: self.acquire_time.deep_view(),
            renew_time: self.renew_time.deep_view(),
        }
    }
}

/// A `coordination.k8s.io/v1` Lease.
#[derive(Debug, PartialEq, Eq, Default)]
pub struct Lease {
    pub metadata: ObjectMeta,
    pub spec: Option<LeaseSpec>,
}

/// The view of a [`Lease`].
#[verifier::ext_equal]
pub ghost struct LeaseView {
    pub metadata: ObjectMetaView,
    pub spec: Option<LeaseSpecView>,
}

impl DeepView for Lease {
    type V = LeaseView;

    open spec fn deep_view(&self) -> LeaseView {
        LeaseView {
            metadata: self.metadata.deep_view(),
            spec: self.spec.deep_view(),
        }
    }
}

} // verus!
