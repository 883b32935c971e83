//! Fixed choices of the scan Job. Images are pinned to manifest digests.
use vstd::prelude::*;

verus! {

/// Init-pull image: extracts the target image's rootfs with `crane export`.
///
/// Distroless with a busybox base: ships `sh`, `tar` and `crane`.
pub const INIT_PULL_IMAGE: &'static str = "gcr.io/go-containerregistry/crane@sha256:1b1fb24d2b1bb27a9daf81a588157e68463876904e8e537a812edba6284fb252";

/// PVC upload image: a distroless busybox with `sh`, `cp` and `mkdir`.
pub const PVC_UPLOAD_IMAGE: &'static str = "cgr.dev/chainguard/busybox@sha256:accc5c911abaf2f70487f93cad07b0891d502cbba7e79f96d1db9074ef40928a";

/// S3 upload image: the official AWS CLI, with a POSIX `sh`.
pub const S3_UPLOAD_IMAGE: &'static str = "public.ecr.aws/aws-cli/aws-cli@sha256:749bfaf91d690b9a1768083822d620f96c19defdf9ca2dc227eb3695281fda5b";

/// OCI upload image: the official ORAS image. It has no shell, so its arguments use the
/// `$(VAR)` substitution of Kubernetes.
pub const OCI_UPLOAD_IMAGE: &'static str = "ghcr.io/oras-project/oras@sha256:0087224dd0decc354b5b0689068fbbc40cd5dc3dbf65fcb3868dfbd363dc790b";

/// Volume name for the registry credentials.
pub const DOCKER_CONFIG_VOLUME_NAME: &'static str = "oci-credentials";

/// Mount path of the registry credentials inside `output-upload`.
pub const DOCKER_CONFIG_MOUNT_PATH: &'static str = "/docker-config";

/// How long a finished Job stays.
pub const TTL_SECONDS_AFTER_FINISHED: i32 = 3600;

/// How many pods of a Job may fail before the Job does.
pub const BACKOFF_LIMIT: i32 = 2;

/// CPU that `mikebom-scan` asks for.
pub const SCAN_CPU_REQUEST: &'static str = "100m";

/// Memory that `mikebom-scan` asks for.
pub const SCAN_MEMORY_REQUEST: &'static str = "128Mi";

/// Volume name for the persistent volume claim.
pub const PVC_VOLUME_NAME: &'static str = "pvc-output";

/// Mount path of the persistent volume claim inside `output-upload`.
pub const PVC_MOUNT_PATH: &'static str = "/pvc-output";

} // verus!
