//! Laws of the scan Job: how its containers work together.
use crate::crds::namespace_scan::{NamespaceScanSpec, OutputType, ScanFormat};
use crate::k8s::{ContainerView, JobView, KeyToPathView, VolumeView};
use crate::laws::text as text_laws;
use crate::scan_job::laws as job_laws;
use crate::scan_job::{self, BuildScanJobError};
use crate::text;
use vstd::prelude::*;

verus! {

/// An optional text that is there and is more than white space.
pub open spec fn is_given(s: Option<String>) -> bool {
    s matches Some(text) && text_laws::has_ink(text@)
}

/// Whether the output that a specification asks for is configured: a claim, or a bucket with
/// credentials, or a registry and a repository with credentials.
pub open spec fn output_is_configured(spec: NamespaceScanSpec) -> bool {
    match spec.output.backend_type {
        OutputType::Pvc => spec.output.pvc matches Some(pvc) && text_laws::has_ink(pvc.claim_name@),
        OutputType::S3 => spec.output.s3 matches Some(s3) && text_laws::has_ink(s3.bucket@)
            && is_given(s3.credentials_secret_name),
        OutputType::Oci => spec.output.oci matches Some(oci) && text_laws::has_ink(oci.registry@)
            && text_laws::has_ink(oci.repository@) && is_given(oci.credentials_secret_name),
    }
}

/// A Job is built exactly if there is an image of the scanner, an image to scan and the configuration
/// of the output that is asked for. What is missing is said in this order.
pub proof fn jobs_are_built_if_configured(
    spec: NamespaceScanSpec,
    cr_name: Seq<char>,
    image_ref: Seq<char>,
)
    ensures
        ({
            let r = scan_job::scan_job(spec, cr_name, image_ref);
            let scanner = text_laws::has_ink(spec.mikebom_image@);
            let image = text_laws::has_ink(image_ref);
            &&& r is Ok <==> scanner && image && output_is_configured(spec)
            &&& !scanner ==> r == Err::<JobView, _>(BuildScanJobError::EmptyMikebomImage)
            &&& scanner && !image ==> r == Err::<JobView, _>(BuildScanJobError::EmptyImageRef)
            &&& scanner && image && !output_is_configured(spec) ==> r == Err::<JobView, _>(
                match spec.output.backend_type {
                    OutputType::Pvc => BuildScanJobError::MissingPvcConfig,
                    OutputType::S3 => BuildScanJobError::MissingS3Config,
                    OutputType::Oci => BuildScanJobError::MissingOciConfig,
                },
            )
        }),
{
    text_laws::blank_texts_are_white_space(spec.mikebom_image@);
    text_laws::blank_texts_are_white_space(image_ref);
    if let Some(pvc) = spec.output.pvc {
        text_laws::blank_texts_are_white_space(pvc.claim_name@);
    }
    if let Some(s3) = spec.output.s3 {
        text_laws::blank_texts_are_white_space(s3.bucket@);
        if let Some(secret) = s3.credentials_secret_name {
            text_laws::blank_texts_are_white_space(secret@);
        }
    }
    if let Some(oci) = spec.output.oci {
        text_laws::blank_texts_are_white_space(oci.registry@);
        text_laws::blank_texts_are_white_space(oci.repository@);
        if let Some(secret) = oci.credentials_secret_name {
            text_laws::blank_texts_are_white_space(secret@);
        }
    }
}

/// The container of a built Job that pulls the image.
pub open spec fn pull_of(job: JobView) -> ContainerView {
    job_laws::pod_of(job).init_containers->0[0]
}

/// The container of a built Job that scans.
pub open spec fn scan_of(job: JobView) -> ContainerView {
    job_laws::pod_of(job).init_containers->0[1]
}

/// The container of a built Job that uploads.
pub open spec fn upload_of(job: JobView) -> ContainerView {
    job_laws::pod_of(job).containers[0]
}

/// A container that runs a script in a shell, and nothing else.
pub open spec fn runs_script(c: ContainerView, script: Seq<char>) -> bool {
    c.command == Some(seq!["sh"@, "-c"@, script]) && c.args is None
}

/// The one environment of a container: these variables with these values, in this order.
pub open spec fn has_environment(c: ContainerView, variables: Seq<(Seq<char>, Seq<char>)>) -> bool {
    c.env matches Some(env) && env.len() == variables.len() && forall|i: int|
        0 <= i < env.len() ==> {
            &&& (#[trigger] env[i]).name == variables[i].0
            &&& env[i].value == Some(variables[i].1)
        }
}

/// The directory to which the scan writes: what it names behind `--output` is a format, an equals
/// sign, this directory, and a file whose name is the hash and the extension of that format.
pub open spec fn writes_into(
    scan: ContainerView,
    format: ScanFormat,
    directory: Seq<char>,
    short_hash: Seq<char>,
) -> bool {
    let (name, file_extension) = match format {
        ScanFormat::CyclonedxJson => ("cyclonedx-json"@, ".cdx.json"@),
        ScanFormat::Spdx23Json => ("spdx-2.3-json"@, ".spdx.json"@),
        ScanFormat::Spdx3Json => ("spdx-3-json"@, ".spdx3.json"@),
    };
    &&& scan.args matches Some(args)
    &&& args.len() == 8
    &&& args[0] == "sbom"@
    &&& args[1] == "scan"@
    &&& args[2] == "--path"@
    &&& args[4] == "--format"@
    &&& args[5] == name
    &&& args[6] == "--output"@
    &&& args[7] == name + "="@ + directory + short_hash + file_extension
}

/// A path prefix as it goes into the environment: without one leading slash, and empty if there is
/// none.
pub open spec fn prefix_goes_in(path_prefix: Option<String>, value: Seq<char>) -> bool {
    match path_prefix {
        None => value.len() == 0,
        Some(prefix) => if prefix@.len() > 0 && prefix@[0] == '/' {
            prefix@ == seq!['/'] + value
        } else {
            prefix@ == value
        },
    }
}

/// What a shell makes of a word that ends with `${NAME:+/${NAME}}`: nothing of that end if the
/// variable is empty, and otherwise a slash and the value of the variable.
pub open spec fn in_shell(word: Seq<char>, name: Seq<char>, value: Seq<char>) -> Seq<char> {
    let end = "${"@ + name + ":+/${"@ + name + "}}"@;
    let front = word.take(word.len() - end.len());
    if word.len() < end.len() || word != front + end {
        word
    } else if value.len() == 0 {
        front
    } else {
        front + "/"@ + value
    }
}

/// The pull and the scan of a built Job go together: the image is extracted into the directory that
/// the scan reads, and the directory into which the scan writes is made before. The image that is
/// pulled is the one that was asked for, without white space around it.
pub proof fn pulled_image_is_scanned(
    spec: NamespaceScanSpec,
    cr_name: Seq<char>,
    image_ref: Seq<char>,
)
    requires
        scan_job::scan_job(spec, cr_name, image_ref) is Ok,
    ensures
        ({
            let job = scan_job::scan_job(spec, cr_name, image_ref)->Ok_0;
            let pull = pull_of(job);
            let scan = scan_of(job);
            let image = text::trimmed(image_ref);
            let read = scan.args->0[3];
            &&& runs_script(
                pull,
                "set -eu\nmkdir -p "@ + read + " /workdir/out\ncrane export \"$IMAGE_REF\" - | tar -x -C "@
                    + read,
            )
            &&& has_environment(pull, seq![("IMAGE_REF"@, image)])
            &&& pull.env_from is None
            &&& pull.resources is None
            &&& read == "/workdir/rootfs"@
            &&& writes_into(
                scan,
                spec.scan_format,
                "/workdir/out"@ + "/"@,
                scan_job::image_hash(image),
            )
            &&& scan.image == Some(text::trimmed(spec.mikebom_image@))
            &&& scan.command is None
            &&& scan.env is None
            &&& scan.env_from is None
            &&& scan.resources matches Some(resources)
            &&& resources.requests matches Some(requests)
            &&& requests == map!["cpu"@ => "100m"@, "memory"@ => "128Mi"@]
        }),
{
    let job = scan_job::scan_job(spec, cr_name, image_ref)->Ok_0;
    let image = text::trimmed(image_ref);
    let script = pull_of(job).command->0[2];
    reveal_strlit(
        "set -eu\nmkdir -p /workdir/rootfs /workdir/out\ncrane export \"$IMAGE_REF\" - | tar -x -C /workdir/rootfs",
    );
    reveal_strlit("set -eu\nmkdir -p ");
    reveal_strlit("/workdir/rootfs");
    reveal_strlit(" /workdir/out\ncrane export \"$IMAGE_REF\" - | tar -x -C ");
    assert(script =~= "set -eu\nmkdir -p "@ + "/workdir/rootfs"@
        + " /workdir/out\ncrane export \"$IMAGE_REF\" - | tar -x -C "@ + "/workdir/rootfs"@);
    lemma_output_argument(spec.scan_format, scan_job::image_hash(image));
}

proof fn lemma_output_argument(format: ScanFormat, short_hash: Seq<char>)
    ensures
        ({
            let (name, extension) = scan_job::format_args_of(format);
            let file_extension = match format {
                ScanFormat::CyclonedxJson => ".cdx.json"@,
                ScanFormat::Spdx23Json => ".spdx.json"@,
                ScanFormat::Spdx3Json => ".spdx3.json"@,
            };
            name + "=/workdir/out/"@ + short_hash + "."@ + extension == name + "="@ + (
            "/workdir/out"@ + "/"@) + short_hash + file_extension
        }),
{
    let (name, extension) = scan_job::format_args_of(format);
    reveal_strlit("=/workdir/out/");
    reveal_strlit("=");
    reveal_strlit("/workdir/out");
    reveal_strlit("/");
    reveal_strlit(".");
    reveal_strlit("cdx.json");
    reveal_strlit("spdx.json");
    reveal_strlit("spdx3.json");
    reveal_strlit(".cdx.json");
    reveal_strlit(".spdx.json");
    reveal_strlit(".spdx3.json");
    assert("=/workdir/out/"@ =~= "="@ + ("/workdir/out"@ + "/"@));
    let file_extension = match format {
        ScanFormat::CyclonedxJson => ".cdx.json"@,
        ScanFormat::Spdx23Json => ".spdx.json"@,
        ScanFormat::Spdx3Json => ".spdx3.json"@,
    };
    assert("."@ + extension =~= file_extension);
    assert(name + "=/workdir/out/"@ + short_hash + "."@ + extension =~= name + "="@ + (
    "/workdir/out"@ + "/"@) + short_hash + ("."@ + extension));
}

/// The upload to a persistent volume claim copies what the scan has written to the claim that is
/// asked for: one volume of the pod stands for that claim, the upload mounts it, and the directory to
/// which it copies is the one where the volume is mounted, followed by a slash and the path prefix if
/// that is not empty. It copies the files ending in `.json` of the directory into which the scan
/// writes.
pub proof fn pvc_upload_copies_into_the_claim(
    spec: NamespaceScanSpec,
    cr_name: Seq<char>,
    image_ref: Seq<char>,
    prefix: Seq<char>,
)
    requires
        scan_job::scan_job(spec, cr_name, image_ref) is Ok,
        spec.output.backend_type is Pvc,
        prefix_goes_in(spec.output.pvc->0.path_prefix, prefix),
    ensures
        ({
            let job = scan_job::scan_job(spec, cr_name, image_ref)->Ok_0;
            let volumes = job_laws::pod_of(job).volumes->0;
            let upload = upload_of(job);
            let mounts = upload.volume_mounts->0;
            let volume = volumes[1];
            let mount = mounts[1];
            let word = mount.mount_path + "${PATH_PREFIX:+/${PATH_PREFIX}}"@;
            let directory = "/workdir/out"@ + "/"@;
            &&& volumes.len() == 2
            &&& volume.persistent_volume_claim matches Some(claim)
            &&& claim.claim_name == spec.output.pvc->0.claim_name@
            &&& claim.read_only is None
            &&& volume.empty_dir is None
            &&& volume.secret is None
            &&& mounts.len() == 2
            &&& mount.name == volume.name
            &&& mount.name != mounts[0].name
            &&& mount.mount_path != mounts[0].mount_path
            &&& mount.read_only is None
            &&& has_environment(upload, seq![("PATH_PREFIX"@, prefix)])
            &&& in_shell(word, "PATH_PREFIX"@, prefix) == (if prefix.len() == 0 {
                mount.mount_path
            } else {
                mount.mount_path + "/"@ + prefix
            })
            &&& writes_into(
                scan_of(job),
                spec.scan_format,
                directory,
                scan_job::image_hash(text::trimmed(image_ref)),
            )
            &&& runs_script(
                upload,
                "set -eu\nDEST=\""@ + word + "\"\nmkdir -p \"$DEST\"\ncp "@ + directory
                    + "*.json \"$DEST/\""@,
            )
            &&& upload.env_from is None
        }),
{
    let job = scan_job::scan_job(spec, cr_name, image_ref)->Ok_0;
    let script = upload_of(job).command->0[2];
    let mount = upload_of(job).volume_mounts->0[1];
    pulled_image_is_scanned(spec, cr_name, image_ref);
    lemma_prefix(spec.output.pvc->0.path_prefix, prefix);
    reveal_strlit(
        "set -eu\nDEST=\"/pvc-output${PATH_PREFIX:+/${PATH_PREFIX}}\"\nmkdir -p \"$DEST\"\ncp /workdir/out/*.json \"$DEST/\"",
    );
    reveal_strlit("set -eu\nDEST=\"");
    reveal_strlit("/pvc-output");
    reveal_strlit("${PATH_PREFIX:+/${PATH_PREFIX}}");
    reveal_strlit("\"\nmkdir -p \"$DEST\"\ncp ");
    reveal_strlit("/workdir/out");
    reveal_strlit("/workdir");
    reveal_strlit("/");
    reveal_strlit("*.json \"$DEST/\"");
    reveal_strlit("workdir");
    reveal_strlit("pvc-output");
    assert(mount.mount_path.len() == 11 && "/workdir"@.len() == 8);
    assert(mount.name.len() == 10 && "workdir"@.len() == 7);
    let word = mount.mount_path + "${PATH_PREFIX:+/${PATH_PREFIX}}"@;
    assert(script =~= "set -eu\nDEST=\""@ + word + "\"\nmkdir -p \"$DEST\"\ncp "@ + (
    "/workdir/out"@ + "/"@) + "*.json \"$DEST/\""@);
    reveal_strlit("${");
    reveal_strlit("PATH_PREFIX");
    reveal_strlit(":+/${");
    reveal_strlit("}}");
    let end = "${"@ + "PATH_PREFIX"@ + ":+/${"@ + "PATH_PREFIX"@ + "}}"@;
    assert("${PATH_PREFIX:+/${PATH_PREFIX}}"@ =~= end);
    assert(word.take(word.len() - end.len()) =~= mount.mount_path);
}

proof fn lemma_prefix(path_prefix: Option<String>, value: Seq<char>)
    requires
        prefix_goes_in(path_prefix, value),
    ensures
        scan_job::prefix_value(path_prefix) == value,
{
    if let Some(prefix) = path_prefix {
        if prefix@.len() > 0 && prefix@[0] == '/' {
            assert((seq!['/'] + value).drop_first() =~= value);
        }
    } else {
        assert(value =~= Seq::empty());
    }
}

/// The upload to an S3 bucket copies the files ending in `.json` of the directory into which the
/// scan writes to the bucket that is asked for, under the path prefix if that is not empty, in the
/// region and with the credentials that are asked for. The Secret has to be there.
pub proof fn s3_upload_copies_into_the_bucket(
    spec: NamespaceScanSpec,
    cr_name: Seq<char>,
    image_ref: Seq<char>,
    prefix: Seq<char>,
)
    requires
        scan_job::scan_job(spec, cr_name, image_ref) is Ok,
        spec.output.backend_type is S3,
        prefix_goes_in(spec.output.s3->0.path_prefix, prefix),
    ensures
        ({
            let job = scan_job::scan_job(spec, cr_name, image_ref)->Ok_0;
            let s3 = spec.output.s3->0;
            let upload = upload_of(job);
            let directory = "/workdir/out"@ + "/"@;
            let word = "s3://$S3_BUCKET"@ + "${S3_PATH_PREFIX:+/${S3_PATH_PREFIX}}"@;
            &&& has_environment(
                upload,
                seq![
                    ("S3_BUCKET"@, s3.bucket@),
                    ("S3_PATH_PREFIX"@, prefix),
                    ("AWS_REGION"@, s3.region@),
                    ("AWS_DEFAULT_REGION"@, s3.region@),
                ],
            )
            &&& in_shell(word, "S3_PATH_PREFIX"@, prefix) == (if prefix.len() == 0 {
                "s3://$S3_BUCKET"@
            } else {
                "s3://$S3_BUCKET"@ + "/"@ + prefix
            })
            &&& writes_into(
                scan_of(job),
                spec.scan_format,
                directory,
                scan_job::image_hash(text::trimmed(image_ref)),
            )
            &&& runs_script(
                upload,
                "set -eu\nDEST=\""@ + word + "\"\naws s3 cp "@ + directory
                    + " \"$DEST/\" --recursive --exclude '*' --include '*.json'"@,
            )
            &&& upload.env_from matches Some(sources)
            &&& sources.len() == 1
            &&& sources[0].secret_ref matches Some(secret)
            &&& secret.name == s3.credentials_secret_name->0@
            &&& secret.optional == Some(false)
            &&& job_laws::pod_of(job).volumes->0.len() == 1
            &&& upload.volume_mounts->0.len() == 1
        }),
{
    let job = scan_job::scan_job(spec, cr_name, image_ref)->Ok_0;
    let script = upload_of(job).command->0[2];
    pulled_image_is_scanned(spec, cr_name, image_ref);
    lemma_prefix(spec.output.s3->0.path_prefix, prefix);
    reveal_strlit(
        "set -eu\nDEST=\"s3://$S3_BUCKET${S3_PATH_PREFIX:+/${S3_PATH_PREFIX}}\"\naws s3 cp /workdir/out/ \"$DEST/\" --recursive --exclude '*' --include '*.json'",
    );
    reveal_strlit("set -eu\nDEST=\"");
    reveal_strlit("s3://$S3_BUCKET");
    reveal_strlit("${S3_PATH_PREFIX:+/${S3_PATH_PREFIX}}");
    reveal_strlit("\"\naws s3 cp ");
    reveal_strlit("/workdir/out");
    reveal_strlit("/");
    reveal_strlit(" \"$DEST/\" --recursive --exclude '*' --include '*.json'");
    let word = "s3://$S3_BUCKET"@ + "${S3_PATH_PREFIX:+/${S3_PATH_PREFIX}}"@;
    assert(script =~= "set -eu\nDEST=\""@ + word + "\"\naws s3 cp "@ + ("/workdir/out"@ + "/"@)
        + " \"$DEST/\" --recursive --exclude '*' --include '*.json'"@);
    reveal_strlit("${");
    reveal_strlit("S3_PATH_PREFIX");
    reveal_strlit(":+/${");
    reveal_strlit("}}");
    let end = "${"@ + "S3_PATH_PREFIX"@ + ":+/${"@ + "S3_PATH_PREFIX"@ + "}}"@;
    assert("${S3_PATH_PREFIX:+/${S3_PATH_PREFIX}}"@ =~= end);
    assert(word.take(word.len() - end.len()) =~= "s3://$S3_BUCKET"@);
}

/// The upload to an OCI registry pushes the file that the scan has written to the repository that is
/// asked for, under the hash of the image as its tag. Its credentials are those of the Secret that is
/// asked for: one volume of the pod holds them, the upload mounts it, read-only, and is told where.
pub proof fn oci_upload_pushes_with_the_credentials(
    spec: NamespaceScanSpec,
    cr_name: Seq<char>,
    image_ref: Seq<char>,
)
    requires
        scan_job::scan_job(spec, cr_name, image_ref) is Ok,
        spec.output.backend_type is Oci,
    ensures
        ({
            let job = scan_job::scan_job(spec, cr_name, image_ref)->Ok_0;
            let oci = spec.output.oci->0;
            let upload = upload_of(job);
            let env = upload.env->0;
            let args = upload.args->0;
            let hash = scan_job::image_hash(text::trimmed(image_ref));
            let volumes = job_laws::pod_of(job).volumes->0;
            let mounts = upload.volume_mounts->0;
            let volume = volumes[1];
            let mount = mounts[1];
            &&& upload.command is None
            &&& args.len() == 3
            &&& job_laws::expanded(args[0], env) == "push"@
            &&& job_laws::expanded(args[1], env) == oci.registry@ + "/"@ + oci.repository@ + ":"@
                + hash
            &&& job_laws::expanded(args[2], env) == job_laws::after_equals(
                scan_of(job).args->0[7],
            ) + ":application/json"@
            &&& upload.env_from is None
            &&& volumes.len() == 2
            &&& volume.secret matches Some(secret)
            &&& secret.secret_name == Some(oci.credentials_secret_name->0@)
            &&& secret.items == Some(
                seq![KeyToPathView { key: ".dockerconfigjson"@, path: "config.json"@ }],
            )
            &&& volume.empty_dir is None
            &&& volume.persistent_volume_claim is None
            &&& mounts.len() == 2
            &&& mount.name == volume.name
            &&& mount.name != mounts[0].name
            &&& mount.mount_path != mounts[0].mount_path
            &&& mount.read_only == Some(true)
            &&& job_laws::env_value(env, "DOCKER_CONFIG"@) == Some(mount.mount_path)
        }),
{
    let job = scan_job::scan_job(spec, cr_name, image_ref)->Ok_0;
    let hash = scan_job::image_hash(text::trimmed(image_ref));
    let mount = upload_of(job).volume_mounts->0[1];
    job_laws::oci_upload_pushes_the_scanned_file(
        spec.output.oci->0,
        hash,
        spec.scan_format,
        text::trimmed(spec.mikebom_image@),
    );
    reveal_strlit("/workdir");
    reveal_strlit("/docker-config");
    reveal_strlit("workdir");
    reveal_strlit("oci-credentials");
    assert(mount.mount_path.len() == 14 && "/workdir"@.len() == 8);
    assert(mount.name.len() == 15 && "workdir"@.len() == 7);
}

/// Every container of a built Job mounts the scratch volume, which is the first of the pod, at
/// `/workdir`, writably; and what else it mounts is a volume of the pod. Nothing else is in the pod.
pub proof fn mounts_are_volumes_of_the_pod(
    spec: NamespaceScanSpec,
    cr_name: Seq<char>,
    image_ref: Seq<char>,
)
    requires
        scan_job::scan_job(spec, cr_name, image_ref) is Ok,
    ensures
        ({
            let job = scan_job::scan_job(spec, cr_name, image_ref)->Ok_0;
            let pod = job_laws::pod_of(job);
            let volumes = pod.volumes->0;
            &&& pod.init_containers->0.len() == 2
            &&& pod.containers.len() == 1
            &&& pod.ephemeral_containers is None
            &&& volumes.len() > 0
            &&& volumes[0].empty_dir is Some
            &&& volumes[0].persistent_volume_claim is None
            &&& volumes[0].secret is None
            &&& mounts_volumes(pull_of(job), volumes)
            &&& mounts_volumes(scan_of(job), volumes)
            &&& mounts_volumes(upload_of(job), volumes)
            &&& pull_of(job).volume_mounts->0.len() == 1
            &&& scan_of(job).volume_mounts->0.len() == 1
            &&& upload_of(job).volume_mounts->0.len() == volumes.len()
        }),
{
}

/// A container that mounts volumes in their order, the first of them at `/workdir`.
pub open spec fn mounts_volumes(c: ContainerView, volumes: Seq<VolumeView>) -> bool {
    c.volume_mounts matches Some(mounts) && 0 < mounts.len() <= volumes.len()
        && mounts[0].mount_path == "/workdir"@ && mounts[0].read_only is None && forall|i: int|
        0 <= i < mounts.len() ==> (#[trigger] mounts[i]).name == volumes[i].name
}

/// The images of the containers are pinned to digests. The one of the scan is that of the
/// specification.
pub proof fn images_are_pinned(spec: NamespaceScanSpec, cr_name: Seq<char>, image_ref: Seq<char>)
    requires
        scan_job::scan_job(spec, cr_name, image_ref) is Ok,
    ensures
        ({
            let job = scan_job::scan_job(spec, cr_name, image_ref)->Ok_0;
            &&& pull_of(job).image == Some(
                "gcr.io/go-containerregistry/crane@sha256:1b1fb24d2b1bb27a9daf81a588157e68463876904e8e537a812edba6284fb252"@,
            )
            &&& scan_of(job).image == Some(text::trimmed(spec.mikebom_image@))
            &&& upload_of(job).image == Some(
                match spec.output.backend_type {
                    OutputType::Pvc =>
                        "cgr.dev/chainguard/busybox@sha256:accc5c911abaf2f70487f93cad07b0891d502cbba7e79f96d1db9074ef40928a"@,
                    OutputType::S3 =>
                        "public.ecr.aws/aws-cli/aws-cli@sha256:749bfaf91d690b9a1768083822d620f96c19defdf9ca2dc227eb3695281fda5b"@,
                    OutputType::Oci =>
                        "ghcr.io/oras-project/oras@sha256:0087224dd0decc354b5b0689068fbbc40cd5dc3dbf65fcb3868dfbd363dc790b"@,
                },
            )
        }),
{
}

/// A built Job runs one pod, once, gives up after the third pod has failed and is removed an hour
/// after it has finished. Its containers are never restarted. It has no status yet.
pub proof fn jobs_run_once(spec: NamespaceScanSpec, cr_name: Seq<char>, image_ref: Seq<char>)
    requires
        scan_job::scan_job(spec, cr_name, image_ref) is Ok,
    ensures
        ({
            let job = scan_job::scan_job(spec, cr_name, image_ref)->Ok_0;
            &&& job.spec->0.completions == Some(1i32)
            &&& job.spec->0.parallelism == Some(1i32)
            &&& job.spec->0.backoff_limit == Some(2i32)
            &&& job.spec->0.ttl_seconds_after_finished == Some(3600i32)
            &&& job_laws::pod_of(job).restart_policy == Some("Never"@)
            &&& job.status is None
        }),
{
}

/// A built Job and its pod have the same labels: two that are always the same, the name of the
/// resource as it is, and the hash of the image without white space around it.
pub proof fn jobs_are_labelled(spec: NamespaceScanSpec, cr_name: Seq<char>, image_ref: Seq<char>)
    requires
        scan_job::scan_job(spec, cr_name, image_ref) is Ok,
    ensures
        ({
            let job = scan_job::scan_job(spec, cr_name, image_ref)->Ok_0;
            let labels = job.metadata.labels->0;
            let hash = scan_job::image_hash(text::trimmed(image_ref));
            &&& job.metadata.labels is Some
            &&& job.spec->0.template.metadata->0.labels == Some(labels)
            &&& labels["app.kubernetes.io/name"@] == "mikebom-operator"@
            &&& labels["app.kubernetes.io/component"@] == "scan-job"@
            &&& labels["kusari.dev/namespace-scan"@] == cr_name
            &&& labels["kusari.dev/image-ref-hash"@] == hash
            &&& labels.dom() == set![
                "app.kubernetes.io/name"@,
                "app.kubernetes.io/component"@,
                "kusari.dev/namespace-scan"@,
                "kusari.dev/image-ref-hash"@,
            ]
            &&& job.metadata.name == Some(scan_job::scan_job_name(cr_name, hash))
            &&& job.metadata.namespace is None
            &&& job.metadata.owner_references is None
        }),
{
    reveal_strlit("app.kubernetes.io/name");
    reveal_strlit("app.kubernetes.io/component");
    reveal_strlit("kusari.dev/namespace-scan");
    reveal_strlit("kusari.dev/image-ref-hash");
    assert("app.kubernetes.io/name"@.len() == 22);
    assert("app.kubernetes.io/component"@.len() == 27);
    assert("kusari.dev/namespace-scan"@.len() == 25);
    assert("kusari.dev/image-ref-hash"@.len() == 25);
    assert("kusari.dev/namespace-scan"@[11] == 'n');
    assert("kusari.dev/image-ref-hash"@[11] == 'i');
}

} // verus!
