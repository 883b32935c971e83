//! Builder of the three-container scan Job.
//!
//! The containers share an `emptyDir` mounted at `/workdir`:
//!
//! 1. `init-pull` extracts the image into `/workdir/rootfs`;
//! 2. `mikebom-scan` writes the SBOM to `/workdir/out`;
//! 3. `output-upload` copies the SBOM to a volume, an S3 bucket or an OCI registry.
use crate::crds::namespace_scan::{
    NamespaceScanSpec, OciOutput, OutputType, PvcOutput, S3Output, ScanFormat,
};
use crate::digest::{self, sha256_digest};
use crate::k8s::{
    Container, ContainerView, EmptyDirVolumeSource, EmptyDirVolumeSourceView, EnvFromSource,
    EnvFromSourceView, EnvVar, EnvVarView, Job, JobSpec, JobSpecView, JobView, KeyToPath,
    KeyToPathView, ObjectMeta, ObjectMetaView, PersistentVolumeClaimVolumeSource,
    PersistentVolumeClaimVolumeSourceView, PodSpec, PodSpecView, PodTemplateSpec,
    PodTemplateSpecView, ResourceRequirements, ResourceRequirementsView, SecretEnvSource,
    SecretEnvSourceView, SecretVolumeSource, SecretVolumeSourceView, Volume, VolumeMount,
    VolumeMountView, VolumeView,
};
use crate::text;
use crate::text_map::TextMap;
use crate::view;
use vstd::prelude::*;
use vstd::string::{StrSliceExecFns, StringExecFns};

pub mod defaults;
pub mod laws;

verus! {

/// Why no Job can be built.
#[derive(Debug, PartialEq, Eq)]
#[non_exhaustive]
pub enum BuildScanJobError {
    EmptyMikebomImage,
    EmptyImageRef,
    MissingPvcConfig,
    MissingS3Config,
    MissingOciConfig,
}

impl DeepView for BuildScanJobError {
    type V = BuildScanJobError;

    open spec fn deep_view(&self) -> BuildScanJobError {
        *self
    }
}

impl BuildScanJobError {
    /// What the error says.
    pub open spec fn text(self) -> Seq<char> {
        match self {
            BuildScanJobError::EmptyMikebomImage => "spec.mikebomImage is empty or whitespace-only"@,
            BuildScanJobError::EmptyImageRef => "image_ref is empty or whitespace-only"@,
            BuildScanJobError::MissingPvcConfig => "spec.output.type=Pvc requires spec.output.pvc.claimName to be non-empty"@,
            BuildScanJobError::MissingS3Config => "spec.output.type=S3 requires spec.output.s3 with non-empty bucket and credentialsSecretName"@,
            BuildScanJobError::MissingOciConfig => "spec.output.type=Oci requires spec.output.oci with non-empty registry, repository, and credentialsSecretName"@,
        }
    }

    /// What the error says.
    pub fn message(&self) -> (r: String)
        ensures
            r@ == self.text(),
    {
        match self {
            BuildScanJobError::EmptyMikebomImage =>
                "spec.mikebomImage is empty or whitespace-only".to_owned(),
            BuildScanJobError::EmptyImageRef => "image_ref is empty or whitespace-only".to_owned(),
            BuildScanJobError::MissingPvcConfig =>
                "spec.output.type=Pvc requires spec.output.pvc.claimName to be non-empty".to_owned(),
            BuildScanJobError::MissingS3Config =>
                "spec.output.type=S3 requires spec.output.s3 with non-empty bucket and credentialsSecretName".to_owned(),
            BuildScanJobError::MissingOciConfig =>
                "spec.output.type=Oci requires spec.output.oci with non-empty registry, repository, and credentialsSecretName".to_owned(),
        }
    }
}

// ---------------------------------------------------------------------------------------------
// Names.
// ---------------------------------------------------------------------------------------------

/// The digit of a hexadecimal number.
pub open spec fn hex_char(n: int) -> char {
    (if n < 10 { 48 + n } else { 87 + n }) as char
}

/// The first seven hexadecimal digits of a digest.
pub open spec fn hex7(digest: Seq<u8>) -> Seq<char> {
    Seq::new(
        7,
        |i: int|
            hex_char(
                if i % 2 == 0 {
                    digest[i / 2] as int / 16
                } else {
                    digest[i / 2] as int % 16
                },
            ),
    )
}

/// The short hash of an image reference: the first seven hexadecimal digits of its SHA-256.
pub open spec fn image_hash(image_ref: Seq<char>) -> Seq<char> {
    hex7(digest::text_sha256(image_ref))
}

fn hex_digit(n: u8) -> (r: char)
    requires
        n < 16,
    ensures
        r == hex_char(n as int),
{
    if n < 10 {
        (48 + n) as char
    } else {
        (87 + n) as char
    }
}

/// The first seven hexadecimal digits of a digest.
pub fn hex_prefix(digest: &[u8]) -> (r: String)
    requires
        digest@.len() >= 4,
    ensures
        r@ == hex7(digest@),
{
    let mut out = String::new();
    let mut i: usize = 0;
    while i < 7
        invariant
            i <= 7,
            digest@.len() >= 4,
            out@ == hex7(digest@).take(i as int),
        decreases 7 - i,
    {
        let byte = digest[i / 2];
        let digit: u8 = if i % 2 == 0 {
            byte / 16
        } else {
            byte % 16
        };
        out.push(hex_digit(digit));
        assert(out@ =~= hex7(digest@).take(i + 1));
        i += 1;
    }
    assert(out@ =~= hex7(digest@));
    out
}

/// Seven-digit prefix of the SHA-256 of an image reference. It makes Job names unique without
/// putting the reference into them.
pub fn short_image_hash(image_ref: &str) -> (r: String)
    ensures
        r@ == image_hash(image_ref@),
{
    let digest = sha256_digest(image_ref.as_bytes());
    hex_prefix(digest.as_slice())
}

/// The character that stands for `c` in a name: lower-case letters, digits, and otherwise `-`.
pub open spec fn dns_char(c: char) -> char {
    if 'A' <= c <= 'Z' {
        (c as int + 32) as char
    } else if 'a' <= c <= 'z' || '0' <= c <= '9' {
        c
    } else {
        '-'
    }
}

/// `s` with every character replaced by the one that stands for it, and with runs of `-` made one.
pub open spec fn collapsed(s: Seq<char>) -> Seq<char>
    decreases s.len(),
{
    if s.len() == 0 {
        Seq::empty()
    } else {
        let front = collapsed(s.drop_last());
        let c = dns_char(s.last());
        if c == '-' && (front.len() == 0 || front.last() == '-') {
            front
        } else {
            front.push(c)
        }
    }
}

/// `s` without the `-` at its end.
pub open spec fn without_trailing_hyphens(s: Seq<char>) -> Seq<char>
    decreases s.len(),
{
    if s.len() > 0 && s.last() == '-' {
        without_trailing_hyphens(s.drop_last())
    } else {
        s
    }
}

/// `s` as a part of a DNS-1123 name.
pub open spec fn sanitized(s: Seq<char>) -> Seq<char> {
    without_trailing_hyphens(collapsed(s))
}

/// The longest part of a Job name that stands for the resource: what is left of 63 characters
/// after `nsscan-` and a hyphen with the hash.
pub const MAX_SANITIZED_LEN: usize = 48;

/// The name of the Job for a resource and a short hash.
pub open spec fn scan_job_name(cr_name: Seq<char>, short_hash: Seq<char>) -> Seq<char> {
    let part = sanitized(cr_name);
    let kept = if part.len() > MAX_SANITIZED_LEN {
        part.take(MAX_SANITIZED_LEN as int)
    } else {
        part
    };
    "nsscan-"@ + without_trailing_hyphens(kept) + "-"@ + short_hash
}

fn dns_mapped(c: char) -> (r: char)
    ensures
        r == dns_char(c),
{
    if 'A' <= c && c <= 'Z' {
        (c as u8 + 32) as char
    } else if ('a' <= c && c <= 'z') || ('0' <= c && c <= '9') {
        c
    } else {
        '-'
    }
}

/// A collapsed text has no `-` at its front and never two in a row, so that at most one is left at
/// its end.
proof fn lemma_collapsed(s: Seq<char>)
    ensures
        collapsed(s).len() > 0 ==> collapsed(s).first() != '-',
        forall|i: int|
            0 <= i < collapsed(s).len() ==> collapsed(s)[i] == dns_char(
                #[trigger] collapsed(s)[i],
            ),
        forall|i: int|
            0 <= i < collapsed(s).len() - 1 && #[trigger] collapsed(s)[i] == '-'
                ==> collapsed(s)[i + 1] != '-',
    decreases s.len(),
{
    if s.len() > 0 {
        lemma_collapsed(s.drop_last());
    }
}

/// Replaces characters other than `[a-z0-9-]` with `-`, in lower case, makes runs of `-` one and
/// strips them at both ends.
pub fn sanitize_dns1123(s: &str) -> (r: String)
    ensures
        r@ == sanitized(s@),
{
    let n = s.unicode_len();
    let mut out = String::new();
    let mut pending = false;
    let mut i: usize = 0;
    while i < n
        invariant
            n == s@.len(),
            i <= n,
            pending == (collapsed(s@.take(i as int)).len() > 0 && collapsed(
                s@.take(i as int),
            ).last() == '-'),
            out@ == without_trailing_hyphens(collapsed(s@.take(i as int))),
            pending ==> collapsed(s@.take(i as int)) == out@.push('-') && out@.len() > 0,
            !pending ==> collapsed(s@.take(i as int)) == out@,
        decreases n - i,
    {
        let mapped = dns_mapped(s.get_char(i));
        proof {
            assert(s@.take(i + 1).drop_last() =~= s@.take(i as int));
            assert(s@.take(i + 1).last() == s@[i as int]);
            lemma_collapsed(s@.take(i as int));
            lemma_collapsed(s@.take(i + 1));
        }
        let ghost before = out@;
        if mapped == '-' {
            if out.as_str().unicode_len() > 0 {
                pending = true;
            }
            proof {
                if before.len() > 0 {
                    assert(collapsed(s@.take(i + 1)) =~= before.push('-'));
                    assert(collapsed(s@.take(i + 1)).drop_last() =~= before);
                    assert(before.last() != '-');
                }
            }
        } else {
            if pending {
                out.push('-');
            }
            out.push(mapped);
            pending = false;
        }
        i += 1;
    }
    assert(s@.take(n as int) =~= s@);
    out
}

/// `nsscan-<sanitized name>-<hash>`, where the part in the middle is cut so that a hash of seven
/// characters makes at most 63.
pub fn job_name(cr_name: &str, short_hash: &str) -> (r: String)
    ensures
        r@ == scan_job_name(cr_name@, short_hash@),
{
    let part = sanitize_dns1123(cr_name);
    let mut keep = part.as_str().unicode_len();
    if keep > MAX_SANITIZED_LEN {
        keep = MAX_SANITIZED_LEN;
    }
    let ghost kept = part@.take(keep as int);
    assert(part@.take(part@.len() as int) =~= part@);
    while keep > 0 && part.as_str().get_char(keep - 1) == '-'
        invariant
            keep <= part@.len(),
            without_trailing_hyphens(part@.take(keep as int)) == without_trailing_hyphens(kept),
        decreases keep,
    {
        assert(part@.take(keep as int).drop_last() =~= part@.take(keep - 1));
        keep -= 1;
    }
    let mut name = "nsscan-".to_owned();
    name.append(part.as_str().substring_char(0, keep));
    name.append("-");
    name.append(short_hash);
    name
}

// ---------------------------------------------------------------------------------------------
// Containers and volumes.
// ---------------------------------------------------------------------------------------------

/// The arguments for a format: its name, and the extension of its files.
pub open spec fn format_args_of(format: ScanFormat) -> (Seq<char>, Seq<char>) {
    match format {
        ScanFormat::CyclonedxJson => ("cyclonedx-json"@, "cdx.json"@),
        ScanFormat::Spdx23Json => ("spdx-2.3-json"@, "spdx.json"@),
        ScanFormat::Spdx3Json => ("spdx-3-json"@, "spdx3.json"@),
    }
}

/// The arguments for a format: its name, and the extension of its files.
pub fn scan_format_args(format: &ScanFormat) -> (r: (&'static str, &'static str))
    ensures
        (r.0@, r.1@) == format_args_of(*format),
{
    match format {
        ScanFormat::CyclonedxJson => ("cyclonedx-json", "cdx.json"),
        ScanFormat::Spdx23Json => ("spdx-2.3-json", "spdx.json"),
        ScanFormat::Spdx3Json => ("spdx-3-json", "spdx3.json"),
    }
}

/// `s` without one leading `/`.
pub open spec fn without_leading_slash(s: Seq<char>) -> Seq<char> {
    if s.len() > 0 && s.first() == '/' {
        s.drop_first()
    } else {
        s
    }
}

/// Strips a single leading `/`: `"team-a"` stays `"team-a"`, `"/team-a"` becomes `"team-a"`, and
/// `"//team-a"` becomes `"/team-a"`.
pub fn strip_leading_slash(s: &str) -> (r: &str)
    ensures
        r@ == without_leading_slash(s@),
{
    let n = s.unicode_len();
    if n > 0 && s.get_char(0) == '/' {
        assert(s@.subrange(1, n as int) =~= s@.drop_first());
        s.substring_char(1, n)
    } else {
        s
    }
}

/// The value of a path prefix: without a leading `/`, and empty if it is absent.
pub open spec fn prefix_value(path_prefix: Option<String>) -> Seq<char> {
    match path_prefix {
        Some(prefix) => without_leading_slash(prefix@),
        None => Seq::empty(),
    }
}

fn prefix_text(path_prefix: &Option<String>) -> (r: String)
    ensures
        r@ == prefix_value(*path_prefix),
{
    match path_prefix {
        Some(prefix) => strip_leading_slash(prefix.as_str()).to_owned(),
        None => String::new(),
    }
}

/// An environment variable with a literal value.
pub open spec fn env_var(name: Seq<char>, value: Seq<char>) -> EnvVarView {
    EnvVarView { name, value: Some(value) }
}

fn make_env_var(name: &str, value: &str) -> (r: EnvVar)
    ensures
        r.deep_view() == env_var(name@, value@),
{
    EnvVar { name: name.to_owned(), value: Some(value.to_owned()) }
}

/// A mount that does not say whether it can be written to.
pub open spec fn plain_mount(name: Seq<char>, path: Seq<char>) -> VolumeMountView {
    VolumeMountView { name, mount_path: path, read_only: None }
}

/// The scratch volume that the containers share.
pub open spec fn workdir_volume_view() -> VolumeView {
    VolumeView {
        name: "workdir"@,
        empty_dir: Some(EmptyDirVolumeSourceView {  }),
        persistent_volume_claim: None,
        secret: None,
    }
}

fn workdir_volume() -> (r: Volume)
    ensures
        r.deep_view() == workdir_volume_view(),
{
    Volume {
        name: "workdir".to_owned(),
        empty_dir: Some(EmptyDirVolumeSource {  }),
        persistent_volume_claim: None,
        secret: None,
    }
}

fn workdir_mount() -> (r: VolumeMount)
    ensures
        r.deep_view() == plain_mount("workdir"@, "/workdir"@),
{
    VolumeMount {
        name: "workdir".to_owned(),
        mount_path: "/workdir".to_owned(),
        read_only: None,
    }
}

/// The first container: it extracts the image.
pub open spec fn init_pull_container(image_ref: Seq<char>) -> ContainerView {
    ContainerView {
        name: "init-pull"@,
        image: Some(defaults::INIT_PULL_IMAGE@),
        command: Some(
            seq![
                "sh"@,
                "-c"@,
                "set -eu\nmkdir -p /workdir/rootfs /workdir/out\ncrane export \"$IMAGE_REF\" - | tar -x -C /workdir/rootfs"@,
            ],
        ),
        args: None,
        env: Some(seq![env_var("IMAGE_REF"@, image_ref)]),
        env_from: None,
        resources: None,
        volume_mounts: Some(seq![plain_mount("workdir"@, "/workdir"@)]),
    }
}

fn build_init_pull_container(image_ref: &str) -> (r: Container)
    ensures
        r.deep_view() == init_pull_container(image_ref@),
{
    // `crane export` composes the layers of the image, whiteouts included, into one flat archive.
    let script = "set -eu\nmkdir -p /workdir/rootfs /workdir/out\ncrane export \"$IMAGE_REF\" - | tar -x -C /workdir/rootfs";
    let r = Container {
        name: "init-pull".to_owned(),
        image: Some(defaults::INIT_PULL_IMAGE.to_owned()),
        command: Some(vec!["sh".to_owned(), "-c".to_owned(), script.to_owned()]),
        args: None,
        env: Some(vec![make_env_var("IMAGE_REF", image_ref)]),
        env_from: None,
        resources: None,
        volume_mounts: Some(vec![workdir_mount()]),
    };
    assert(r.deep_view() =~~= init_pull_container(image_ref@));
    r
}

/// The resources that the scan asks for.
pub open spec fn scan_requests() -> Map<Seq<char>, Seq<char>> {
    map![
        "cpu"@ => defaults::SCAN_CPU_REQUEST@,
        "memory"@ => defaults::SCAN_MEMORY_REQUEST@,
    ]
}

/// The second container: it scans what was extracted.
pub open spec fn mikebom_scan_container(
    format: ScanFormat,
    short_hash: Seq<char>,
    mikebom_image: Seq<char>,
) -> ContainerView {
    let (format_arg, extension) = format_args_of(format);
    ContainerView {
        name: "mikebom-scan"@,
        image: Some(mikebom_image),
        command: None,
        args: Some(
            seq![
                "sbom"@,
                "scan"@,
                "--path"@,
                "/workdir/rootfs"@,
                "--format"@,
                format_arg,
                "--output"@,
                format_arg + "=/workdir/out/"@ + short_hash + "."@ + extension,
            ],
        ),
        env: None,
        env_from: None,
        resources: Some(ResourceRequirementsView { requests: Some(scan_requests()) }),
        volume_mounts: Some(seq![plain_mount("workdir"@, "/workdir"@)]),
    }
}

fn build_mikebom_scan_container(
    spec: &NamespaceScanSpec,
    short_hash: &str,
    mikebom_image: &str,
) -> (r: Container)
    ensures
        r.deep_view() == mikebom_scan_container(spec.scan_format, short_hash@, mikebom_image@),
{
    let (format_arg, extension) = scan_format_args(&spec.scan_format);
    let mut output_arg = format_arg.to_owned();
    output_arg.append("=/workdir/out/");
    output_arg.append(short_hash);
    output_arg.append(".");
    output_arg.append(extension);
    let args = vec![
        "sbom".to_owned(),
        "scan".to_owned(),
        "--path".to_owned(),
        "/workdir/rootfs".to_owned(),
        "--format".to_owned(),
        format_arg.to_owned(),
        "--output".to_owned(),
        output_arg,
    ];
    let mut requests: TextMap<String> = TextMap::new();
    requests.insert("cpu".to_owned(), defaults::SCAN_CPU_REQUEST.to_owned());
    requests.insert("memory".to_owned(), defaults::SCAN_MEMORY_REQUEST.to_owned());
    assert(requests.deep_view() =~= scan_requests());
    let r = Container {
        name: "mikebom-scan".to_owned(),
        image: Some(mikebom_image.to_owned()),
        command: None,
        args: Some(args),
        env: None,
        env_from: None,
        resources: Some(ResourceRequirements { requests: Some(requests) }),
        volume_mounts: Some(vec![workdir_mount()]),
    };
    assert(r.deep_view() =~~= mikebom_scan_container(
        spec.scan_format,
        short_hash@,
        mikebom_image@,
    ));
    r
}

/// The volume behind the claim that the resource names.
pub open spec fn pvc_output_volume_view(claim_name: Seq<char>) -> VolumeView {
    VolumeView {
        name: defaults::PVC_VOLUME_NAME@,
        empty_dir: None,
        persistent_volume_claim: Some(
            PersistentVolumeClaimVolumeSourceView { claim_name, read_only: None },
        ),
        secret: None,
    }
}

fn pvc_output_volume(claim_name: &str) -> (r: Volume)
    ensures
        r.deep_view() == pvc_output_volume_view(claim_name@),
{
    Volume {
        name: defaults::PVC_VOLUME_NAME.to_owned(),
        empty_dir: None,
        persistent_volume_claim: Some(
            PersistentVolumeClaimVolumeSource {
                claim_name: claim_name.to_owned(),
                read_only: None,
            },
        ),
        secret: None,
    }
}

fn pvc_output_mount() -> (r: VolumeMount)
    ensures
        r.deep_view() == plain_mount(defaults::PVC_VOLUME_NAME@, defaults::PVC_MOUNT_PATH@),
{
    VolumeMount {
        name: defaults::PVC_VOLUME_NAME.to_owned(),
        mount_path: defaults::PVC_MOUNT_PATH.to_owned(),
        read_only: None,
    }
}

/// The third container for a persistent volume claim: it copies the SBOMs into the volume, under
/// the path prefix if there is one.
pub open spec fn pvc_upload_container(pvc: PvcOutput) -> ContainerView {
    ContainerView {
        name: "output-upload"@,
        image: Some(defaults::PVC_UPLOAD_IMAGE@),
        command: Some(
            seq![
                "sh"@,
                "-c"@,
                "set -eu\nDEST=\"/pvc-output${PATH_PREFIX:+/${PATH_PREFIX}}\"\nmkdir -p \"$DEST\"\ncp /workdir/out/*.json \"$DEST/\""@,
            ],
        ),
        args: None,
        env: Some(seq![env_var("PATH_PREFIX"@, prefix_value(pvc.path_prefix))]),
        env_from: None,
        resources: None,
        volume_mounts: Some(
            seq![
                plain_mount("workdir"@, "/workdir"@),
                plain_mount(defaults::PVC_VOLUME_NAME@, defaults::PVC_MOUNT_PATH@),
            ],
        ),
    }
}

fn build_output_upload_pvc_container(pvc: &PvcOutput) -> (r: Container)
    ensures
        r.deep_view() == pvc_upload_container(*pvc),
{
    let path_prefix = prefix_text(&pvc.path_prefix);
    // `${PATH_PREFIX:+/${PATH_PREFIX}}` is `/<value>` if PATH_PREFIX is not empty, else nothing.
    let script = "set -eu\nDEST=\"/pvc-output${PATH_PREFIX:+/${PATH_PREFIX}}\"\nmkdir -p \"$DEST\"\ncp /workdir/out/*.json \"$DEST/\"";
    let r = Container {
        name: "output-upload".to_owned(),
        image: Some(defaults::PVC_UPLOAD_IMAGE.to_owned()),
        command: Some(vec!["sh".to_owned(), "-c".to_owned(), script.to_owned()]),
        args: None,
        env: Some(vec![make_env_var("PATH_PREFIX", path_prefix.as_str())]),
        env_from: None,
        resources: None,
        volume_mounts: Some(vec![workdir_mount(), pvc_output_mount()]),
    };
    assert(r.deep_view() =~~= pvc_upload_container(*pvc));
    r
}

/// The third container for an S3 bucket: it copies the SBOMs with `aws s3 cp`. Credentials come
/// from the named Secret, as environment variables.
pub open spec fn s3_upload_container(s3: S3Output, secret: Seq<char>) -> ContainerView {
    ContainerView {
        name: "output-upload"@,
        image: Some(defaults::S3_UPLOAD_IMAGE@),
        command: Some(
            seq![
                "sh"@,
                "-c"@,
                "set -eu\nDEST=\"s3://$S3_BUCKET${S3_PATH_PREFIX:+/${S3_PATH_PREFIX}}\"\naws s3 cp /workdir/out/ \"$DEST/\" --recursive --exclude '*' --include '*.json'"@,
            ],
        ),
        args: None,
        env: Some(
            seq![
                env_var("S3_BUCKET"@, s3.bucket@),
                env_var("S3_PATH_PREFIX"@, prefix_value(s3.path_prefix)),
                env_var("AWS_REGION"@, s3.region@),
                env_var("AWS_DEFAULT_REGION"@, s3.region@),
            ],
        ),
        env_from: Some(
            seq![
                EnvFromSourceView {
                    secret_ref: Some(
                        SecretEnvSourceView { name: secret, optional: Some(false) },
                    ),
                },
            ],
        ),
        resources: None,
        volume_mounts: Some(seq![plain_mount("workdir"@, "/workdir"@)]),
    }
}

fn build_output_upload_s3_container(s3: &S3Output, secret: &str) -> (r: Container)
    ensures
        r.deep_view() == s3_upload_container(*s3, secret@),
{
    let path_prefix = prefix_text(&s3.path_prefix);
    let script = "set -eu\nDEST=\"s3://$S3_BUCKET${S3_PATH_PREFIX:+/${S3_PATH_PREFIX}}\"\naws s3 cp /workdir/out/ \"$DEST/\" --recursive --exclude '*' --include '*.json'";
    let r = Container {
        name: "output-upload".to_owned(),
        image: Some(defaults::S3_UPLOAD_IMAGE.to_owned()),
        command: Some(vec!["sh".to_owned(), "-c".to_owned(), script.to_owned()]),
        args: None,
        env: Some(
            vec![
                make_env_var("S3_BUCKET", s3.bucket.as_str()),
                make_env_var("S3_PATH_PREFIX", path_prefix.as_str()),
                make_env_var("AWS_REGION", s3.region.as_str()),
                make_env_var("AWS_DEFAULT_REGION", s3.region.as_str()),
            ],
        ),
        env_from: Some(
            vec![
                EnvFromSource {
                    secret_ref: Some(
                        SecretEnvSource { name: secret.to_owned(), optional: Some(false) },
                    ),
                },
            ],
        ),
        resources: None,
        volume_mounts: Some(vec![workdir_mount()]),
    };
    assert(r.deep_view() =~~= s3_upload_container(*s3, secret@));
    r
}

/// The volume of the registry credentials: the entry `.dockerconfigjson` of a Secret, as the file
/// `config.json`.
pub open spec fn oci_credentials_volume_view(secret: Seq<char>) -> VolumeView {
    VolumeView {
        name: defaults::DOCKER_CONFIG_VOLUME_NAME@,
        empty_dir: None,
        persistent_volume_claim: None,
        secret: Some(
            SecretVolumeSourceView {
                secret_name: Some(secret),
                items: Some(
                    seq![
                        KeyToPathView {
                            key: ".dockerconfigjson"@,
                            path: "config.json"@,
                        },
                    ],
                ),
            },
        ),
    }
}

fn oci_credentials_volume(secret_name: &str) -> (r: Volume)
    ensures
        r.deep_view() == oci_credentials_volume_view(secret_name@),
{
    let r = Volume {
        name: defaults::DOCKER_CONFIG_VOLUME_NAME.to_owned(),
        empty_dir: None,
        persistent_volume_claim: None,
        secret: Some(
            SecretVolumeSource {
                secret_name: Some(secret_name.to_owned()),
                items: Some(
                    vec![
                        KeyToPath {
                            key: ".dockerconfigjson".to_owned(),
                            path: "config.json".to_owned(),
                        },
                    ],
                ),
            },
        ),
    };
    assert(r.deep_view() =~~= oci_credentials_volume_view(secret_name@));
    r
}

/// The read-only mount of the registry credentials.
pub open spec fn oci_credentials_mount_view() -> VolumeMountView {
    VolumeMountView {
        name: defaults::DOCKER_CONFIG_VOLUME_NAME@,
        mount_path: defaults::DOCKER_CONFIG_MOUNT_PATH@,
        read_only: Some(true),
    }
}

fn oci_credentials_mount() -> (r: VolumeMount)
    ensures
        r.deep_view() == oci_credentials_mount_view(),
{
    VolumeMount {
        name: defaults::DOCKER_CONFIG_VOLUME_NAME.to_owned(),
        mount_path: defaults::DOCKER_CONFIG_MOUNT_PATH.to_owned(),
        read_only: Some(true),
    }
}

/// The third container for an OCI registry: it pushes the SBOM with `oras push`, tagged with the
/// hash of the image.
pub open spec fn oci_upload_container(
    oci: OciOutput,
    short_hash: Seq<char>,
    format: ScanFormat,
) -> ContainerView {
    ContainerView {
        name: "output-upload"@,
        image: Some(defaults::OCI_UPLOAD_IMAGE@),
        command: None,
        args: Some(
            seq![
                "push"@,
                "$(OCI_REGISTRY)/$(OCI_REPOSITORY):$(IMAGE_HASH)"@,
                "/workdir/out/$(IMAGE_HASH).$(SBOM_EXT):application/json"@,
            ],
        ),
        env: Some(
            seq![
                env_var("OCI_REGISTRY"@, oci.registry@),
                env_var("OCI_REPOSITORY"@, oci.repository@),
                env_var("IMAGE_HASH"@, short_hash),
                env_var("SBOM_EXT"@, format_args_of(format).1),
                env_var("DOCKER_CONFIG"@, defaults::DOCKER_CONFIG_MOUNT_PATH@),
            ],
        ),
        env_from: None,
        resources: None,
        volume_mounts: Some(
            seq![plain_mount("workdir"@, "/workdir"@), oci_credentials_mount_view()],
        ),
    }
}

fn build_output_upload_oci_container(
    oci: &OciOutput,
    short_hash: &str,
    scan_format: &ScanFormat,
) -> (r: Container)
    ensures
        r.deep_view() == oci_upload_container(*oci, short_hash@, *scan_format),
{
    let (_format_arg, sbom_ext) = scan_format_args(scan_format);
    let r = Container {
        name: "output-upload".to_owned(),
        image: Some(defaults::OCI_UPLOAD_IMAGE.to_owned()),
        command: None,
        // The image's entry point is `oras`.
        args: Some(
            vec![
                "push".to_owned(),
                "$(OCI_REGISTRY)/$(OCI_REPOSITORY):$(IMAGE_HASH)".to_owned(),
                "/workdir/out/$(IMAGE_HASH).$(SBOM_EXT):application/json".to_owned(),
            ],
        ),
        env: Some(
            vec![
                make_env_var("OCI_REGISTRY", oci.registry.as_str()),
                make_env_var("OCI_REPOSITORY", oci.repository.as_str()),
                make_env_var("IMAGE_HASH", short_hash),
                make_env_var("SBOM_EXT", sbom_ext),
                make_env_var("DOCKER_CONFIG", defaults::DOCKER_CONFIG_MOUNT_PATH),
            ],
        ),
        env_from: None,
        resources: None,
        volume_mounts: Some(vec![workdir_mount(), oci_credentials_mount()]),
    };
    assert(r.deep_view() =~~= oci_upload_container(*oci, short_hash@, *scan_format));
    r
}

/// A text with nothing but white space.
pub open spec fn blank(s: Seq<char>) -> bool {
    text::trimmed(s).len() == 0
}

/// An optional text that is there and not blank.
pub open spec fn given(s: Option<String>) -> bool {
    s matches Some(text) && !blank(text@)
}

fn is_blank(s: &str) -> (r: bool)
    ensures
        r == blank(s@),
{
    s.trim().is_empty()
}

fn is_given(s: &Option<String>) -> (r: bool)
    ensures
        r == given(*s),
{
    match s {
        Some(text) => !is_blank(text.as_str()),
        None => false,
    }
}

/// The third container of a Job, by the kind of output; an error if the configuration for that
/// kind is incomplete.
pub open spec fn upload_container(spec: NamespaceScanSpec, short_hash: Seq<char>) -> Result<
    ContainerView,
    BuildScanJobError,
> {
    match spec.output.backend_type {
        OutputType::Pvc => match spec.output.pvc {
            Some(pvc) if !blank(pvc.claim_name@) => Ok(pvc_upload_container(pvc)),
            _ => Err(BuildScanJobError::MissingPvcConfig),
        },
        OutputType::S3 => match spec.output.s3 {
            Some(s3) if !blank(s3.bucket@) && given(s3.credentials_secret_name) => Ok(
                s3_upload_container(s3, s3.credentials_secret_name->0@),
            ),
            _ => Err(BuildScanJobError::MissingS3Config),
        },
        OutputType::Oci => match spec.output.oci {
            Some(oci) if !blank(oci.registry@) && !blank(oci.repository@) && given(
                oci.credentials_secret_name,
            ) => Ok(oci_upload_container(oci, short_hash, spec.scan_format)),
            _ => Err(BuildScanJobError::MissingOciConfig),
        },
    }
}

/// The volumes of a Job whose output is configured: the scratch volume, and the one that the
/// upload needs, if any.
pub open spec fn job_volumes(spec: NamespaceScanSpec) -> Seq<VolumeView> {
    match spec.output.backend_type {
        OutputType::Pvc => seq![
            workdir_volume_view(),
            pvc_output_volume_view(spec.output.pvc->0.claim_name@),
        ],
        OutputType::S3 => seq![workdir_volume_view()],
        OutputType::Oci => seq![
            workdir_volume_view(),
            oci_credentials_volume_view(spec.output.oci->0.credentials_secret_name->0@),
        ],
    }
}

/// The labels of a Job and of its pods.
pub open spec fn job_labels(cr_name: Seq<char>, short_hash: Seq<char>) -> Map<
    Seq<char>,
    Seq<char>,
> {
    map![
        "app.kubernetes.io/name"@ => "mikebom-operator"@,
        "app.kubernetes.io/component"@ => "scan-job"@,
        "kusari.dev/namespace-scan"@ => cr_name,
        "kusari.dev/image-ref-hash"@ => short_hash,
    ]
}

/// Metadata that holds labels, and a name where there is one.
pub open spec fn labelled(
    name: Option<Seq<char>>,
    labels: Map<Seq<char>, Seq<char>>,
) -> ObjectMetaView {
    ObjectMetaView {
        name,
        namespace: None,
        uid: None,
        creation_timestamp: None,
        labels: Some(labels),
        owner_references: None,
    }
}

/// The Job that scans an image for a resource; an error if the image, the scanner's image or the
/// configuration of the output is missing.
pub open spec fn scan_job(
    spec: NamespaceScanSpec,
    cr_name: Seq<char>,
    image_ref: Seq<char>,
) -> Result<JobView, BuildScanJobError> {
    let image = text::trimmed(image_ref);
    let short_hash = image_hash(image);
    let labels = job_labels(cr_name, short_hash);
    if blank(spec.mikebom_image@) {
        Err(BuildScanJobError::EmptyMikebomImage)
    } else if blank(image_ref) {
        Err(BuildScanJobError::EmptyImageRef)
    } else {
        match upload_container(spec, short_hash) {
            Err(e) => Err(e),
            Ok(upload) => Ok(
                JobView {
                    metadata: labelled(Some(scan_job_name(cr_name, short_hash)), labels),
                    spec: Some(
                        JobSpecView {
                            completions: Some(1),
                            parallelism: Some(1),
                            backoff_limit: Some(defaults::BACKOFF_LIMIT),
                            ttl_seconds_after_finished: Some(defaults::TTL_SECONDS_AFTER_FINISHED),
                            template: PodTemplateSpecView {
                                metadata: Some(labelled(None, labels)),
                                spec: Some(
                                    PodSpecView {
                                        restart_policy: Some("Never"@),
                                        volumes: Some(job_volumes(spec)),
                                        init_containers: Some(
                                            seq![
                                                init_pull_container(image),
                                                mikebom_scan_container(
                                                    spec.scan_format,
                                                    short_hash,
                                                    text::trimmed(spec.mikebom_image@),
                                                ),
                                            ],
                                        ),
                                        containers: seq![upload],
                                        ephemeral_containers: None,
                                    },
                                ),
                            },
                        },
                    ),
                    status: None,
                },
            ),
        }
    }
}

/// Builds the `output-upload` container for the kind of output that the resource asks for.
fn build_output_upload_container(spec: &NamespaceScanSpec, short_hash: &str) -> (r: Result<
    Container,
    BuildScanJobError,
>)
    ensures
        view::result_view(r) == upload_container(*spec, short_hash@),
{
    match &spec.output.backend_type {
        OutputType::Pvc => match &spec.output.pvc {
            Some(pvc) => {
                if is_blank(pvc.claim_name.as_str()) {
                    return Err(BuildScanJobError::MissingPvcConfig);
                }
                Ok(build_output_upload_pvc_container(pvc))
            },
            None => Err(BuildScanJobError::MissingPvcConfig),
        },
        OutputType::S3 => match &spec.output.s3 {
            Some(s3) => {
                if is_blank(s3.bucket.as_str()) || !is_given(&s3.credentials_secret_name) {
                    return Err(BuildScanJobError::MissingS3Config);
                }
                match &s3.credentials_secret_name {
                    Some(secret) => Ok(build_output_upload_s3_container(s3, secret.as_str())),
                    None => Err(BuildScanJobError::MissingS3Config),
                }
            },
            None => Err(BuildScanJobError::MissingS3Config),
        },
        OutputType::Oci => match &spec.output.oci {
            Some(oci) => {
                if is_blank(oci.registry.as_str()) || is_blank(oci.repository.as_str())
                    || !is_given(&oci.credentials_secret_name) {
                    return Err(BuildScanJobError::MissingOciConfig);
                }
                Ok(build_output_upload_oci_container(oci, short_hash, &spec.scan_format))
            },
            None => Err(BuildScanJobError::MissingOciConfig),
        },
    }
}

fn build_volumes(spec: &NamespaceScanSpec) -> (r: Vec<Volume>)
    requires
        exists|short_hash: Seq<char>| upload_container(*spec, short_hash) is Ok,
    ensures
        r.deep_view() == job_volumes(*spec),
{
    let mut volumes = vec![workdir_volume()];
    match spec.output.backend_type {
        OutputType::Pvc => {
            if let Some(pvc) = &spec.output.pvc {
                volumes.push(pvc_output_volume(pvc.claim_name.as_str()));
            }
        },
        OutputType::S3 => {},
        OutputType::Oci => {
            if let Some(oci) = &spec.output.oci {
                if let Some(secret) = &oci.credentials_secret_name {
                    volumes.push(oci_credentials_volume(secret.as_str()));
                }
            }
        },
    }
    assert(volumes.deep_view() =~= job_volumes(*spec));
    volumes
}

fn build_labels(cr_name: &str, short_hash: &str) -> (r: TextMap<String>)
    ensures
        r.deep_view() == job_labels(cr_name@, short_hash@),
{
    let mut labels: TextMap<String> = TextMap::new();
    labels.insert("app.kubernetes.io/name".to_owned(), "mikebom-operator".to_owned());
    labels.insert("app.kubernetes.io/component".to_owned(), "scan-job".to_owned());
    labels.insert("kusari.dev/namespace-scan".to_owned(), cr_name.to_owned());
    labels.insert("kusari.dev/image-ref-hash".to_owned(), short_hash.to_owned());
    assert(labels.deep_view() =~= job_labels(cr_name@, short_hash@));
    labels
}

/// Builds the Job that scans `image_ref` for the resource `cr_name`.
pub fn build_scan_job(spec: &NamespaceScanSpec, cr_name: &str, image_ref: &str) -> (r: Result<
    Job,
    BuildScanJobError,
>)
    ensures
        view::result_view(r) == scan_job(*spec, cr_name@, image_ref@),
{
    let mikebom_image = spec.mikebom_image.as_str().trim();
    if mikebom_image.is_empty() {
        return Err(BuildScanJobError::EmptyMikebomImage);
    }
    let image_ref = image_ref.trim();
    if image_ref.is_empty() {
        return Err(BuildScanJobError::EmptyImageRef);
    }
    let short_hash = short_image_hash(image_ref);
    let name = job_name(cr_name, short_hash.as_str());
    let output_upload = match build_output_upload_container(spec, short_hash.as_str()) {
        Ok(container) => container,
        Err(e) => {
            return Err(e);
        },
    };
    let volumes = build_volumes(spec);
    let init_containers = vec![
        build_init_pull_container(image_ref),
        build_mikebom_scan_container(spec, short_hash.as_str(), mikebom_image),
    ];
    let containers = vec![output_upload];
    let ghost init_views = seq![
        init_pull_container(image_ref@),
        mikebom_scan_container(spec.scan_format, short_hash@, mikebom_image@),
    ];
    assert(init_containers.deep_view() =~= init_views);
    assert(containers.deep_view() =~= seq![output_upload.deep_view()]);
    Ok(
        Job {
            metadata: ObjectMeta {
                name: Some(name),
                namespace: None,
                uid: None,
                creation_timestamp: None,
                labels: Some(build_labels(cr_name, short_hash.as_str())),
                owner_references: None,
            },
            spec: Some(
                JobSpec {
                    completions: Some(1),
                    parallelism: Some(1),
                    backoff_limit: Some(defaults::BACKOFF_LIMIT),
                    ttl_seconds_after_finished: Some(defaults::TTL_SECONDS_AFTER_FINISHED),
                    template: PodTemplateSpec {
                        metadata: Some(
                            ObjectMeta {
                                name: None,
                                namespace: None,
                                uid: None,
                                creation_timestamp: None,
                                labels: Some(build_labels(cr_name, short_hash.as_str())),
                                owner_references: None,
                            },
                        ),
                        spec: Some(
                            PodSpec {
                                restart_policy: Some("Never".to_owned()),
                                volumes: Some(volumes),
                                init_containers: Some(init_containers),
                                containers,
                                ephemeral_containers: None,
                            },
                        ),
                    },
                },
            ),
            status: None,
        },
    )
}

} // verus!
