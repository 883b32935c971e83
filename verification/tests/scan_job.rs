use mikebom_operator::crds::namespace_scan::{
    NamespaceScanSpec, OciOutput, Output, OutputType, PvcOutput, S3Output, ScanFormat, Schedule,
    Target,
};
use mikebom_operator::k8s::{Container, Job, PodSpec};
use mikebom_operator::scan_job::{
    build_scan_job, defaults, hex_prefix, job_name, sanitize_dns1123, scan_format_args,
    short_image_hash, strip_leading_slash, BuildScanJobError,
};
use regex::Regex;

fn valid_spec() -> NamespaceScanSpec {
    NamespaceScanSpec {
        target: Target {
            namespaces: vec!["default".to_string()],
            kinds: vec![],
            label_selector: None,
        },
        schedule: Schedule {
            cron: Some("0 */6 * * *".to_string()),
            interval: None,
        },
        mikebom_image: "ghcr.io/kusari-oss/mikebom:v0.1.0-alpha.64".to_string(),
        scan_format: ScanFormat::CyclonedxJson,
        output: Output {
            backend_type: OutputType::Oci,
            pvc: None,
            s3: None,
            oci: Some(OciOutput {
                registry: "ghcr.io".to_string(),
                repository: "kusari-oss/sboms".to_string(),
                credentials_secret_name: Some("registry-creds".to_string()),
            }),
        },
    }
}

#[test]
fn name_is_dns1123_compliant() {
    let job = build_scan_job(&valid_spec(), "scan-prod", "nginx:1.27.0")
        .expect("builder should succeed");
    let name = job.metadata.name.as_deref().expect("name must be set");
    let re = Regex::new(r"^[a-z0-9]([-a-z0-9]*[a-z0-9])?$").unwrap();
    assert!(re.is_match(name), "name {name:?} is not DNS-1123 compliant");
    assert!(name.len() <= 63, "name {name:?} exceeds 63 char limit");
}

#[test]
fn name_is_deterministic() {
    let a = build_scan_job(&valid_spec(), "scan-prod", "nginx:1.27.0").unwrap();
    let b = build_scan_job(&valid_spec(), "scan-prod", "nginx:1.27.0").unwrap();
    assert_eq!(a.metadata.name, b.metadata.name);
}

#[test]
fn name_differs_for_different_images() {
    let a = build_scan_job(&valid_spec(), "scan-prod", "nginx:1.27.0").unwrap();
    let b = build_scan_job(&valid_spec(), "scan-prod", "nginx:1.27.1").unwrap();
    assert_ne!(a.metadata.name, b.metadata.name);
}

#[test]
fn name_truncates_long_cr_name() {
    let long_cr = "a".repeat(100);
    let job = build_scan_job(&valid_spec(), &long_cr, "nginx:1.27.0").unwrap();
    let name = job.metadata.name.as_deref().unwrap();
    assert!(name.len() <= 63, "name {name:?} > 63 chars");
    assert!(name.starts_with("nsscan-"));
}

#[test]
fn empty_mikebom_image_errors() {
    let mut spec = valid_spec();
    spec.mikebom_image = "".to_string();
    let err = build_scan_job(&spec, "scan-prod", "nginx:1.27.0").unwrap_err();
    assert_eq!(err, BuildScanJobError::EmptyMikebomImage);

    spec.mikebom_image = "   ".to_string();
    let err = build_scan_job(&spec, "scan-prod", "nginx:1.27.0").unwrap_err();
    assert_eq!(err, BuildScanJobError::EmptyMikebomImage);
}

#[test]
fn empty_image_ref_errors() {
    let err = build_scan_job(&valid_spec(), "scan-prod", "").unwrap_err();
    assert_eq!(err, BuildScanJobError::EmptyImageRef);
    let err = build_scan_job(&valid_spec(), "scan-prod", "   ").unwrap_err();
    assert_eq!(err, BuildScanJobError::EmptyImageRef);
}

fn pod_spec(job: &Job) -> &PodSpec {
    job.spec
        .as_ref()
        .expect("job.spec")
        .template
        .spec
        .as_ref()
        .expect("template.spec")
}

#[test]
fn pod_template_has_three_containers_in_correct_order() {
    let job = build_scan_job(&valid_spec(), "scan-prod", "nginx:1.27.0").unwrap();
    let ps = pod_spec(&job);
    let inits = ps.init_containers.as_ref().expect("init_containers");
    assert_eq!(inits.len(), 2, "expected exactly 2 init containers");
    assert_eq!(inits[0].name, "init-pull");
    assert_eq!(inits[1].name, "mikebom-scan");
    assert_eq!(ps.containers.len(), 1, "expected exactly 1 main container");
    assert_eq!(ps.containers[0].name, "output-upload");
}

#[test]
fn all_containers_share_workdir_emptydir() {
    let job = build_scan_job(&valid_spec(), "scan-prod", "nginx:1.27.0").unwrap();
    let ps = pod_spec(&job);
    let volumes = ps.volumes.as_ref().expect("volumes");
    let workdir = volumes
        .iter()
        .find(|v| v.name == "workdir")
        .expect("workdir volume must exist");
    assert!(workdir.empty_dir.is_some(), "workdir must be an emptyDir");

    let assert_mounted = |c: &Container| {
        let mounts = c.volume_mounts.as_ref().expect("volume_mounts");
        assert!(
            mounts
                .iter()
                .any(|m| m.name == "workdir" && m.mount_path == "/workdir"),
            "container {} does not mount workdir at /workdir",
            c.name,
        );
    };
    for c in ps.init_containers.as_ref().unwrap() {
        assert_mounted(c);
    }
    for c in &ps.containers {
        assert_mounted(c);
    }
}

#[test]
fn init_pull_extracts_rootfs() {
    let job = build_scan_job(&valid_spec(), "scan-prod", "nginx:1.27.0").unwrap();
    let init = &pod_spec(&job).init_containers.as_ref().unwrap()[0];
    assert_eq!(init.image.as_deref(), Some(defaults::INIT_PULL_IMAGE));
    let cmd = init.command.as_ref().unwrap().join(" ");
    assert!(
        cmd.contains("crane export"),
        "init-pull missing crane export: {cmd}"
    );
    assert!(
        cmd.contains("/workdir/rootfs"),
        "init-pull missing rootfs target: {cmd}"
    );
    let env = init.env.as_ref().unwrap();
    assert!(
        env.iter()
            .any(|e| e.name == "IMAGE_REF" && e.value.as_deref() == Some("nginx:1.27.0")),
        "init-pull missing IMAGE_REF env",
    );
}

#[test]
fn mikebom_scan_uses_spec_image_and_args() {
    let job = build_scan_job(&valid_spec(), "scan-prod", "nginx:1.27.0").unwrap();
    let scan = &pod_spec(&job).init_containers.as_ref().unwrap()[1];
    assert_eq!(
        scan.image.as_deref(),
        Some("ghcr.io/kusari-oss/mikebom:v0.1.0-alpha.64"),
    );
    let args = scan.args.as_ref().unwrap();
    assert_eq!(&args[0..4], &["sbom", "scan", "--path", "/workdir/rootfs"]);
    assert!(args.iter().any(|a| a == "--format"));
    assert!(args.iter().any(|a| a == "--output"));
}

#[test]
fn mikebom_scan_format_branches() {
    for (variant, expected_format, expected_ext) in [
        (ScanFormat::CyclonedxJson, "cyclonedx-json", "cdx.json"),
        (ScanFormat::Spdx23Json, "spdx-2.3-json", "spdx.json"),
        (ScanFormat::Spdx3Json, "spdx-3-json", "spdx3.json"),
    ] {
        let mut spec = valid_spec();
        spec.scan_format = variant;
        let job = build_scan_job(&spec, "scan-prod", "nginx:1.27.0").unwrap();
        let args = pod_spec(&job).init_containers.as_ref().unwrap()[1]
            .args
            .as_ref()
            .unwrap();
        assert!(
            args.iter().any(|a| a == expected_format),
            "args missing --format value {expected_format}: {args:?}",
        );
        assert!(
            args.iter().any(|a| a.ends_with(expected_ext)),
            "args missing output file extension .{expected_ext}: {args:?}",
        );
    }
}

#[test]
fn all_container_images_are_pinned() {
    let job = build_scan_job(&valid_spec(), "scan-prod", "nginx:1.27.0").unwrap();
    let ps = pod_spec(&job);
    let mut all: Vec<&Container> = ps.init_containers.as_ref().unwrap().iter().collect();
    all.extend(ps.containers.iter());
    for c in all {
        let img = c.image.as_deref().unwrap_or("");
        assert!(!img.is_empty(), "container {} has empty image", c.name);
        assert!(
            !img.ends_with(":latest"),
            "container {} uses :latest tag — must pin",
            c.name,
        );
        let is_digest_pinned = img.contains("@sha256:");
        let has_tag = img
            .rsplit_once(':')
            .map(|(_, t)| !t.is_empty() && !t.contains('/'))
            .unwrap_or(false);
        assert!(
            is_digest_pinned || has_tag,
            "container {} image {img} is not tag- or digest-pinned",
            c.name,
        );
    }
}

#[test]
fn job_lifecycle_policies_are_one_shot() {
    let job = build_scan_job(&valid_spec(), "scan-prod", "nginx:1.27.0").unwrap();
    let js = job.spec.as_ref().unwrap();
    assert_eq!(js.completions, Some(1));
    assert_eq!(js.parallelism, Some(1));
    let bo = js.backoff_limit.expect("backoff_limit");
    assert!(bo <= 3, "backoff_limit {bo} > 3");
    let pod = js.template.spec.as_ref().unwrap();
    assert_eq!(pod.restart_policy.as_deref(), Some("Never"));
}

#[test]
fn ttl_within_one_hour() {
    let job = build_scan_job(&valid_spec(), "scan-prod", "nginx:1.27.0").unwrap();
    let ttl = job
        .spec
        .as_ref()
        .unwrap()
        .ttl_seconds_after_finished
        .unwrap();
    assert!(ttl > 0 && ttl <= 3600, "ttl {ttl} out of (0, 3600]");
}

#[test]
fn mikebom_scan_has_resource_requests() {
    let job = build_scan_job(&valid_spec(), "scan-prod", "nginx:1.27.0").unwrap();
    let scan = &pod_spec(&job).init_containers.as_ref().unwrap()[1];
    let requests = scan
        .resources
        .as_ref()
        .and_then(|r| r.requests.as_ref())
        .expect("mikebom-scan resources.requests");
    assert!(requests.contains_key("cpu"), "missing cpu request");
    assert!(requests.contains_key("memory"), "missing memory request");
}

fn valid_pvc_spec(claim_name: &str, path_prefix: Option<&str>) -> NamespaceScanSpec {
    let mut spec = valid_spec();
    spec.output = Output {
        backend_type: OutputType::Pvc,
        pvc: Some(PvcOutput {
            claim_name: claim_name.to_string(),
            path_prefix: path_prefix.map(|s| s.to_string()),
        }),
        s3: None,
        oci: None,
    };
    spec
}

#[test]
fn pvc_dispatch_adds_pvc_volume_to_pod_spec() {
    let job = build_scan_job(
        &valid_pvc_spec("sbom-scratch", None),
        "scan-prod",
        "nginx:1.27.0",
    )
    .unwrap();
    let ps = pod_spec(&job);
    let volumes = ps.volumes.as_ref().unwrap();
    let pvc_vol = volumes
        .iter()
        .find(|v| v.name == defaults::PVC_VOLUME_NAME)
        .expect("pvc-output volume must be present");
    let pvc_src = pvc_vol
        .persistent_volume_claim
        .as_ref()
        .expect("pvc volume needs persistent_volume_claim source");
    assert_eq!(pvc_src.claim_name, "sbom-scratch");
}

#[test]
fn pvc_output_upload_mounts_pvc_at_known_path() {
    let job = build_scan_job(
        &valid_pvc_spec("sbom-scratch", None),
        "scan-prod",
        "nginx:1.27.0",
    )
    .unwrap();
    let upload = &pod_spec(&job).containers[0];
    let mounts = upload.volume_mounts.as_ref().unwrap();
    assert!(
        mounts
            .iter()
            .any(|m| m.name == defaults::PVC_VOLUME_NAME
                && m.mount_path == defaults::PVC_MOUNT_PATH),
        "output-upload missing {} mount at {}",
        defaults::PVC_VOLUME_NAME,
        defaults::PVC_MOUNT_PATH,
    );
}

#[test]
fn pvc_volume_mounted_only_on_output_upload() {
    let job = build_scan_job(
        &valid_pvc_spec("sbom-scratch", None),
        "scan-prod",
        "nginx:1.27.0",
    )
    .unwrap();
    let ps = pod_spec(&job);
    for c in ps.init_containers.as_ref().unwrap() {
        let mounts = c.volume_mounts.as_ref().unwrap();
        assert!(
            !mounts.iter().any(|m| m.name == defaults::PVC_VOLUME_NAME),
            "container {} unexpectedly mounts {}",
            c.name,
            defaults::PVC_VOLUME_NAME,
        );
    }
}

#[test]
fn pvc_output_upload_copies_to_pvc_mount() {
    let job = build_scan_job(
        &valid_pvc_spec("sbom-scratch", None),
        "scan-prod",
        "nginx:1.27.0",
    )
    .unwrap();
    let upload = &pod_spec(&job).containers[0];
    let cmd = upload.command.as_ref().unwrap().join("\n");
    assert!(
        cmd.contains("mkdir -p"),
        "output-upload missing mkdir -p: {cmd}"
    );
    assert!(
        cmd.contains("cp /workdir/out/*.json"),
        "output-upload missing cp command: {cmd}",
    );
    assert!(
        cmd.contains("PATH_PREFIX"),
        "output-upload should read PATH_PREFIX env: {cmd}",
    );
}

#[test]
fn pvc_output_upload_respects_path_prefix() {
    let job = build_scan_job(
        &valid_pvc_spec("sbom-scratch", Some("team-a")),
        "scan-prod",
        "nginx:1.27.0",
    )
    .unwrap();
    let upload = &pod_spec(&job).containers[0];
    let env = upload
        .env
        .as_ref()
        .expect("env required when pathPrefix set");
    assert!(
        env.iter()
            .any(|e| e.name == "PATH_PREFIX" && e.value.as_deref() == Some("team-a")),
        "PATH_PREFIX env should equal team-a; got {env:?}",
    );
}

#[test]
fn path_prefix_strips_leading_slash() {
    let job = build_scan_job(
        &valid_pvc_spec("sbom-scratch", Some("/team-a")),
        "scan-prod",
        "nginx:1.27.0",
    )
    .unwrap();
    let upload = &pod_spec(&job).containers[0];
    let env = upload.env.as_ref().unwrap();
    assert!(
        env.iter()
            .any(|e| e.name == "PATH_PREFIX" && e.value.as_deref() == Some("team-a")),
        "leading-slash strip should produce team-a; got {env:?}",
    );
}

#[test]
fn missing_pvc_config_errors_when_pvc_none() {
    let mut spec = valid_spec();
    spec.output.backend_type = OutputType::Pvc;
    spec.output.pvc = None;
    let err = build_scan_job(&spec, "scan-prod", "nginx:1.27.0").unwrap_err();
    assert_eq!(err, BuildScanJobError::MissingPvcConfig);
}

#[test]
fn missing_pvc_config_errors_when_claim_empty() {
    let err1 =
        build_scan_job(&valid_pvc_spec("", None), "scan-prod", "nginx:1.27.0").unwrap_err();
    assert_eq!(err1, BuildScanJobError::MissingPvcConfig);
    let err2 =
        build_scan_job(&valid_pvc_spec("   ", None), "scan-prod", "nginx:1.27.0").unwrap_err();
    assert_eq!(err2, BuildScanJobError::MissingPvcConfig);
}

fn valid_s3_spec(
    bucket: &str,
    region: &str,
    credentials_secret_name: Option<&str>,
    path_prefix: Option<&str>,
) -> NamespaceScanSpec {
    let mut spec = valid_spec();
    spec.output = Output {
        backend_type: OutputType::S3,
        pvc: None,
        s3: Some(S3Output {
            bucket: bucket.to_string(),
            region: region.to_string(),
            path_prefix: path_prefix.map(|s| s.to_string()),
            credentials_secret_name: credentials_secret_name.map(|s| s.to_string()),
        }),
        oci: None,
    };
    spec
}

#[test]
fn s3_dispatch_uses_aws_cli_image() {
    let spec = valid_s3_spec("sboms-prod", "us-west-2", Some("aws-creds"), None);
    let job = build_scan_job(&spec, "scan-prod", "nginx:1.27.0").unwrap();
    let upload = &pod_spec(&job).containers[0];
    assert_eq!(upload.image.as_deref(), Some(defaults::S3_UPLOAD_IMAGE));
}

#[test]
fn s3_output_upload_uses_aws_s3_cp() {
    let spec = valid_s3_spec("sboms-prod", "us-west-2", Some("aws-creds"), None);
    let job = build_scan_job(&spec, "scan-prod", "nginx:1.27.0").unwrap();
    let upload = &pod_spec(&job).containers[0];
    let cmd = upload.command.as_ref().unwrap().join("\n");
    assert!(
        cmd.contains("aws s3 cp /workdir/out/"),
        "missing aws s3 cp: {cmd}",
    );
    assert!(cmd.contains("S3_BUCKET"), "missing S3_BUCKET ref: {cmd}");
    assert!(
        cmd.contains("--include '*.json'"),
        "missing json-only filter: {cmd}",
    );
}

#[test]
fn s3_env_carries_bucket_and_region() {
    let spec = valid_s3_spec("sboms-prod", "us-west-2", Some("aws-creds"), None);
    let job = build_scan_job(&spec, "scan-prod", "nginx:1.27.0").unwrap();
    let upload = &pod_spec(&job).containers[0];
    let env = upload.env.as_ref().unwrap();
    assert!(env
        .iter()
        .any(|e| e.name == "S3_BUCKET" && e.value.as_deref() == Some("sboms-prod")));
    assert!(env
        .iter()
        .any(|e| e.name == "AWS_REGION" && e.value.as_deref() == Some("us-west-2")));
    assert!(env
        .iter()
        .any(|e| e.name == "AWS_DEFAULT_REGION" && e.value.as_deref() == Some("us-west-2")));
}

#[test]
fn s3_credentials_come_from_secret_via_envfrom() {
    let spec = valid_s3_spec("sboms-prod", "us-west-2", Some("aws-creds"), None);
    let job = build_scan_job(&spec, "scan-prod", "nginx:1.27.0").unwrap();
    let upload = &pod_spec(&job).containers[0];
    let env_from = upload
        .env_from
        .as_ref()
        .expect("env_from must be set for S3");
    assert!(
        env_from.iter().any(|e| e
            .secret_ref
            .as_ref()
            .is_some_and(|sr| sr.name == "aws-creds")),
        "envFrom should reference secret 'aws-creds'; got {env_from:?}",
    );
}

#[test]
fn s3_output_upload_respects_path_prefix() {
    let spec = valid_s3_spec("sboms-prod", "us-west-2", Some("aws-creds"), Some("team-a"));
    let job = build_scan_job(&spec, "scan-prod", "nginx:1.27.0").unwrap();
    let upload = &pod_spec(&job).containers[0];
    let env = upload.env.as_ref().unwrap();
    assert!(env
        .iter()
        .any(|e| e.name == "S3_PATH_PREFIX" && e.value.as_deref() == Some("team-a")));
}

#[test]
fn s3_path_prefix_strips_leading_slash() {
    let spec = valid_s3_spec(
        "sboms-prod",
        "us-west-2",
        Some("aws-creds"),
        Some("/team-a"),
    );
    let job = build_scan_job(&spec, "scan-prod", "nginx:1.27.0").unwrap();
    let upload = &pod_spec(&job).containers[0];
    let env = upload.env.as_ref().unwrap();
    assert!(env
        .iter()
        .any(|e| e.name == "S3_PATH_PREFIX" && e.value.as_deref() == Some("team-a")));
}

#[test]
fn missing_s3_config_errors_when_s3_none() {
    let mut spec = valid_spec();
    spec.output.backend_type = OutputType::S3;
    spec.output.s3 = None;
    let err = build_scan_job(&spec, "scan-prod", "nginx:1.27.0").unwrap_err();
    assert_eq!(err, BuildScanJobError::MissingS3Config);
}

#[test]
fn missing_s3_config_errors_when_bucket_or_secret_empty() {
    let s = valid_s3_spec("", "us-west-2", Some("aws-creds"), None);
    assert_eq!(
        build_scan_job(&s, "scan-prod", "nginx:1.27.0").unwrap_err(),
        BuildScanJobError::MissingS3Config,
    );
    let s = valid_s3_spec("sboms-prod", "us-west-2", None, None);
    assert_eq!(
        build_scan_job(&s, "scan-prod", "nginx:1.27.0").unwrap_err(),
        BuildScanJobError::MissingS3Config,
    );
    let s = valid_s3_spec("sboms-prod", "us-west-2", Some("   "), None);
    assert_eq!(
        build_scan_job(&s, "scan-prod", "nginx:1.27.0").unwrap_err(),
        BuildScanJobError::MissingS3Config,
    );
}

fn valid_oci_spec(
    registry: &str,
    repository: &str,
    credentials_secret_name: Option<&str>,
) -> NamespaceScanSpec {
    let mut spec = valid_spec();
    spec.output = Output {
        backend_type: OutputType::Oci,
        pvc: None,
        s3: None,
        oci: Some(OciOutput {
            registry: registry.to_string(),
            repository: repository.to_string(),
            credentials_secret_name: credentials_secret_name.map(|s| s.to_string()),
        }),
    };
    spec
}

#[test]
fn oci_dispatch_uses_oras_image() {
    let spec = valid_oci_spec("ghcr.io", "kusari-oss/sboms", Some("registry-creds"));
    let job = build_scan_job(&spec, "scan-prod", "nginx:1.27.0").unwrap();
    let upload = &pod_spec(&job).containers[0];
    assert_eq!(upload.image.as_deref(), Some(defaults::OCI_UPLOAD_IMAGE));
}

#[test]
fn oci_output_upload_uses_oras_push() {
    let spec = valid_oci_spec("ghcr.io", "kusari-oss/sboms", Some("registry-creds"));
    let job = build_scan_job(&spec, "scan-prod", "nginx:1.27.0").unwrap();
    let upload = &pod_spec(&job).containers[0];
    let args = upload.args.as_ref().expect("oras args required");
    assert_eq!(args[0], "push");
    assert!(
        args[1].contains("$(OCI_REGISTRY)") && args[1].contains("$(OCI_REPOSITORY)"),
        "oras push target missing var substitution: {args:?}",
    );
    assert!(
        args[2].contains("/workdir/out/") && args[2].contains(":application/json"),
        "oras push file path missing /workdir/out/ or media type: {args:?}",
    );
}

#[test]
fn oci_env_carries_registry_repository_and_image_hash() {
    let spec = valid_oci_spec("ghcr.io", "kusari-oss/sboms", Some("registry-creds"));
    let job = build_scan_job(&spec, "scan-prod", "nginx:1.27.0").unwrap();
    let upload = &pod_spec(&job).containers[0];
    let env = upload.env.as_ref().unwrap();
    assert!(env
        .iter()
        .any(|e| e.name == "OCI_REGISTRY" && e.value.as_deref() == Some("ghcr.io")));
    assert!(env
        .iter()
        .any(|e| e.name == "OCI_REPOSITORY" && e.value.as_deref() == Some("kusari-oss/sboms")));
    assert!(env.iter().any(|e| e.name == "IMAGE_HASH"
        && e.value
            .as_deref()
            .map(|v| !v.is_empty() && v.len() == 7)
            .unwrap_or(false)));
    assert!(env.iter().any(|e| e.name == "DOCKER_CONFIG"
        && e.value.as_deref() == Some(defaults::DOCKER_CONFIG_MOUNT_PATH)));
}

#[test]
fn oci_credentials_volume_mounted_at_known_path() {
    let spec = valid_oci_spec("ghcr.io", "kusari-oss/sboms", Some("registry-creds"));
    let job = build_scan_job(&spec, "scan-prod", "nginx:1.27.0").unwrap();
    let ps = pod_spec(&job);
    let volumes = ps.volumes.as_ref().unwrap();
    let cred_vol = volumes
        .iter()
        .find(|v| v.name == defaults::DOCKER_CONFIG_VOLUME_NAME)
        .expect("oci-credentials volume must exist");
    let secret_src = cred_vol
        .secret
        .as_ref()
        .expect("oci-credentials must use a Secret projection");
    assert_eq!(secret_src.secret_name.as_deref(), Some("registry-creds"));
    let items = secret_src.items.as_ref().expect("items remap required");
    assert!(items
        .iter()
        .any(|i| i.key == ".dockerconfigjson" && i.path == "config.json"));

    let upload = &ps.containers[0];
    let mounts = upload.volume_mounts.as_ref().unwrap();
    let cred_mount = mounts
        .iter()
        .find(|m| m.name == defaults::DOCKER_CONFIG_VOLUME_NAME)
        .expect("output-upload must mount the credentials volume");
    assert_eq!(cred_mount.mount_path, defaults::DOCKER_CONFIG_MOUNT_PATH);
    assert_eq!(cred_mount.read_only, Some(true));
}

#[test]
fn oci_credentials_volume_only_on_output_upload() {
    let spec = valid_oci_spec("ghcr.io", "kusari-oss/sboms", Some("registry-creds"));
    let job = build_scan_job(&spec, "scan-prod", "nginx:1.27.0").unwrap();
    let ps = pod_spec(&job);
    for c in ps.init_containers.as_ref().unwrap() {
        let mounts = c.volume_mounts.as_ref().unwrap();
        assert!(
            !mounts
                .iter()
                .any(|m| m.name == defaults::DOCKER_CONFIG_VOLUME_NAME),
            "container {} unexpectedly mounts oci credentials",
            c.name,
        );
    }
}

#[test]
fn oci_sbom_ext_matches_scan_format() {
    for (format, expected_ext) in [
        (ScanFormat::CyclonedxJson, "cdx.json"),
        (ScanFormat::Spdx23Json, "spdx.json"),
        (ScanFormat::Spdx3Json, "spdx3.json"),
    ] {
        let mut spec = valid_oci_spec("ghcr.io", "kusari-oss/sboms", Some("registry-creds"));
        spec.scan_format = format;
        let job = build_scan_job(&spec, "scan-prod", "nginx:1.27.0").unwrap();
        let upload = &pod_spec(&job).containers[0];
        let env = upload.env.as_ref().unwrap();
        assert!(
            env.iter()
                .any(|e| e.name == "SBOM_EXT" && e.value.as_deref() == Some(expected_ext)),
            "SBOM_EXT should be {expected_ext}; got env {env:?}",
        );
    }
}

#[test]
fn missing_oci_config_errors_when_oci_none() {
    let mut spec = valid_spec();
    spec.output.backend_type = OutputType::Oci;
    spec.output.oci = None;
    let err = build_scan_job(&spec, "scan-prod", "nginx:1.27.0").unwrap_err();
    assert_eq!(err, BuildScanJobError::MissingOciConfig);
}

#[test]
fn missing_oci_config_errors_when_required_fields_empty() {
    let s = valid_oci_spec("", "kusari-oss/sboms", Some("registry-creds"));
    assert_eq!(
        build_scan_job(&s, "scan-prod", "nginx:1.27.0").unwrap_err(),
        BuildScanJobError::MissingOciConfig,
    );
    let s = valid_oci_spec("ghcr.io", "", Some("registry-creds"));
    assert_eq!(
        build_scan_job(&s, "scan-prod", "nginx:1.27.0").unwrap_err(),
        BuildScanJobError::MissingOciConfig,
    );
    let s = valid_oci_spec("ghcr.io", "kusari-oss/sboms", None);
    assert_eq!(
        build_scan_job(&s, "scan-prod", "nginx:1.27.0").unwrap_err(),
        BuildScanJobError::MissingOciConfig,
    );
    let s = valid_oci_spec("ghcr.io", "kusari-oss/sboms", Some("   "));
    assert_eq!(
        build_scan_job(&s, "scan-prod", "nginx:1.27.0").unwrap_err(),
        BuildScanJobError::MissingOciConfig,
    );
}

#[test]
fn empty_mikebom_image_returns_error_path() {
    let mut spec = valid_spec();
    spec.mikebom_image = "".to_string();
    let err = build_scan_job(&spec, "scan-prod", "nginx:1.27.0").unwrap_err();
    assert_eq!(err, BuildScanJobError::EmptyMikebomImage);
}

fn pvc_job(image_ref: &str) -> Job {
    build_scan_job(&valid_pvc_spec("sbom-scratch", None), "scan-prod", image_ref).unwrap()
}

#[test]
fn short_hash_is_a_prefix_of_the_sha256() {
    assert_eq!(short_image_hash("nginx:1.27.0"), "00baaee");
    assert_eq!(short_image_hash("redis:7.4.0"), "a8d1d26");
    assert_eq!(hex_prefix(&[0x01, 0xab, 0x9f, 0xe0, 0xff]), "01ab9fe");
}

#[test]
fn job_name_is_made_of_name_and_hash() {
    let job = pvc_job("nginx:1.27.0");
    assert_eq!(job.metadata.name.as_deref(), Some("nsscan-scan-prod-00baaee"));
    assert_eq!(job_name("My_Scan..Prod!", "abc1234"), "nsscan-my-scan-prod-abc1234");
    assert_eq!(job_name("", "abc1234"), "nsscan--abc1234");
    assert_eq!(job_name("***", "abc1234"), "nsscan--abc1234");
}

#[test]
fn job_name_does_not_end_its_middle_part_with_a_hyphen() {
    let cr_name = format!("{}-{}", "a".repeat(47), "b".repeat(20));
    let name = job_name(&cr_name, "abc1234");
    assert_eq!(name, format!("nsscan-{}-abc1234", "a".repeat(47)));
    let long = job_name(&"a".repeat(200), "abc1234");
    assert_eq!(long.len(), 63);
}

#[test]
fn sanitizing_lowers_collapses_and_strips() {
    assert_eq!(sanitize_dns1123("Team A / Scan #1"), "team-a-scan-1");
    assert_eq!(sanitize_dns1123("--a--b--"), "a-b");
    assert_eq!(sanitize_dns1123("\u{c9}t\u{e9}"), "t");
    assert_eq!(sanitize_dns1123("___"), "");
    for s in ["Team A", "a-b", "--x", "\u{fc}ber", ""] {
        let once = sanitize_dns1123(s);
        assert_eq!(sanitize_dns1123(&once), once);
    }
}

#[test]
fn one_leading_slash_is_stripped() {
    assert_eq!(strip_leading_slash("team-a"), "team-a");
    assert_eq!(strip_leading_slash("/team-a"), "team-a");
    assert_eq!(strip_leading_slash("//team-a"), "/team-a");
    assert_eq!(strip_leading_slash("/"), "");
    assert_eq!(strip_leading_slash(""), "");
    assert_eq!(strip_leading_slash("/\u{e9}"), "\u{e9}");
}

#[test]
fn formats_have_arguments_and_extensions() {
    assert_eq!(scan_format_args(&ScanFormat::CyclonedxJson), ("cyclonedx-json", "cdx.json"));
    assert_eq!(scan_format_args(&ScanFormat::Spdx23Json), ("spdx-2.3-json", "spdx.json"));
    assert_eq!(scan_format_args(&ScanFormat::Spdx3Json), ("spdx-3-json", "spdx3.json"));
}

#[test]
fn scan_output_is_named_by_the_hash() {
    let job = pvc_job("nginx:1.27.0");
    let args = pod_spec(&job).init_containers.as_ref().unwrap()[1].args.as_ref().unwrap();
    assert_eq!(
        args.join(" "),
        "sbom scan --path /workdir/rootfs --format cyclonedx-json \
         --output cyclonedx-json=/workdir/out/00baaee.cdx.json",
    );
}

#[test]
fn white_space_around_the_image_makes_no_difference() {
    assert_eq!(pvc_job("nginx:1.27.0"), pvc_job(" \u{a0}nginx:1.27.0\t\n"));
}

#[test]
fn labels_are_on_the_job_and_on_its_pods() {
    let job = pvc_job("nginx:1.27.0");
    let template = &job.spec.as_ref().unwrap().template;
    for labels in [
        job.metadata.labels.as_ref().unwrap(),
        template.metadata.as_ref().unwrap().labels.as_ref().unwrap(),
    ] {
        assert_eq!(labels.len(), 4);
        let value = |key: &str| labels.get(key).map(|v| v.as_str());
        assert_eq!(value("app.kubernetes.io/name"), Some("mikebom-operator"));
        assert_eq!(value("app.kubernetes.io/component"), Some("scan-job"));
        assert_eq!(value("kusari.dev/namespace-scan"), Some("scan-prod"));
        assert_eq!(value("kusari.dev/image-ref-hash"), Some("00baaee"));
    }
}

#[test]
fn upload_gets_the_prefix_of_its_own_output() {
    let spec = valid_s3_spec("b", "r", Some("s"), Some("//x"));
    let job = build_scan_job(&spec, "scan-prod", "nginx:1.27.0").unwrap();
    let env = pod_spec(&job).containers[0].env.as_ref().unwrap();
    assert_eq!(env[1].name, "S3_PATH_PREFIX");
    assert_eq!(env[1].value.as_deref(), Some("/x"));
    assert_eq!(pod_spec(&job).volumes.as_ref().unwrap().len(), 1);
}

#[test]
fn errors_say_what_is_missing() {
    assert_eq!(
        BuildScanJobError::EmptyMikebomImage.message(),
        "spec.mikebomImage is empty or whitespace-only",
    );
    assert_eq!(
        BuildScanJobError::EmptyImageRef.message(),
        "image_ref is empty or whitespace-only",
    );
    assert_eq!(
        BuildScanJobError::MissingPvcConfig.message(),
        "spec.output.type=Pvc requires spec.output.pvc.claimName to be non-empty",
    );
    assert_eq!(
        BuildScanJobError::MissingS3Config.message(),
        "spec.output.type=S3 requires spec.output.s3 with non-empty bucket and credentialsSecretName",
    );
    assert_eq!(
        BuildScanJobError::MissingOciConfig.message(),
        "spec.output.type=Oci requires spec.output.oci with non-empty registry, repository, and credentialsSecretName",
    );
}

#[test]
fn oci_upload_pushes_the_file_that_the_scan_writes() {
    for format in [ScanFormat::CyclonedxJson, ScanFormat::Spdx23Json, ScanFormat::Spdx3Json] {
        let mut spec = valid_oci_spec("ghcr.io", "kusari-oss/sboms", Some("registry-creds"));
        spec.scan_format = format;
        let job = build_scan_job(&spec, "scan-prod", "nginx:1.27.0").unwrap();
        let pod = job.spec.as_ref().unwrap().template.spec.as_ref().unwrap();
        let scan = &pod.init_containers.as_ref().unwrap()[1];
        let upload = &pod.containers[0];
        let expand = |arg: &String| {
            upload.env.as_ref().unwrap().iter().fold(arg.clone(), |text, var| {
                text.replace(&format!("$({})", var.name), var.value.as_deref().unwrap())
            })
        };
        let args: Vec<String> = upload.args.as_ref().unwrap().iter().map(expand).collect();
        let output = &scan.args.as_ref().unwrap()[7];
        let (_, file) = output.split_once('=').unwrap();
        assert_eq!(
            args,
            vec![
                "push".to_string(),
                format!("ghcr.io/kusari-oss/sboms:{}", short_image_hash("nginx:1.27.0")),
                format!("{file}:application/json"),
            ],
        );
        assert!(upload.command.is_none());
    }
}
