use chrono::{DateTime, Utc};
use mikebom_operator::crds::namespace_scan::{
    NamespaceScanSpec, OciOutput, Output, OutputType, PvcOutput, S3Output, ScanFormat,
    ScannedImage, Schedule, Target,
};
use mikebom_operator::k8s::{
    Container, EnvVar, Job, JobSpec, JobStatus, ObjectMeta, PodSpec, PodTemplateSpec,
};
use mikebom_operator::reconcile::status_aggregator::{
    aggregate_job_outcomes, aggregate_job_outcomes_at, derive_sbom_location,
    extract_image_ref_from_job, is_job_finally_failed, is_job_succeeded,
    merge_scanned_images_append_only, owned_jobs_selector, AggregatedOutcome,
};
use mikebom_operator::scan_job::build_scan_job;
use mikebom_operator::text_map::TextMap;
use mikebom_operator::time::Timestamp;

fn ts(t: DateTime<Utc>) -> Timestamp {
    Timestamp::new(t.timestamp(), t.timestamp_subsec_nanos()).unwrap()
}

fn build_job(
    cr_name: &str,
    short_hash: &str,
    image_ref: &str,
    succeeded: Option<i32>,
    failed: Option<i32>,
    backoff_limit: Option<i32>,
) -> Job {
    let mut labels: TextMap<String> = TextMap::new();
    labels.insert("kusari.dev/namespace-scan".to_string(), cr_name.to_string());
    labels.insert("kusari.dev/image-ref-hash".to_string(), short_hash.to_string());
    Job {
        metadata: ObjectMeta {
            name: Some(format!("nsscan-{cr_name}-{short_hash}")),
            labels: Some(labels),
            ..Default::default()
        },
        spec: Some(JobSpec {
            backoff_limit,
            template: PodTemplateSpec {
                spec: Some(PodSpec {
                    init_containers: Some(vec![Container {
                        name: "init-pull".to_string(),
                        env: Some(vec![EnvVar {
                            name: "IMAGE_REF".to_string(),
                            value: Some(image_ref.to_string()),
                            ..Default::default()
                        }]),
                        ..Default::default()
                    }]),
                    ..Default::default()
                }),
                ..Default::default()
            },
            ..Default::default()
        }),
        status: Some(JobStatus {
            succeeded,
            failed,
            completion_time: succeeded.map(|_| ts(Utc::now())),
            ..Default::default()
        }),
    }
}

fn s3_spec() -> NamespaceScanSpec {
    NamespaceScanSpec {
        target: Target {
            namespaces: vec!["default".to_string()],
            kinds: vec![],
            label_selector: None,
        },
        schedule: Schedule {
            cron: Some("0 */6 * * *".to_string()),
            interval: None,
        },
        mikebom_image: "ghcr.io/kusari-oss/mikebom:test".to_string(),
        scan_format: ScanFormat::CyclonedxJson,
        output: Output {
            backend_type: OutputType::S3,
            pvc: None,
            s3: Some(S3Output {
                bucket: "test-sboms".to_string(),
                region: "us-west-2".to_string(),
                path_prefix: Some("team-a".to_string()),
                credentials_secret_name: Some("aws-creds".to_string()),
            }),
            oci: None,
        },
    }
}

fn pvc_spec(path_prefix: Option<&str>) -> NamespaceScanSpec {
    let mut spec = s3_spec();
    spec.output = Output {
        backend_type: OutputType::Pvc,
        pvc: Some(PvcOutput {
            claim_name: "sbom-claim".to_string(),
            path_prefix: path_prefix.map(|s| s.to_string()),
        }),
        s3: None,
        oci: None,
    };
    spec
}

fn oci_spec() -> NamespaceScanSpec {
    let mut spec = s3_spec();
    spec.output = Output {
        backend_type: OutputType::Oci,
        pvc: None,
        s3: None,
        oci: Some(OciOutput {
            registry: "ghcr.io".to_string(),
            repository: "kusari-oss/sboms".to_string(),
            credentials_secret_name: Some("registry-creds".to_string()),
        }),
    };
    spec
}

#[test]
fn t007_aggregate_empty_list_is_still_running() {
    let outcome = aggregate_job_outcomes(&[], &s3_spec());
    assert_eq!(outcome, AggregatedOutcome::StillRunning);
}

#[test]
fn t008_aggregate_all_succeeded_is_all_succeeded() {
    let jobs = vec![
        build_job("scan", "abc1234", "nginx:1.27.0", Some(1), None, Some(6)),
        build_job("scan", "def5678", "redis:7.4.0", Some(1), None, Some(6)),
    ];
    let outcome = aggregate_job_outcomes(&jobs, &s3_spec());
    match outcome {
        AggregatedOutcome::AllSucceeded { scanned } => {
            assert_eq!(scanned.len(), 2);
            let refs: Vec<&str> = scanned.iter().map(|s| s.image_ref.as_str()).collect();
            assert!(refs.contains(&"nginx:1.27.0"));
            assert!(refs.contains(&"redis:7.4.0"));
            for s in &scanned {
                assert!(!s.image_ref.is_empty());
                assert!(!s.sbom_location.is_empty());
                assert!(!s.completed_at.is_empty());
            }
        }
        other => panic!("expected AllSucceeded, got {other:?}"),
    }
}

#[test]
fn t009_aggregate_partial_progress_is_still_running() {
    let jobs = vec![
        build_job("scan", "abc1234", "nginx:1.27.0", Some(1), None, Some(6)),
        build_job("scan", "def5678", "redis:7.4.0", None, None, Some(6)),
    ];
    let outcome = aggregate_job_outcomes(&jobs, &s3_spec());
    assert_eq!(outcome, AggregatedOutcome::StillRunning);
}

#[test]
fn t019_aggregate_finally_failed_is_any_failed() {
    let jobs = vec![build_job(
        "scan",
        "abc1234",
        "nginx:1.27.0",
        None,
        Some(7),
        Some(6),
    )];
    let outcome = aggregate_job_outcomes(&jobs, &s3_spec());
    match outcome {
        AggregatedOutcome::AnyFailed { image_ref } => {
            assert_eq!(image_ref, "nginx:1.27.0");
        }
        other => panic!("expected AnyFailed, got {other:?}"),
    }
}

#[test]
fn t020_aggregate_mixed_state_is_any_failed() {
    let jobs = vec![
        build_job("scan", "abc1234", "nginx:1.27.0", Some(1), None, Some(6)),
        build_job("scan", "def5678", "redis:7.4.0", None, Some(7), Some(6)),
    ];
    let outcome = aggregate_job_outcomes(&jobs, &s3_spec());
    assert_eq!(
        outcome,
        AggregatedOutcome::AnyFailed {
            image_ref: "redis:7.4.0".to_string()
        }
    );
}

#[test]
fn t021_aggregate_retry_in_progress_is_still_running() {
    let jobs = vec![build_job(
        "scan",
        "abc1234",
        "nginx:1.27.0",
        None,
        Some(3),
        Some(6),
    )];
    let outcome = aggregate_job_outcomes(&jobs, &s3_spec());
    assert_eq!(outcome, AggregatedOutcome::StillRunning);
}

#[test]
fn t027_derive_pvc_with_path_prefix() {
    let url = derive_sbom_location(&pvc_spec(Some("team-a")), "abc1234");
    assert_eq!(url, "pvc://sbom-claim/team-a/abc1234.json");
}

#[test]
fn t027_derive_pvc_without_path_prefix() {
    let url = derive_sbom_location(&pvc_spec(None), "abc1234");
    assert_eq!(url, "pvc://sbom-claim/abc1234.json");
}

#[test]
fn t027_derive_pvc_empty_path_prefix() {
    let url = derive_sbom_location(&pvc_spec(Some("")), "abc1234");
    assert_eq!(url, "pvc://sbom-claim/abc1234.json");
}

#[test]
fn t027_derive_s3_with_path_prefix() {
    let url = derive_sbom_location(&s3_spec(), "abc1234");
    assert_eq!(url, "s3://test-sboms/team-a/abc1234.json");
}

#[test]
fn t027_derive_s3_without_path_prefix() {
    let mut spec = s3_spec();
    spec.output.s3.as_mut().unwrap().path_prefix = None;
    let url = derive_sbom_location(&spec, "abc1234");
    assert_eq!(url, "s3://test-sboms/abc1234.json");
}

#[test]
fn t027_derive_oci() {
    let url = derive_sbom_location(&oci_spec(), "abc1234");
    assert_eq!(url, "oci://ghcr.io/kusari-oss/sboms:abc1234");
}

fn sample(image_ref: &str, completed_at: &str, sbom_location: &str) -> ScannedImage {
    ScannedImage {
        image_ref: image_ref.to_string(),
        resolved_sha: None,
        sbom_location: sbom_location.to_string(),
        completed_at: completed_at.to_string(),
    }
}

#[test]
fn t028_merge_append_only_new_entries_appended() {
    let existing = vec![sample("nginx:1", "2026-06-28T10:00:00Z", "pvc://c/n.json")];
    let new_only = vec![sample("redis:7", "2026-06-28T10:05:00Z", "pvc://c/r.json")];
    let out = merge_scanned_images_append_only(&existing, new_only);
    assert_eq!(out.len(), 2);
    assert!(out.iter().any(|s| s.image_ref == "nginx:1"));
    assert!(out.iter().any(|s| s.image_ref == "redis:7"));
}

#[test]
fn t028_merge_append_only_existing_preserved_when_new_is_empty() {
    let existing = vec![
        sample("nginx:1", "2026-06-28T10:00:00Z", "pvc://c/n.json"),
        sample("redis:7", "2026-06-28T10:01:00Z", "pvc://c/r.json"),
    ];
    let out = merge_scanned_images_append_only(&existing, vec![]);
    assert_eq!(
        out.len(),
        2,
        "existing entries MUST NOT be removed"
    );
}

#[test]
fn t028_merge_newest_wins_on_duplicate_image_ref() {
    let existing = vec![sample(
        "nginx:1",
        "2026-06-28T10:00:00Z",
        "pvc://c/n-old.json",
    )];
    let new_with_dup = vec![sample(
        "nginx:1",
        "2026-06-28T10:05:00Z",
        "pvc://c/n-new.json",
    )];
    let out = merge_scanned_images_append_only(&existing, new_with_dup);
    assert_eq!(out.len(), 1);
    assert_eq!(out[0].completed_at, "2026-06-28T10:05:00Z");
    assert_eq!(out[0].sbom_location, "pvc://c/n-new.json");
}

#[test]
fn t028_merge_output_sorted_by_image_ref() {
    let existing = vec![sample("zeta:1", "t1", "p1")];
    let new = vec![sample("alpha:1", "t2", "p2"), sample("mu:1", "t3", "p3")];
    let out = merge_scanned_images_append_only(&existing, new);
    let order: Vec<&str> = out.iter().map(|s| s.image_ref.as_str()).collect();
    assert_eq!(order, vec!["alpha:1", "mu:1", "zeta:1"]);
}

#[test]
fn extract_image_ref_present_returns_value() {
    let job = build_job("scan", "abc1234", "nginx:1.27.0", Some(1), None, Some(6));
    assert_eq!(
        extract_image_ref_from_job(&job).as_deref(),
        Some("nginx:1.27.0")
    );
}

#[test]
fn extract_image_ref_missing_init_pull_returns_none() {
    let mut job = build_job("scan", "abc1234", "nginx:1.27.0", Some(1), None, Some(6));
    job.spec
        .as_mut()
        .unwrap()
        .template
        .spec
        .as_mut()
        .unwrap()
        .init_containers = None;
    assert_eq!(extract_image_ref_from_job(&job), None);
}

#[test]
fn job_without_completion_time_is_completed_now() {
    let mut job = build_job("scan", "abc1234", "nginx:1.27.0", Some(1), None, Some(6));
    job.status.as_mut().unwrap().completion_time = None;
    let before = Utc::now();
    let outcome = aggregate_job_outcomes(&[job], &s3_spec());
    let after = Utc::now();
    match outcome {
        AggregatedOutcome::AllSucceeded { scanned } => {
            let completed = DateTime::parse_from_rfc3339(&scanned[0].completed_at).unwrap();
            assert!(before <= completed && completed <= after);
        }
        other => panic!("expected AllSucceeded, got {other:?}"),
    }
}

#[test]
fn scanned_image_tells_location_and_time() {
    let mut job = build_job("scan", "abc1234", "nginx:1.27.0", Some(1), None, Some(6));
    job.status.as_mut().unwrap().completion_time = Timestamp::new(1_782_741_600, 5_000_000);
    let now = Timestamp::new(0, 0).unwrap();
    assert_eq!(
        aggregate_job_outcomes_at(&[job], &s3_spec(), &now),
        AggregatedOutcome::AllSucceeded {
            scanned: vec![sample(
                "nginx:1.27.0",
                "2026-06-29T14:00:00.005+00:00",
                "s3://test-sboms/team-a/abc1234.json",
            )],
        },
    );
}

#[test]
fn jobs_that_tell_too_little_are_passed_over() {
    let now = Timestamp::new(0, 0).unwrap();
    let mut no_label = build_job("scan", "abc1234", "nginx:1.27.0", Some(1), None, Some(6));
    no_label.metadata.labels = None;
    let mut other_label = build_job("scan", "abc1234", "nginx:1.27.0", Some(1), None, Some(6));
    other_label.metadata.labels = Some(TextMap::new());
    let mut no_image = build_job("scan", "abc1234", "nginx:1.27.0", Some(1), None, Some(6));
    no_image.spec = None;
    assert_eq!(
        aggregate_job_outcomes_at(&[no_label, other_label, no_image], &s3_spec(), &now),
        AggregatedOutcome::AllSucceeded { scanned: vec![] },
    );
}

#[test]
fn failed_job_without_image_is_unknown() {
    let mut job = build_job("scan", "abc1234", "nginx:1.27.0", None, Some(7), None);
    job.spec = None;
    assert_eq!(
        aggregate_job_outcomes(&[job], &s3_spec()),
        AggregatedOutcome::AnyFailed {
            image_ref: "<unknown>".to_string()
        },
    );
}

#[test]
fn six_failures_are_tolerated_by_default() {
    let failed = |n| build_job("scan", "abc1234", "nginx", None, Some(n), None);
    assert!(!is_job_finally_failed(&failed(6)));
    assert!(is_job_finally_failed(&failed(7)));
    assert!(!is_job_finally_failed(&Job::default()));
    assert!(!is_job_succeeded(&Job::default()));
    assert!(is_job_succeeded(&build_job("s", "h", "i", Some(1), None, None)));
    assert!(!is_job_succeeded(&build_job("s", "h", "i", Some(0), None, None)));
}

#[test]
fn first_init_pull_and_first_variable_count() {
    let mut job = build_job("scan", "abc1234", "nginx:1.27.0", Some(1), None, Some(6));
    let pod = job.spec.as_mut().unwrap().template.spec.as_mut().unwrap();
    let containers = pod.init_containers.as_mut().unwrap();
    containers[0].env.as_mut().unwrap().push(EnvVar {
        name: "IMAGE_REF".to_string(),
        value: Some("second".to_string()),
    });
    containers.insert(
        0,
        Container {
            name: "other".to_string(),
            ..Default::default()
        },
    );
    assert_eq!(extract_image_ref_from_job(&job).as_deref(), Some("nginx:1.27.0"));
}

#[test]
fn built_job_tells_its_image_and_hash() {
    let spec = s3_spec();
    let job = build_scan_job(&spec, "scan", " nginx:1.27.0 ").unwrap();
    assert_eq!(extract_image_ref_from_job(&job).as_deref(), Some("nginx:1.27.0"));
    let labels = job.metadata.labels.as_ref().unwrap();
    assert_eq!(labels.get("kusari.dev/image-ref-hash").unwrap(), "00baaee");
    let label = labels.get("kusari.dev/namespace-scan").unwrap();
    assert_eq!(
        owned_jobs_selector("scan"),
        format!("kusari.dev/namespace-scan={label}"),
    );
}

#[test]
fn unknown_locations_name_the_kind_of_output() {
    let mut spec = s3_spec();
    spec.output.s3 = None;
    assert_eq!(derive_sbom_location(&spec, "abc1234"), "s3://unknown");
    spec.output.backend_type = OutputType::Pvc;
    assert_eq!(derive_sbom_location(&spec, "abc1234"), "pvc://unknown");
    spec.output.backend_type = OutputType::Oci;
    assert_eq!(derive_sbom_location(&spec, "abc1234"), "oci://unknown");
}

#[test]
fn locations_are_trimmed() {
    let mut spec = pvc_spec(Some("  "));
    spec.output.pvc.as_mut().unwrap().claim_name = " sbom-claim ".to_string();
    assert_eq!(derive_sbom_location(&spec, "abc1234"), "pvc://sbom-claim/abc1234.json");
    spec.output.pvc.as_mut().unwrap().path_prefix = Some(" a/b ".to_string());
    assert_eq!(derive_sbom_location(&spec, "abc1234"), "pvc://sbom-claim/a/b/abc1234.json");
}

#[test]
fn merging_again_changes_nothing() {
    let existing = vec![sample("b", "t1", "old"), sample("c", "t1", "p")];
    let new = || vec![sample("b", "t2", "new"), sample("a", "t2", "q"), sample("b", "t3", "newest")];
    let once = merge_scanned_images_append_only(&existing, new());
    assert_eq!(
        once,
        vec![
            sample("a", "t2", "q"),
            sample("b", "t3", "newest"),
            sample("c", "t1", "p"),
        ],
    );
    assert_eq!(merge_scanned_images_append_only(&once, new()), once);
}
