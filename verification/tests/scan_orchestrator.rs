use mikebom_operator::crds::namespace_scan::{
    NamespaceScanSpec, Output, OutputType, PvcOutput, ScanFormat, Schedule, Target,
};
use mikebom_operator::k8s::{Container, EphemeralContainer, Job, Pod, PodSpec, PodStatus};
use mikebom_operator::kube::{ErrorResponse, KubeError};
use mikebom_operator::reconcile::scan_orchestrator::{
    classify_job_create_result, classify_pod_list_result, collect_images_from_pods,
    is_pod_in_scope, make_owner_reference, push_image, resolve_target_namespaces, CrMetaSnapshot,
    JobCreateOutcome, Orchestration, OrchestrationAction, OrchestrationError, OrchestrationResult,
    PodListOutcome,
};
use mikebom_operator::reconcile::status_aggregator::extract_image_ref_from_job;
use mikebom_operator::scan_job::{job_name, short_image_hash};
use mikebom_operator::text_map::TextSet;

fn pod(phase: Option<&str>, containers: Vec<(&str, &str)>) -> Pod {
    let mut main = Vec::new();
    let mut inits = Vec::new();
    let mut ephems = Vec::new();
    for (kind, image) in containers {
        match kind {
            "main" => main.push(Container {
                name: format!("c-{}", main.len()),
                image: Some(image.to_string()),
                ..Default::default()
            }),
            "init" => inits.push(Container {
                name: format!("i-{}", inits.len()),
                image: Some(image.to_string()),
                ..Default::default()
            }),
            "ephem" => ephems.push(EphemeralContainer {
                name: format!("e-{}", ephems.len()),
                image: Some(image.to_string()),
                ..Default::default()
            }),
            _ => unreachable!("test typo: unknown container kind {kind}"),
        }
    }
    Pod {
        spec: Some(PodSpec {
            containers: main,
            init_containers: if inits.is_empty() { None } else { Some(inits) },
            ephemeral_containers: if ephems.is_empty() {
                None
            } else {
                Some(ephems)
            },
            ..Default::default()
        }),
        status: phase.map(|p| PodStatus {
            phase: Some(p.to_string()),
            ..Default::default()
        }),
        ..Default::default()
    }
}

fn pod_no_status(containers: Vec<(&str, &str)>) -> Pod {
    let mut p = pod(None, containers);
    p.status = None;
    p
}

fn api_err(code: u16, message: &str) -> KubeError {
    let error = kube::Error::Api(kube::core::ErrorResponse {
        status: "Failure".to_string(),
        message: message.to_string(),
        reason: "Forbidden".to_string(),
        code,
    });
    KubeError {
        response: Some(ErrorResponse {
            code,
            message: message.to_string(),
        }),
        text: error.to_string(),
    }
}

fn cr_meta(name: &str) -> CrMetaSnapshot {
    CrMetaSnapshot {
        name: name.to_string(),
        uid: "00000000-0000-0000-0000-000000000007".to_string(),
        namespace: "kusari-operator".to_string(),
    }
}

#[test]
fn t009_is_pod_in_scope_accepts_running() {
    assert!(is_pod_in_scope(&pod(
        Some("Running"),
        vec![("main", "nginx")]
    )));
}

#[test]
fn t009_is_pod_in_scope_accepts_pending() {
    assert!(is_pod_in_scope(&pod(
        Some("Pending"),
        vec![("main", "nginx")]
    )));
}

#[test]
fn t009_is_pod_in_scope_rejects_succeeded() {
    assert!(!is_pod_in_scope(&pod(
        Some("Succeeded"),
        vec![("main", "nginx")]
    )));
}

#[test]
fn t009_is_pod_in_scope_rejects_failed() {
    assert!(!is_pod_in_scope(&pod(
        Some("Failed"),
        vec![("main", "nginx")]
    )));
}

#[test]
fn t009_is_pod_in_scope_rejects_unknown() {
    assert!(!is_pod_in_scope(&pod(
        Some("Unknown"),
        vec![("main", "nginx")]
    )));
}

#[test]
fn t009_is_pod_in_scope_accepts_none_phase_as_pending_equivalent() {
    assert!(is_pod_in_scope(&pod(None, vec![("main", "nginx")])));
    assert!(is_pod_in_scope(&pod_no_status(vec![("main", "nginx")])));
}

#[test]
fn t010_collect_dedupes_across_pods() {
    let pods = vec![
        pod(Some("Running"), vec![("main", "nginx:1.27.0")]),
        pod(Some("Running"), vec![("main", "nginx:1.27.0")]),
        pod(Some("Running"), vec![("main", "redis:7.4.0")]),
    ];
    let images = collect_images_from_pods(&pods);
    assert_eq!(
        images.into_vec(),
        vec!["nginx:1.27.0".to_string(), "redis:7.4.0".to_string()]
    );
}

#[test]
fn t010_collect_includes_init_main_and_ephemeral() {
    let pods = vec![pod(
        Some("Running"),
        vec![
            ("init", "ghcr.io/setup:v1"),
            ("main", "nginx:1.27.0"),
            ("ephem", "busybox:1.36"),
        ],
    )];
    let images = collect_images_from_pods(&pods);
    assert_eq!(images.len(), 3);
    assert!(images.contains("ghcr.io/setup:v1"));
    assert!(images.contains("nginx:1.27.0"));
    assert!(images.contains("busybox:1.36"));
}

#[test]
fn t010_collect_applies_phase_filter() {
    let pods = vec![
        pod(Some("Running"), vec![("main", "in-scope:v1")]),
        pod(Some("Succeeded"), vec![("main", "out-of-scope:v1")]),
        pod(Some("Failed"), vec![("main", "out-of-scope-2:v1")]),
    ];
    let images = collect_images_from_pods(&pods);
    assert_eq!(images.len(), 1);
    assert!(images.contains("in-scope:v1"));
}

#[test]
fn t010_collect_skips_empty_and_none_image_strings() {
    let mut p = pod(Some("Running"), vec![("main", "real:v1")]);
    p.spec.as_mut().unwrap().containers.push(Container {
        name: "no-image".to_string(),
        image: None,
        ..Default::default()
    });
    p.spec.as_mut().unwrap().containers.push(Container {
        name: "whitespace".to_string(),
        image: Some("   ".to_string()),
        ..Default::default()
    });
    let images = collect_images_from_pods(&[p]);
    assert_eq!(images.len(), 1);
    assert!(images.contains("real:v1"));
}

#[test]
fn t010_collect_preserves_untagged_refs() {
    let pods = vec![pod(Some("Running"), vec![("main", "nginx")])];
    let images = collect_images_from_pods(&pods);
    assert!(images.contains("nginx"));
    assert!(!images.contains("nginx:latest"));
}

#[test]
fn t011_make_owner_reference_has_required_fields() {
    let meta = cr_meta("scan-prod");
    let oref = make_owner_reference(&meta);
    assert_eq!(oref.api_version, "kusari.dev/v1alpha1");
    assert_eq!(oref.kind, "NamespaceScan");
    assert_eq!(oref.name, "scan-prod");
    assert_eq!(oref.uid, "00000000-0000-0000-0000-000000000007");
    assert_eq!(oref.controller, Some(true));
    assert_eq!(oref.block_owner_deletion, Some(true));
}

#[test]
fn t012_classify_job_create_409_is_preexisting() {
    let outcome = classify_job_create_result(
        Err(api_err(409, "jobs.batch \"nsscan-x\" already exists")),
        "kusari-operator",
    );
    match outcome {
        JobCreateOutcome::Preexisting => {}
        other => panic!("expected Preexisting, got {other:?}"),
    }
}

#[test]
fn t012_classify_job_create_ok_is_created() {
    let outcome = classify_job_create_result(Ok(Job::default()), "kusari-operator");
    match outcome {
        JobCreateOutcome::Created => {}
        other => panic!("expected Created, got {other:?}"),
    }
}

#[test]
fn t012b_classify_pod_list_403_is_rbac_denied_with_verb_resource_and_namespace() {
    let outcome = classify_pod_list_result(
        Err(api_err(
            403,
            "pods is forbidden: User \"system:serviceaccount:kusari-operator:mikebom-operator\" cannot list resource \"pods\"",
        )),
        "prod",
    );
    match outcome {
        PodListOutcome::RbacDenied {
            verb_resource,
            namespace,
            message,
        } => {
            assert_eq!(verb_resource, "list pods");
            assert_eq!(namespace, "prod");
            assert!(
                message.contains("pods is forbidden"),
                "RBAC message should include the kube ErrorResponse.message verbatim, got: {message}"
            );
        }
        other => panic!("expected RbacDenied, got {other:?}"),
    }
}

#[test]
fn t012b_classify_job_create_403_is_rbac_denied_with_verb_resource_and_namespace() {
    let outcome = classify_job_create_result(
        Err(api_err(
            403,
            "jobs.batch is forbidden: User cannot create resource \"jobs\"",
        )),
        "kusari-operator",
    );
    match outcome {
        JobCreateOutcome::RbacDenied {
            verb_resource,
            namespace,
            message,
        } => {
            assert_eq!(verb_resource, "create batch/v1.jobs");
            assert_eq!(namespace, "kusari-operator");
            assert!(
                message.contains("jobs.batch is forbidden"),
                "RBAC message should include the kube ErrorResponse.message verbatim, got: {message}"
            );
        }
        other => panic!("expected RbacDenied, got {other:?}"),
    }
}

#[test]
fn t012b_classify_pod_list_404_is_namespace_missing() {
    let outcome =
        classify_pod_list_result(Err(api_err(404, "namespaces \"nope\" not found")), "nope");
    match outcome {
        PodListOutcome::NamespaceMissing => {}
        other => panic!("expected NamespaceMissing, got {other:?}"),
    }
}

#[test]
fn t013_orchestrator_job_name_round_trips_with_scan_job_helpers() {
    let cr_name = "scan-prod";
    let image_ref = "nginx:1.27.0";
    let from_scan_job =
        job_name(cr_name, &short_image_hash(image_ref));
    assert!(from_scan_job.starts_with("nsscan-scan-prod-"));
    assert_eq!(from_scan_job.len(), "nsscan-scan-prod-".len() + 7);
}

#[test]
fn t029_sequential_classify_job_create_idempotency() {
    let r1 = classify_job_create_result(Ok(Job::default()), "kusari-operator");
    assert!(matches!(r1, JobCreateOutcome::Created));
    let r2 = classify_job_create_result(
        Err(api_err(409, "jobs.batch \"nsscan-x\" already exists")),
        "kusari-operator",
    );
    assert!(matches!(r2, JobCreateOutcome::Preexisting));
}

fn spec(namespaces: &[&str], claim: &str) -> NamespaceScanSpec {
    NamespaceScanSpec {
        target: Target {
            namespaces: namespaces.iter().map(|ns| ns.to_string()).collect(),
            kinds: vec![],
            label_selector: None,
        },
        schedule: Schedule {
            cron: None,
            interval: Some("1h".to_string()),
        },
        mikebom_image: "ghcr.io/kusari-oss/mikebom:test".to_string(),
        scan_format: ScanFormat::CyclonedxJson,
        output: Output {
            backend_type: OutputType::Pvc,
            pvc: Some(PvcOutput {
                claim_name: claim.to_string(),
                path_prefix: None,
            }),
            s3: None,
            oci: None,
        },
    }
}

fn namespace_to_list(o: &Orchestration<'_>) -> String {
    match o.action() {
        OrchestrationAction::ListPods(ns) => ns.to_string(),
        other => panic!("expected ListPods, got {other:?}"),
    }
}

fn image_to_scan(o: &Orchestration<'_>) -> String {
    match o.action() {
        OrchestrationAction::CreateJob(job) => {
            let owners = job.metadata.owner_references.as_ref().unwrap();
            assert_eq!(owners.len(), 1);
            assert_eq!(owners[0], make_owner_reference(&cr_meta("scan-prod")));
            extract_image_ref_from_job(job).unwrap()
        }
        other => panic!("expected CreateJob, got {other:?}"),
    }
}

fn result_of(o: &Orchestration<'_>) -> OrchestrationResult {
    match o.action() {
        OrchestrationAction::Finish(result) => result.clone(),
        other => panic!("expected Finish, got {other:?}"),
    }
}

#[test]
fn one_job_is_created_for_each_image_of_all_namespaces() {
    let spec = spec(&["a", "missing", "b"], "claim");
    let meta = cr_meta("scan-prod");
    let o = Orchestration::new(&spec, &meta, "kusari-operator");
    assert_eq!(namespace_to_list(&o), "a");
    let o = o.pods_listed(Ok(vec![
        pod(Some("Running"), vec![("main", "redis:7.4.0"), ("init", "setup")]),
        pod(Some("Failed"), vec![("main", "crashed")]),
    ]));
    assert_eq!(namespace_to_list(&o), "missing");
    let o = o.pods_listed(Err(api_err(404, "namespaces \"missing\" not found")));
    assert_eq!(namespace_to_list(&o), "b");
    let o = o.pods_listed(Ok(vec![pod(
        Some("Pending"),
        vec![("main", "redis:7.4.0"), ("ephem", "nginx:1.27.0")],
    )]));
    assert_eq!(image_to_scan(&o), "nginx:1.27.0");
    let o = o.job_created(Ok(Job::default()));
    assert_eq!(image_to_scan(&o), "redis:7.4.0");
    let o = o.job_created(Err(api_err(409, "already exists")));
    assert_eq!(image_to_scan(&o), "setup");
    let o = o.job_created(Ok(Job::default()));
    assert_eq!(result_of(&o), OrchestrationResult::Spawned { distinct_images: 3 });
    assert_eq!(o.counts(), (2, 1));
}

#[test]
fn orchestration_of_no_images_creates_nothing() {
    let spec = spec(&["a"], "claim");
    let meta = cr_meta("scan-prod");
    let o = Orchestration::new(&spec, &meta, "kusari-operator")
        .pods_listed(Ok(vec![pod(Some("Succeeded"), vec![("main", "nginx")])]));
    assert_eq!(result_of(&o), OrchestrationResult::NoImagesInScope);
}

#[test]
fn label_selector_alone_has_no_namespaces() {
    let mut spec = spec(&[], "claim");
    spec.target.label_selector = Some("app=web".to_string());
    let meta = cr_meta("scan-prod");
    let o = Orchestration::new(&spec, &meta, "kusari-operator");
    assert_eq!(result_of(&o), OrchestrationResult::NoImagesInScope);
    assert!(resolve_target_namespaces(&spec.target).is_empty());
}

#[test]
fn denied_listing_ends_the_orchestration() {
    let spec = spec(&["a", "b"], "claim");
    let meta = cr_meta("scan-prod");
    let o = Orchestration::new(&spec, &meta, "kusari-operator")
        .pods_listed(Ok(vec![pod(Some("Running"), vec![("main", "nginx")])]))
        .pods_listed(Err(api_err(403, "pods is forbidden")));
    assert_eq!(
        result_of(&o),
        OrchestrationResult::RbacInsufficient {
            verb_resource: "list pods".to_string(),
            namespace: Some("b".to_string()),
            message: "pods is forbidden".to_string(),
        },
    );
}

#[test]
fn denied_creation_ends_the_orchestration() {
    let spec = spec(&["a"], "claim");
    let meta = cr_meta("scan-prod");
    let o = Orchestration::new(&spec, &meta, "kusari-operator")
        .pods_listed(Ok(vec![pod(
            Some("Running"),
            vec![("main", "nginx"), ("main", "redis")],
        )]))
        .job_created(Err(api_err(403, "jobs.batch is forbidden")));
    assert_eq!(
        result_of(&o),
        OrchestrationResult::RbacInsufficient {
            verb_resource: "create batch/v1.jobs".to_string(),
            namespace: Some("kusari-operator".to_string()),
            message: "jobs.batch is forbidden".to_string(),
        },
    );
    assert_eq!(o.counts(), (0, 0));
}

#[test]
fn incomplete_output_fails_on_the_first_image() {
    let spec = spec(&["a"], " ");
    let meta = cr_meta("scan-prod");
    let o = Orchestration::new(&spec, &meta, "kusari-operator").pods_listed(Ok(vec![pod(
        Some("Running"),
        vec![("main", "redis"), ("main", "nginx")],
    )]));
    assert_eq!(
        result_of(&o),
        OrchestrationResult::BuildFailed {
            image_ref: "nginx".to_string(),
            error: "spec.output.type=Pvc requires spec.output.pvc.claimName to be non-empty"
                .to_string(),
        },
    );
}

fn job_to_delete(o: &Orchestration<'_>) -> String {
    match o.action() {
        OrchestrationAction::DeleteJob(name) => name.to_string(),
        other => panic!("expected DeleteJob, got {other:?}"),
    }
}

fn name_for(image: &str) -> String {
    job_name("scan-prod", &short_image_hash(image))
}

fn three_images() -> Result<Vec<Pod>, KubeError> {
    Ok(vec![pod(
        Some("Running"),
        vec![("main", "a"), ("main", "b"), ("main", "c"), ("main", "d")],
    )])
}

#[test]
fn denied_creation_leaves_no_job_of_this_run() {
    let spec = spec(&["ns"], "claim");
    let meta = cr_meta("scan-prod");
    let denied = || {
        Orchestration::new(&spec, &meta, "kusari-operator")
            .pods_listed(three_images())
            .job_created(Ok(Job::default()))
            .job_created(Err(api_err(409, "already exists")))
            .job_created(Ok(Job::default()))
            .job_created(Err(api_err(403, "jobs.batch is forbidden")))
    };
    let o = denied();
    assert_eq!(o.counts(), (2, 1));
    assert_eq!(job_to_delete(&o), name_for("a"));
    let o = o.job_deleted(Ok(()));
    assert_eq!(o.counts(), (1, 1));
    assert_eq!(job_to_delete(&o), name_for("c"));
    let o = o.job_deleted(Err(api_err(404, "gone")));
    assert_eq!(
        result_of(&o),
        OrchestrationResult::RbacInsufficient {
            verb_resource: "create batch/v1.jobs".to_string(),
            namespace: Some("kusari-operator".to_string()),
            message: "jobs.batch is forbidden".to_string(),
        },
    );
    assert_eq!(o.counts(), (0, 1));

    let o = denied().job_deleted(Err(api_err(403, "delete is forbidden")));
    assert_eq!(o.counts(), (2, 1));
    assert_eq!(job_to_delete(&o), name_for("c"));
    let o = o.job_deleted(Ok(()));
    match result_of(&o) {
        OrchestrationResult::RbacInsufficient { verb_resource, message, .. } => {
            assert_eq!(verb_resource, "create batch/v1.jobs");
            assert_eq!(message, "jobs.batch is forbidden");
        }
        other => panic!("expected RbacInsufficient, got {other:?}"),
    }
    assert_eq!(o.counts(), (1, 1));

    let o = denied()
        .job_deleted(Err(api_err(403, "delete is forbidden")))
        .job_deleted(Err(api_err(500, "boom")));
    assert!(matches!(o.action(), OrchestrationAction::Fail));
    assert_eq!(o.counts(), (2, 1));

    let o = denied().job_deleted(Err(api_err(500, "boom")));
    assert!(matches!(o.action(), OrchestrationAction::Fail));
    assert_eq!(o.counts(), (2, 1));
    let OrchestrationError::Kube(e) = o.into_error();
    assert!(e.has_code(500));
}

#[test]
fn unexpected_failures_are_handed_back() {
    let refused = || KubeError {
        response: None,
        text: "connection refused".to_string(),
    };
    let spec = spec(&["a", "b"], "claim");
    let meta = cr_meta("scan-prod");
    let start = || Orchestration::new(&spec, &meta, "kusari-operator");

    let o = start().pods_listed(Err(refused()));
    assert!(matches!(o.action(), OrchestrationAction::Fail));
    let OrchestrationError::Kube(e) = o.into_error();
    assert_eq!(e, refused());

    let o = start()
        .pods_listed(three_images())
        .pods_listed(Err(api_err(500, "boom")));
    assert!(matches!(o.action(), OrchestrationAction::Fail));
    assert_eq!(o.counts(), (0, 0));

    let o = start()
        .pods_listed(three_images())
        .pods_listed(Ok(vec![]))
        .job_created(Ok(Job::default()))
        .job_created(Err(api_err(500, "boom")));
    assert!(matches!(o.action(), OrchestrationAction::Fail));
    assert_eq!(o.counts(), (1, 0));
    let OrchestrationError::Kube(e) = o.into_error();
    assert!(e.has_code(500));

    for code in [409, 500] {
        match classify_pod_list_result(Err(api_err(code, "boom")), "prod") {
            PodListOutcome::Failed(e) => assert!(e.has_code(code)),
            other => panic!("expected Failed, got {other:?}"),
        }
    }
    for code in [404, 500] {
        match classify_job_create_result(Err(api_err(code, "boom")), "prod") {
            JobCreateOutcome::Failed(e) => assert!(e.has_code(code)),
            other => panic!("expected Failed, got {other:?}"),
        }
    }
}

#[test]
fn image_is_collected_as_it_is_written() {
    let mut images = TextSet::new();
    push_image(&mut images, Some(" nginx:1.27.0"));
    push_image(&mut images, Some("nginx:1.27.0"));
    push_image(&mut images, Some(" nginx:1.27.0"));
    push_image(&mut images, Some(" \t"));
    push_image(&mut images, None);
    assert_eq!(
        images.into_vec(),
        vec![" nginx:1.27.0".to_string(), "nginx:1.27.0".to_string()],
    );
    let pods = [pod(Some("Running"), vec![("main", " nginx:1.27.0")])];
    assert_eq!(
        collect_images_from_pods(&pods).into_vec(),
        vec![" nginx:1.27.0".to_string()],
    );
}

#[test]
fn order_of_pods_does_not_matter() {
    let a = || pod(Some("Running"), vec![("main", "nginx"), ("init", "setup")]);
    let b = || pod(None, vec![("ephem", "busybox"), ("main", "nginx")]);
    assert_eq!(
        collect_images_from_pods(&[a(), b()]),
        collect_images_from_pods(&[b(), a(), b()]),
    );
    assert_eq!(collect_images_from_pods(&[Pod::default()]).len(), 0);
}

#[test]
fn orchestration_error_says_what_failed() {
    let error = OrchestrationError::Kube(KubeError {
        response: None,
        text: "connection refused".to_string(),
    });
    assert_eq!(error.message(), "kube API error: connection refused");
}
