use chrono::{DateTime, Utc};
use mikebom_operator::crds::namespace_scan::{
    NamespaceScan, NamespaceScanSpec, NamespaceScanStatus, Output, OutputType, PvcOutput,
    ScanFormat, Schedule, StatusCondition, Target,
};
use mikebom_operator::k8s::{Job, JobStatus};
use mikebom_operator::kube::{ErrorResponse, KubeError};
use mikebom_operator::reconcile::namespace_scan::{
    choose_anchor, error_policy, next_requeue_interval, requeue_interval, schedule_decision,
    try_schedule_decision, with_next_scan, ControllerAction, ReconcileAction, ReconcileError,
    Reconciliation, REQUEUE_INTERVAL_SECONDS,
};
use mikebom_operator::reconcile::scan_orchestrator::{OrchestrationError, OrchestrationResult};
use mikebom_operator::scan_job::build_scan_job;
use mikebom_operator::status::{
    READY, REASON_SCAN_COMPLETED, REASON_SCAN_FAILED, STATUS_FALSE, STATUS_TRUE,
};
use mikebom_operator::time::{Span, Timestamp};

fn ts(t: DateTime<Utc>) -> Timestamp {
    Timestamp::new(t.timestamp(), t.timestamp_subsec_nanos()).unwrap()
}

fn dt(t: Timestamp) -> DateTime<Utc> {
    DateTime::from_timestamp(t.epoch_seconds(), t.subsec_nanos()).unwrap()
}

fn at(text: &str) -> Timestamp {
    ts(DateTime::parse_from_rfc3339(text).unwrap().with_timezone(&Utc))
}

fn valid_spec_with_schedule(cron: Option<&str>, interval: Option<&str>) -> NamespaceScanSpec {
    NamespaceScanSpec {
        target: Target {
            namespaces: vec!["default".to_string()],
            kinds: vec![],
            label_selector: None,
        },
        schedule: Schedule {
            cron: cron.map(String::from),
            interval: interval.map(String::from),
        },
        mikebom_image: "ghcr.io/kusari-oss/mikebom:test".to_string(),
        scan_format: ScanFormat::CyclonedxJson,
        output: Output {
            backend_type: OutputType::Pvc,
            pvc: None,
            s3: None,
            oci: None,
        },
    }
}

fn make_cr(
    cron: Option<&str>,
    interval: Option<&str>,
    last_scan_completed_at: Option<&str>,
) -> NamespaceScan {
    let mut cr = NamespaceScan::new("scan-test", valid_spec_with_schedule(cron, interval));
    cr.metadata.uid = Some("11111111-2222-3333-4444-555555555555".to_string());
    cr.metadata.namespace = Some("kusari-operator".to_string());
    cr.metadata.creation_timestamp =
        Some(ts(Utc::now() - chrono::Duration::hours(1)));
    cr.status = Some(NamespaceScanStatus {
        conditions: vec![],
        last_reconciled_at: None,
        last_scan_completed_at: last_scan_completed_at.map(String::from),
        scanned_images: vec![],
        next_scheduled_scan_at: None,
    });
    cr
}

fn scan_completed_status() -> NamespaceScanStatus {
    NamespaceScanStatus {
        conditions: vec![StatusCondition {
            condition_type: READY.to_string(),
            status: STATUS_TRUE.to_string(),
            reason: Some(REASON_SCAN_COMPLETED.to_string()),
            message: Some("scanned 1 distinct image successfully".to_string()),
            last_transition_time: Some("2026-06-29T14:00:30Z".to_string()),
        }],
        last_reconciled_at: Some("2026-06-29T14:00:30Z".to_string()),
        last_scan_completed_at: Some("2026-06-29T14:00:30Z".to_string()),
        scanned_images: vec![],
        next_scheduled_scan_at: None,
    }
}

#[test]
fn t025b_schedule_decision_populates_future_next_scheduled() {
    let cr = make_cr(None, Some("1h"), Some("2026-06-29T14:00:30Z"));
    let status = scan_completed_status();
    let now = at("2026-06-29T14:30:00Z");

    let (next, due) = schedule_decision(&cr, &status, now);
    let next = next.expect("schedule_decision MUST return Some for a valid schedule");

    let expected_min = at("2026-06-29T15:00:30Z");
    let expected_max = at("2026-06-29T15:01:30Z");
    assert!(
        next >= expected_min && next <= expected_max,
        "next ({next:?}) MUST be in (15:00:30, 15:01:30]"
    );
    assert!(
        !due,
        "schedule MUST NOT be due 30min after last scan when interval=1h"
    );
}

#[test]
fn t025b_schedule_decision_returns_none_for_invalid_schedule() {
    let cr = make_cr(Some("0 * * * *"), Some("1h"), Some("2026-06-29T14:00:30Z"));
    let status = scan_completed_status();
    let now = ts(Utc::now());
    let (next, due) = schedule_decision(&cr, &status, now);
    assert!(next.is_none(), "invalid schedule MUST return None");
    assert!(!due);
}

#[test]
fn t025b_schedule_decision_anchor_fallback_to_creation_when_last_scan_unset() {
    let cr = make_cr(None, Some("1h"), None);
    let creation = dt(cr.metadata.creation_timestamp.unwrap());
    let mut status = scan_completed_status();
    status.last_scan_completed_at = None;
    let now = ts(creation + chrono::Duration::minutes(30));

    let (next, due) = schedule_decision(&cr, &status, now);
    let next = next.expect("schedule_decision MUST return Some");
    let expected_min = ts(creation + chrono::Duration::minutes(60));
    let expected_max =
        ts(creation + chrono::Duration::minutes(60) + chrono::Duration::seconds(60));
    assert!(
        next >= expected_min && next <= expected_max,
        "anchor MUST fall back to creation_timestamp; got next={next:?}, expected in [{expected_min:?}, {expected_max:?}]"
    );
    assert!(!due);

    status.last_scan_completed_at = Some(dt(now).to_rfc3339());
    let (next2, _) = schedule_decision(&cr, &status, now);
    let next2 = next2.unwrap();
    assert!(
        next2 != next,
        "different anchor MUST yield different next-scheduled time; next={next:?}, next2={next2:?}"
    );
}

#[test]
fn t026_requeue_short_when_next_scheduled_is_imminent() {
    let now = ts(Utc::now());
    let mut status = scan_completed_status();
    status.next_scheduled_scan_at = Some((dt(now) + chrono::Duration::seconds(30)).to_rfc3339());
    let r = next_requeue_interval(&status, now);
    assert!(
        r >= Span::from_secs(30) && r <= Span::from_secs(32),
        "requeue MUST be tight when next-scheduled is imminent; got {r:?}"
    );
}

#[test]
fn t026_requeue_heartbeat_when_next_scheduled_is_far() {
    let now = ts(Utc::now());
    let mut status = scan_completed_status();
    status.next_scheduled_scan_at = Some((dt(now) + chrono::Duration::hours(6)).to_rfc3339());
    let r = next_requeue_interval(&status, now);
    assert_eq!(
        r, Span::from_secs(REQUEUE_INTERVAL_SECONDS),
        "requeue MUST be 5m heartbeat when next-scheduled is hours away"
    );
}

#[test]
fn t026_requeue_heartbeat_when_no_next_scheduled() {
    let now = ts(Utc::now());
    let status = scan_completed_status();
    let r = next_requeue_interval(&status, now);
    assert_eq!(r, Span::from_secs(REQUEUE_INTERVAL_SECONDS));
}

#[test]
fn fr_006_gate_constants_referenced_in_module() {
    assert_eq!(REASON_SCAN_COMPLETED, "ScanCompleted");
    assert_eq!(REASON_SCAN_FAILED, "ScanFailed");
    assert_eq!(STATUS_FALSE, "False");
}

fn pvc_cr(interval: &str) -> NamespaceScan {
    let mut cr = make_cr(None, Some(interval), None);
    cr.spec.output.pvc = Some(PvcOutput {
        claim_name: "sbom-claim".to_string(),
        path_prefix: Some("team-a".to_string()),
    });
    cr.metadata.creation_timestamp = Some(at("2026-06-29T13:00:00Z"));
    cr.status = None;
    cr
}

fn job_for(cr: &NamespaceScan, image: &str, succeeded: Option<i32>, failed: Option<i32>) -> Job {
    let mut job = build_scan_job(&cr.spec, "scan-test", image).unwrap();
    job.status = Some(JobStatus {
        succeeded,
        failed,
        completion_time: succeeded.map(|_| at("2026-06-29T14:00:00Z")),
    });
    job
}

fn spawned(n: usize) -> OrchestrationResult {
    OrchestrationResult::Spawned { distinct_images: n }
}

fn written(r: &Reconciliation<'_>) -> NamespaceScanStatus {
    match r.action() {
        ReconcileAction::PatchStatus(status) => status.clone(),
        other => panic!("expected PatchStatus, got {other:?}"),
    }
}

fn requeue(r: Reconciliation<'_>) -> Span {
    match r.status_patched(Ok(())).action() {
        ReconcileAction::Requeue(span) => span,
        other => panic!("expected Requeue, got {other:?}"),
    }
}

fn lists_jobs(r: &Reconciliation<'_>) -> bool {
    matches!(r.action(), ReconcileAction::ListOwnedJobs("scan-test"))
}

fn reason(status: &NamespaceScanStatus) -> &str {
    status.conditions[0].reason.as_deref().unwrap()
}

fn message(status: &NamespaceScanStatus) -> &str {
    status.conditions[0].message.as_deref().unwrap()
}

fn reconcile_jobs<'a>(
    cr: &'a NamespaceScan,
    jobs: Vec<Job>,
    now: Timestamp,
) -> Reconciliation<'a> {
    let r = Reconciliation::new(cr, now);
    match r.action() {
        ReconcileAction::EnsureJobs(meta) => {
            assert_eq!(meta.name, "scan-test");
            assert_eq!(meta.uid, "11111111-2222-3333-4444-555555555555");
            assert_eq!(meta.namespace, "kusari-operator");
        }
        other => panic!("expected EnsureJobs, got {other:?}"),
    }
    let r = r.jobs_ensured(Ok(spawned(jobs.len())));
    assert!(lists_jobs(&r));
    r.jobs_listed(Ok(jobs), now)
}

#[test]
fn completed_jobs_are_reported_ready() {
    let cr = pvc_cr("6h");
    let jobs = vec![job_for(&cr, "nginx:1.27.0", Some(1), None)];
    let r = reconcile_jobs(&cr, jobs, at("2026-06-29T14:00:05Z"));
    let status = written(&r);
    assert_eq!(reason(&status), "ScanCompleted");
    assert_eq!(status.conditions[0].status, "True");
}

#[test]
fn failed_job_is_reported_with_its_image() {
    let cr = pvc_cr("6h");
    let jobs = vec![job_for(&cr, "nginx:1.27.0", None, Some(7))];
    let r = reconcile_jobs(&cr, jobs, at("2026-06-29T14:00:05Z"));
    let status = written(&r);
    assert_eq!(reason(&status), "ScanFailed");
    assert!(message(&status).contains("nginx:1.27.0"));
}

#[test]
fn one_failed_job_fails_the_scan() {
    let cr = pvc_cr("6h");
    let jobs = vec![
        job_for(&cr, "nginx:1.27.0", Some(1), None),
        job_for(&cr, "redis:7.4.0", None, Some(7)),
    ];
    let r = reconcile_jobs(&cr, jobs, at("2026-06-29T14:00:05Z"));
    assert_eq!(reason(&written(&r)), "ScanFailed");
}

#[test]
fn completed_scan_records_every_image() {
    let cr = pvc_cr("6h");
    let jobs = vec![
        job_for(&cr, "nginx:1.27.0", Some(1), None),
        job_for(&cr, "redis:7.4.0", Some(1), None),
    ];
    let r = reconcile_jobs(&cr, jobs, at("2026-06-29T14:00:05Z"));
    let status = written(&r);
    assert_eq!(status.scanned_images.len(), 2);
    for image in &status.scanned_images {
        assert!(image.sbom_location.starts_with("pvc://sbom-claim/team-a/"));
        assert!(image.sbom_location.ends_with(".json"));
    }
}

#[test]
fn recorded_images_survive_an_edit() {
    let mut cr = pvc_cr("6h");
    let jobs = || {
        let cr = pvc_cr("6h");
        vec![
            job_for(&cr, "nginx:1.27.0", Some(1), None),
            job_for(&cr, "redis:7.4.0", Some(1), None),
        ]
    };
    let first = written(&reconcile_jobs(&cr, jobs(), at("2026-06-29T14:00:05Z")));
    cr.status = Some(first.clone());
    cr.spec.output.pvc.as_mut().unwrap().path_prefix = Some("team-b".to_string());
    let mut jobs = jobs();
    jobs.push(job_for(&cr, "alpine:3.20", Some(1), None));
    let second = written(&reconcile_jobs(&cr, jobs, at("2026-06-29T14:01:05Z")));
    assert_eq!(second.scanned_images.len(), 3);
    for image in &first.scanned_images {
        assert!(second.scanned_images.contains(image));
    }
}

#[test]
fn completed_scan_is_reported_again_unchanged() {
    let mut cr = pvc_cr("6h");
    let jobs = || {
        let cr = pvc_cr("6h");
        vec![
            job_for(&cr, "redis:7.4.0", Some(1), None),
            job_for(&cr, "nginx:1.27.0", Some(1), None),
        ]
    };
    let first = written(&reconcile_jobs(&cr, jobs(), at("2026-06-29T14:00:05Z")));
    cr.status = Some(first.clone());
    let again = written(&reconcile_jobs(&cr, jobs(), at("2026-06-29T14:05:05Z")));
    assert_eq!(again.conditions, first.conditions);
    assert_eq!(again.last_scan_completed_at, first.last_scan_completed_at);
    assert_eq!(again.scanned_images, first.scanned_images);
    assert_eq!(again.next_scheduled_scan_at, first.next_scheduled_scan_at);
    assert_ne!(again.last_reconciled_at, first.last_reconciled_at);
}

#[test]
fn two_schedules_are_an_invalid_spec() {
    let cr = make_cr(Some("0 * * * *"), Some("1h"), None);
    let r = Reconciliation::new(&cr, at("2026-06-29T14:00:00Z"));
    let status = written(&r);
    assert_eq!(reason(&status), "InvalidSpec");
    assert!(message(&status).contains("both cron and interval"));
    assert_eq!(requeue(r), Span::from_secs(300));
}

#[test]
fn resource_without_uid_gets_no_jobs() {
    let mut cr = pvc_cr("6h");
    for uid in [None, Some(String::new())] {
        cr.metadata.uid = uid;
        let r = Reconciliation::new(&cr, at("2026-06-29T14:00:00Z"));
        assert_eq!(reason(&written(&r)), "NotYetReconciled");
    }
}

#[test]
fn other_results_are_written_as_they_are() {
    let mut cr = pvc_cr("6h");
    cr.status = Some(scan_completed_status());
    for (result, expected) in [
        (OrchestrationResult::NoImagesInScope, "NoImagesInScope"),
        (
            OrchestrationResult::BuildFailed {
                image_ref: "nginx".to_string(),
                error: "no".to_string(),
            },
            "BuildFailed",
        ),
        (
            OrchestrationResult::RbacInsufficient {
                verb_resource: "list pods".to_string(),
                namespace: None,
                message: "no".to_string(),
            },
            "RBACInsufficient",
        ),
    ] {
        let r = Reconciliation::new(&cr, at("2027-01-01T00:00:00Z")).jobs_ensured(Ok(result));
        let status = written(&r);
        assert_eq!(reason(&status), expected);
        assert_eq!(status.next_scheduled_scan_at, None);
        assert_eq!(requeue(r), Span::from_secs(300));
    }
}

#[test]
fn scan_completed_now_is_not_followed_by_another_at_once() {
    for (cron, interval) in [(Some("* * * * *"), None), (None, Some("1m"))] {
        let mut cr = pvc_cr("1m");
        cr.spec.schedule = Schedule {
            cron: cron.map(String::from),
            interval: interval.map(String::from),
        };
        let now = at("2026-06-29T14:00:00Z");
        let mut status = scan_completed_status();
        status.last_scan_completed_at = Some("2026-06-29T14:00:00Z".to_string());
        let (next, due) = schedule_decision(&cr, &status, now);
        assert!(now.is_before(&next.unwrap()));
        assert!(!due);
        assert_eq!(try_schedule_decision(&cr, &status, now), Some((next, due)));
        let jobs = vec![job_for(&cr, "nginx:1.27.0", Some(1), None)];
        assert_eq!(reason(&written(&reconcile_jobs(&cr, jobs, now))), "ScanCompleted");
    }
}

#[test]
fn running_jobs_are_left_alone_even_if_a_scan_is_due() {
    let cr = pvc_cr("1m");
    let jobs = vec![job_for(&cr, "nginx:1.27.0", None, Some(1))];
    let r = reconcile_jobs(&cr, jobs, at("2027-01-01T00:00:00Z"));
    assert_eq!(reason(&written(&r)), "Scanning");
}

#[test]
fn next_scan_is_reported_before_it_is_due() {
    let cr = pvc_cr("1h");
    let jobs = vec![job_for(&cr, "nginx:1.27.0", Some(1), None)];
    let now = at("2026-06-29T14:00:05Z");
    let r = reconcile_jobs(&cr, jobs, now);
    let status = written(&r);
    assert_eq!(
        status.last_scan_completed_at.as_deref(),
        Some("2026-06-29T14:00:05+00:00"),
    );
    assert_eq!(
        status.next_scheduled_scan_at.as_deref(),
        Some("2026-06-29T15:00:08+00:00"),
    );
    assert_eq!(requeue(r), Span::from_secs(300));
}

#[test]
fn terminal_jobs_make_way_when_a_scan_is_due() {
    let mut cr = pvc_cr("1h");
    let jobs = || {
        let cr = pvc_cr("1h");
        vec![job_for(&cr, "nginx:1.27.0", Some(1), None)]
    };
    let first = written(&reconcile_jobs(&cr, jobs(), at("2026-06-29T14:00:05Z")));
    cr.status = Some(first);

    let early = reconcile_jobs(&cr, jobs(), at("2026-06-29T15:00:07.500Z"));
    assert_eq!(reason(&written(&early)), "ScanCompleted");
    assert_eq!(requeue(early), Span::new(1, 500_000_000));

    let due = reconcile_jobs(&cr, jobs(), at("2026-06-29T15:00:08Z"));
    assert!(lists_jobs(&due));
    let mut owned = jobs();
    owned.push(job_for(&cr, "redis:7.4.0", None, None));
    let r = due.jobs_listed(Ok(owned), at("2026-06-29T15:00:09Z"));
    match r.action() {
        ReconcileAction::DeleteJob(name) => assert_eq!(name, "nsscan-scan-test-00baaee"),
        other => panic!("expected DeleteJob, got {other:?}"),
    }
    let r = r.job_deleted(Ok(()));
    assert_eq!(reason(&written(&r)), "ScanCompleted");
    assert_eq!(requeue(r), Span::from_secs(5));
}

#[test]
fn failures_end_reconciling() {
    let cr = pvc_cr("1m");
    let now = at("2027-01-01T00:00:00Z");
    let error = |code| KubeError {
        response: Some(ErrorResponse {
            code,
            message: "no".to_string(),
        }),
        text: "ApiError: no".to_string(),
    };
    let r = Reconciliation::new(&cr, now).jobs_ensured(Ok(spawned(1)));
    let r = r.jobs_listed(Err(error(500)), now);
    assert!(matches!(r.action(), ReconcileAction::Fail));
    let err = r.into_error();
    assert_eq!(err.message(), "kube API error: ApiError: no");
    assert_eq!(error_policy(&err), ControllerAction::Requeue(Span::from_secs(60)));

    let r = Reconciliation::new(&cr, now)
        .jobs_ensured(Err(OrchestrationError::Kube(error(500))));
    assert!(matches!(r.action(), ReconcileAction::Fail));
    let err = r.into_error();
    assert_eq!(error_policy(&err), ControllerAction::Requeue(Span::from_secs(60)));

    let mut cr = cr;
    cr.status = Some(scan_completed_status());
    let jobs = vec![job_for(&cr, "nginx:1.27.0", Some(1), None)];
    let r = reconcile_jobs(&cr, jobs, now);
    let owned = vec![job_for(&cr, "nginx:1.27.0", Some(1), None)];
    let r = r.jobs_listed(Ok(owned), now).job_deleted(Err(error(500)));
    assert!(matches!(r.action(), ReconcileAction::Fail));

    let invalid = make_cr(None, None, None);
    let r = Reconciliation::new(&invalid, now).status_patched(Err(error(404)));
    assert_eq!(error_policy(&r.into_error()), ControllerAction::AwaitChange);
}

#[test]
fn schedule_without_a_next_time_is_given_up() {
    let mut cr = pvc_cr("1h");
    cr.spec.schedule = Schedule {
        cron: Some("0 0 30 2 *".to_string()),
        interval: None,
    };
    let now = at("2026-06-29T14:00:05Z");
    assert_eq!(try_schedule_decision(&cr, &scan_completed_status(), now), None);
    let jobs = vec![job_for(&cr, "nginx:1.27.0", Some(1), None)];
    let r = reconcile_jobs(&cr, jobs, now);
    assert!(matches!(r.action(), ReconcileAction::Abort));
}

#[test]
fn interval_that_is_too_long_is_an_invalid_spec() {
    let cr = pvc_cr("18446744073709551615s 1000ms");
    let r = Reconciliation::new(&cr, at("2026-06-29T14:00:00Z"));
    assert_eq!(reason(&written(&r)), "InvalidSpec");
    assert!(message(&written(&r)).contains("number is too large"));
    assert_eq!(requeue(r), Span::from_secs(300));
}

#[test]
fn resource_without_uid_is_reported_whatever_its_interval() {
    for interval in ["1.0000000000000h 1s", "600000000000h 1ns"] {
        let mut cr = pvc_cr(interval);
        cr.metadata.uid = None;
        let r = Reconciliation::new(&cr, at("2026-06-29T14:00:00Z"));
        assert_eq!(reason(&written(&r)), "NotYetReconciled");
        assert_eq!(requeue(r), Span::from_secs(300));
    }
}

#[test]
fn schedule_counts_from_the_last_scan_or_from_creation() {
    let a = at("2026-06-29T14:00:00Z");
    let b = at("2026-06-29T13:00:00Z");
    let c = at("2026-06-29T15:00:00Z");
    assert_eq!(choose_anchor(Some(a), Some(b), c), a);
    assert_eq!(choose_anchor(None, Some(b), c), b);
    assert_eq!(choose_anchor(None, None, c), c);

    let cr = make_cr(None, Some("1h"), None);
    let mut status = scan_completed_status();
    status.last_scan_completed_at = Some("2026-06-29T16:00:00+02:00".to_string());
    let (next, due) = schedule_decision(&cr, &status, at("2026-06-29T15:00:03Z"));
    assert_eq!(next, Some(at("2026-06-29T15:00:03Z")));
    assert!(due);
    status.last_scan_completed_at = Some("not a time".to_string());
    let (next, _) = schedule_decision(&cr, &status, c);
    let created = dt(cr.metadata.creation_timestamp.unwrap());
    assert_eq!(next, Some(ts(created + chrono::Duration::seconds(3603))));
}

#[test]
fn requeue_follows_the_next_scan_within_a_minute() {
    let now = at("2026-06-29T14:00:00.250Z");
    let next = |text| requeue_interval(Some(at(text)), now);
    assert_eq!(next("2026-06-29T14:00:00.250Z"), Span::from_secs(300));
    assert_eq!(next("2026-06-29T14:00:00.250000001Z"), Span::new(1, 1));
    assert_eq!(next("2026-06-29T14:00:59Z"), Span::new(59, 750_000_000));
    assert_eq!(next("2026-06-29T14:01:00.249Z"), Span::new(60, 999_000_000));
    assert_eq!(next("2026-06-29T14:01:00.250Z"), Span::from_secs(300));
    assert_eq!(next("2026-06-29T13:59:59Z"), Span::from_secs(300));
    assert_eq!(requeue_interval(None, now), Span::from_secs(300));

    let mut status = scan_completed_status();
    status.next_scheduled_scan_at = Some("not a time".to_string());
    assert_eq!(next_requeue_interval(&status, now), Span::from_secs(300));
}

#[test]
fn next_scan_can_be_read_back() {
    let next = Timestamp::new(1_782_741_599, 1_250_000_000).unwrap();
    let status = with_next_scan(scan_completed_status(), next);
    assert_eq!(
        status.next_scheduled_scan_at.as_deref(),
        Some("2026-06-29T13:59:60.250+00:00"),
    );
    let now = at("2026-06-29T13:59:30Z");
    assert_eq!(next_requeue_interval(&status, now), Span::new(31, 250_000_000));
}

#[test]
fn orchestration_errors_become_reconcile_errors() {
    let error = KubeError {
        response: None,
        text: "connection refused".to_string(),
    };
    let ReconcileError::Kube(e) = ReconcileError::from(OrchestrationError::Kube(error));
    assert_eq!(e.text, "connection refused");
}

#[test]
fn new_resource_has_a_name_and_nothing_else() {
    let cr = NamespaceScan::new("scan-test", valid_spec_with_schedule(None, Some("1h")));
    assert_eq!(cr.metadata.name.as_deref(), Some("scan-test"));
    assert!(cr.metadata.uid.is_none() && cr.status.is_none());
}
