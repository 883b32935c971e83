use chrono::{DateTime, Duration as ChronoDuration, Utc};
use mikebom_operator::crds::namespace_scan::{
    NamespaceScanSpec, NamespaceScanStatus, Output, OutputType, ScanFormat, ScannedImage,
    Schedule, StatusCondition, Target,
};
use mikebom_operator::reconcile::scan_orchestrator::OrchestrationResult;
use mikebom_operator::reconcile::status_aggregator::AggregatedOutcome;
use mikebom_operator::status::{
    build_failed_message, desired_status, failed_message, is_target_valid, report_orchestration,
    status_with_aggregated_outcome, status_with_orchestration_result, READY, REASON_BUILD_FAILED,
    REASON_INVALID_SPEC, REASON_NOT_YET_RECONCILED, REASON_NO_IMAGES_IN_SCOPE,
    REASON_RBAC_INSUFFICIENT, REASON_SCANNING, REASON_SCAN_COMPLETED, REASON_SCAN_FAILED,
    STATUS_FALSE, STATUS_TRUE,
};
use mikebom_operator::time::Timestamp;

fn ts(t: DateTime<Utc>) -> Timestamp {
    Timestamp::new(t.timestamp(), t.timestamp_subsec_nanos()).unwrap()
}

fn dt(t: Timestamp) -> DateTime<Utc> {
    DateTime::from_timestamp(t.epoch_seconds(), t.subsec_nanos()).unwrap()
}

fn valid_spec() -> NamespaceScanSpec {
    NamespaceScanSpec {
        target: Target {
            namespaces: vec!["default".to_string()],
            kinds: vec![],
            label_selector: None,
        },
        schedule: Schedule {
            cron: Some("0 */6 * * *".to_string()),
            interval: None,
        },
        mikebom_image: "ghcr.io/kusari-oss/mikebom:test".to_string(),
        scan_format: ScanFormat::CyclonedxJson,
        output: Output {
            backend_type: OutputType::Pvc,
            pvc: None,
            s3: None,
            oci: None,
        },
    }
}

fn invalid_spec() -> NamespaceScanSpec {
    let mut s = valid_spec();
    s.target.namespaces = vec![];
    s.target.label_selector = None;
    s
}

#[test]
fn valid_spec_sets_not_yet_reconciled() {
    let now = ts(Utc::now());
    let status = desired_status(&valid_spec(), now, None);

    assert_eq!(status.conditions.len(), 1);
    let c = &status.conditions[0];
    assert_eq!(c.condition_type, READY);
    assert_eq!(c.status, STATUS_FALSE);
    assert_eq!(c.reason.as_deref(), Some(REASON_NOT_YET_RECONCILED));
    assert!(c.message.as_deref().unwrap().contains("feature 003"));
    assert_eq!(status.last_reconciled_at, Some(dt(now).to_rfc3339()));
}

#[test]
fn invalid_spec_sets_invalid_spec_reason() {
    let now = ts(Utc::now());
    let status = desired_status(&invalid_spec(), now, None);

    let c = &status.conditions[0];
    assert_eq!(c.reason.as_deref(), Some(REASON_INVALID_SPEC));
}

#[test]
fn empty_label_selector_string_still_invalid() {
    let mut spec = invalid_spec();
    spec.target.label_selector = Some("   ".to_string());
    let status = desired_status(&spec, ts(Utc::now()), None);
    assert_eq!(
        status.conditions[0].reason.as_deref(),
        Some(REASON_INVALID_SPEC),
    );
}

#[test]
fn idempotent_preserves_last_transition_time() {
    let earlier = ts(Utc::now() - ChronoDuration::seconds(60));
    let later = ts(Utc::now());

    let first = desired_status(&valid_spec(), earlier, None);
    let second = desired_status(&valid_spec(), later, Some(&first));

    assert_eq!(
        first.conditions[0].last_transition_time, second.conditions[0].last_transition_time,
        "lastTransitionTime should not advance when reconciling unchanged spec",
    );
    assert_ne!(first.last_reconciled_at, second.last_reconciled_at);
    assert_eq!(second.last_reconciled_at, Some(dt(later).to_rfc3339()));
}

#[test]
fn transition_updates_last_transition_time() {
    let earlier = ts(Utc::now() - ChronoDuration::seconds(60));
    let later = ts(Utc::now());

    let first = desired_status(&valid_spec(), earlier, None);
    let second = desired_status(&invalid_spec(), later, Some(&first));

    assert_ne!(first.conditions[0].reason, second.conditions[0].reason);
    assert_eq!(
        second.conditions[0].last_transition_time,
        Some(dt(later).to_rfc3339()),
        "lastTransitionTime should advance when reason changes",
    );
}

#[test]
fn preserves_unrelated_status_fields() {
    let now = ts(Utc::now());
    let mut existing = desired_status(&valid_spec(), now, None);
    existing.last_scan_completed_at = Some("2026-01-01T00:00:00Z".to_string());

    let later = desired_status(&valid_spec(), ts(Utc::now()), Some(&existing));
    assert_eq!(
        later.last_scan_completed_at.as_deref(),
        Some("2026-01-01T00:00:00Z"),
        "lastScanCompletedAt should pass through",
    );
}

#[test]
fn t022_spawned_maps_to_scanning_with_distinct_image_count_in_message() {
    let now = ts(Utc::now());
    let base = desired_status(&valid_spec(), now, None);
    let result = OrchestrationResult::Spawned { distinct_images: 3 };
    let out = status_with_orchestration_result(base, None, &result, now);

    assert_eq!(out.conditions.len(), 1);
    let cond = &out.conditions[0];
    assert_eq!(cond.condition_type, READY);
    assert_eq!(cond.status, STATUS_FALSE);
    assert_eq!(cond.reason.as_deref(), Some(REASON_SCANNING));
    let msg = cond.message.as_deref().unwrap_or("");
    assert!(
        msg.contains('3') && msg.contains("images"),
        "message should mention image count + 'images': {msg}",
    );
}

#[test]
fn t022_spawned_singular_message_for_one_image() {
    let now = ts(Utc::now());
    let base = desired_status(&valid_spec(), now, None);
    let result = OrchestrationResult::Spawned { distinct_images: 1 };
    let out = status_with_orchestration_result(base, None, &result, now);
    let msg = out.conditions[0].message.as_deref().unwrap_or("");
    assert!(
        msg.contains("1 distinct image ")
            || msg.ends_with("1 distinct image across target namespaces"),
        "singular wording expected, got: {msg}",
    );
}

#[test]
fn t022_no_images_in_scope_maps_to_distinct_reason() {
    let now = ts(Utc::now());
    let base = desired_status(&valid_spec(), now, None);
    let result = OrchestrationResult::NoImagesInScope;
    let out = status_with_orchestration_result(base, None, &result, now);
    assert_eq!(
        out.conditions[0].reason.as_deref(),
        Some(REASON_NO_IMAGES_IN_SCOPE),
    );
    assert!(out.conditions[0]
        .message
        .as_deref()
        .unwrap_or("")
        .contains("Running"));
}

#[test]
fn t022_build_failed_message_names_image_and_error() {
    let now = ts(Utc::now());
    let base = desired_status(&valid_spec(), now, None);
    let result = OrchestrationResult::BuildFailed {
        image_ref: "ghcr.io/example:bad".to_string(),
        error: "spec.output.type=Pvc requires spec.output.pvc.claimName to be non-empty"
            .to_string(),
    };
    let out = status_with_orchestration_result(base, None, &result, now);
    assert_eq!(
        out.conditions[0].reason.as_deref(),
        Some(REASON_BUILD_FAILED)
    );
    let msg = out.conditions[0].message.as_deref().unwrap_or("");
    assert!(
        msg.contains("ghcr.io/example:bad") && msg.contains("claimName"),
        "message must name failing image + builder error verbatim: {msg}",
    );
}

#[test]
fn t022_rbac_insufficient_message_names_verb_and_namespace() {
    let now = ts(Utc::now());
    let base = desired_status(&valid_spec(), now, None);
    let result = OrchestrationResult::RbacInsufficient {
        verb_resource: "list pods".to_string(),
        namespace: Some("prod".to_string()),
        message: "pods is forbidden: User cannot list resource".to_string(),
    };
    let out = status_with_orchestration_result(base, None, &result, now);
    assert_eq!(
        out.conditions[0].reason.as_deref(),
        Some(REASON_RBAC_INSUFFICIENT),
    );
    let msg = out.conditions[0].message.as_deref().unwrap_or("");
    assert!(
        msg.contains("list pods") && msg.contains("prod"),
        "message must name verb+namespace+kube error: {msg}",
    );
    assert!(
        msg.contains("pods is forbidden"),
        "message must include the kube ErrorResponse.message verbatim: {msg}",
    );
}

#[test]
fn t022_rbac_insufficient_no_namespace_falls_back_to_verb_only() {
    let now = ts(Utc::now());
    let base = desired_status(&valid_spec(), now, None);
    let result = OrchestrationResult::RbacInsufficient {
        verb_resource: "create batch/v1.jobs".to_string(),
        namespace: None,
        message: "jobs.batch is forbidden".to_string(),
    };
    let out = status_with_orchestration_result(base, None, &result, now);
    let msg = out.conditions[0].message.as_deref().unwrap_or("");
    assert!(
        msg.contains("create batch/v1.jobs") && msg.contains("jobs.batch is forbidden"),
        "namespace-less RBAC message should still carry verb_resource + kube message: {msg}",
    );
}

#[test]
fn t022_preserves_last_transition_time_when_reason_unchanged() {
    let earlier = ts(Utc::now() - ChronoDuration::seconds(60));
    let later = ts(Utc::now());
    let base_earlier = desired_status(&valid_spec(), earlier, None);
    let first = status_with_orchestration_result(
        base_earlier,
        None,
        &OrchestrationResult::Spawned { distinct_images: 2 },
        earlier,
    );

    let base_later = desired_status(&valid_spec(), later, Some(&first));
    let second = status_with_orchestration_result(
        base_later,
        Some(&first),
        &OrchestrationResult::Spawned { distinct_images: 2 },
        later,
    );

    assert_eq!(
        first.conditions[0].last_transition_time, second.conditions[0].last_transition_time,
        "lastTransitionTime stays put when (Ready=False, Scanning) is unchanged",
    );
}

#[test]
fn t022_advances_last_transition_time_when_reason_changes() {
    let earlier = ts(Utc::now() - ChronoDuration::seconds(60));
    let later = ts(Utc::now());
    let base_earlier = desired_status(&valid_spec(), earlier, None);
    let first = status_with_orchestration_result(
        base_earlier,
        None,
        &OrchestrationResult::NoImagesInScope,
        earlier,
    );

    let base_later = desired_status(&valid_spec(), later, Some(&first));
    let second = status_with_orchestration_result(
        base_later,
        Some(&first),
        &OrchestrationResult::Spawned { distinct_images: 1 },
        later,
    );

    assert_eq!(
        second.conditions[0].last_transition_time,
        Some(dt(later).to_rfc3339()),
        "lastTransitionTime must advance when reason changes (NoImagesInScope → Scanning)",
    );
}

fn scanned(image_ref: &str, completed_at: &str, sbom_location: &str) -> ScannedImage {
    ScannedImage {
        image_ref: image_ref.to_string(),
        resolved_sha: None,
        sbom_location: sbom_location.to_string(),
        completed_at: completed_at.to_string(),
    }
}

fn at(seconds: i64) -> Timestamp {
    Timestamp::new(seconds, 0).unwrap()
}

fn scanning(now: Timestamp, existing: Option<&NamespaceScanStatus>) -> NamespaceScanStatus {
    status_with_orchestration_result(
        desired_status(&valid_spec(), now, existing),
        existing,
        &OrchestrationResult::Spawned { distinct_images: 1 },
        now,
    )
}

#[test]
fn schedule_that_cannot_be_followed_is_invalid() {
    let mut spec = valid_spec();
    spec.schedule.interval = Some("1h".to_string());
    let c = desired_status(&spec, at(0), None).conditions.remove(0);
    assert_eq!(c.reason.as_deref(), Some(REASON_INVALID_SPEC));
    assert_eq!(
        c.message.as_deref(),
        Some("spec.schedule has both cron and interval set; exactly one is required"),
    );
    spec.target.namespaces = vec![];
    let c = desired_status(&spec, at(0), None).conditions.remove(0);
    assert_eq!(
        c.message.as_deref(),
        Some("spec.target requires either namespaces or labelSelector to be non-empty"),
    );
}

#[test]
fn label_selector_makes_a_target_valid() {
    let mut spec = invalid_spec();
    assert!(!is_target_valid(&spec.target));
    spec.target.label_selector = Some("app=web".to_string());
    assert!(is_target_valid(&spec.target));
    assert!(is_target_valid(&valid_spec().target));
}

#[test]
fn times_are_written_in_rfc3339() {
    let now = Timestamp::new(1_782_741_600, 120_000_000).unwrap();
    let status = desired_status(&valid_spec(), now, None);
    assert_eq!(
        status.last_reconciled_at.as_deref(),
        Some("2026-06-29T14:00:00.120+00:00"),
    );
    let leap = Timestamp::new(1_782_741_599, 1_500_000_000).unwrap();
    let status = desired_status(&valid_spec(), leap, None);
    assert_eq!(
        status.last_reconciled_at.as_deref(),
        Some("2026-06-29T13:59:60.500+00:00"),
    );
}

#[test]
fn first_ready_condition_counts() {
    let condition = |kind: &str, since: &str| StatusCondition {
        condition_type: kind.to_string(),
        status: STATUS_FALSE.to_string(),
        reason: Some(REASON_NOT_YET_RECONCILED.to_string()),
        message: None,
        last_transition_time: Some(since.to_string()),
    };
    let existing = NamespaceScanStatus {
        conditions: vec![condition("Other", "a"), condition(READY, "b"), condition(READY, "c")],
        next_scheduled_scan_at: Some("next".to_string()),
        ..Default::default()
    };
    let status = desired_status(&valid_spec(), at(0), Some(&existing));
    assert_eq!(status.conditions.len(), 1);
    assert_eq!(status.conditions[0].last_transition_time.as_deref(), Some("b"));
    assert_eq!(status.next_scheduled_scan_at.as_deref(), Some("next"));
}

#[test]
fn messages_name_what_they_are_about() {
    let (reason, message) = report_orchestration(&OrchestrationResult::BuildFailed {
        image_ref: "a\"b\n".to_string(),
        error: "no".to_string(),
    });
    assert_eq!(reason, REASON_BUILD_FAILED);
    assert_eq!(message, "failed to build scan Job for image \"a\\\"b\\n\": no");
    assert_eq!(build_failed_message("x", "y"), "failed to build scan Job for image x: y");
    let (_, message) = report_orchestration(&OrchestrationResult::Spawned { distinct_images: 12 });
    assert_eq!(message, "scanning 12 distinct images across target namespaces");
    let (_, message) = report_orchestration(&OrchestrationResult::Spawned { distinct_images: 1 });
    assert_eq!(message, "scanning 1 distinct image across target namespaces");
    let (_, message) = report_orchestration(&OrchestrationResult::RbacInsufficient {
        verb_resource: "list pods".to_string(),
        namespace: Some("prod".to_string()),
        message: "no".to_string(),
    });
    assert_eq!(message, "operator lacks RBAC to list pods in namespace prod: no");
}

#[test]
fn running_jobs_leave_the_status_alone() {
    let base = scanning(at(0), None);
    let after =
        status_with_aggregated_outcome(base.clone(), None, &AggregatedOutcome::StillRunning, at(5));
    assert_eq!(after, base);
}

#[test]
fn failed_job_is_named() {
    let base = scanning(at(0), None);
    let outcome = AggregatedOutcome::AnyFailed {
        image_ref: "nginx:1.27.0".to_string(),
    };
    let after = status_with_aggregated_outcome(base, None, &outcome, at(5));
    let c = &after.conditions[0];
    assert_eq!(c.status, STATUS_FALSE);
    assert_eq!(c.reason.as_deref(), Some(REASON_SCAN_FAILED));
    assert_eq!(
        c.message.as_deref(),
        Some("scan Job for image \"nginx:1.27.0\" failed after exhausting its retries"),
    );
    assert_eq!(after.last_scan_completed_at, None);
    assert_eq!(failed_message("x"), "scan Job for image x failed after exhausting its retries");
}

#[test]
fn completed_scan_is_ready_and_on_record() {
    let outcome = AggregatedOutcome::AllSucceeded {
        scanned: vec![scanned("redis", "t2", "pvc://r"), scanned("nginx", "t1", "pvc://n")],
    };
    let first = status_with_aggregated_outcome(scanning(at(0), None), None, &outcome, at(0));
    let c = &first.conditions[0];
    assert_eq!(first.conditions.len(), 1);
    assert_eq!(c.condition_type, READY);
    assert_eq!(c.status, STATUS_TRUE);
    assert_eq!(c.reason.as_deref(), Some(REASON_SCAN_COMPLETED));
    assert_eq!(c.message.as_deref(), Some("scanned 2 distinct images successfully"));
    assert_eq!(
        first.last_scan_completed_at.as_deref(),
        Some("1970-01-01T00:00:00+00:00"),
    );
    assert_eq!(
        first.scanned_images,
        vec![scanned("nginx", "t1", "pvc://n"), scanned("redis", "t2", "pvc://r")],
    );

    let base = scanning(at(60), Some(&first));
    let second = status_with_aggregated_outcome(base, Some(&first), &outcome, at(60));
    assert_eq!(second.last_scan_completed_at, first.last_scan_completed_at);
    assert_eq!(second.conditions, first.conditions);
    assert_eq!(
        second.last_reconciled_at.as_deref(),
        Some("1970-01-01T00:01:00+00:00"),
    );
}

#[test]
fn record_is_not_rewritten_without_a_new_scan() {
    let mut existing = scanning(at(0), None);
    existing.scanned_images = vec![scanned("nginx", "t1", "pvc://team-a/n")];
    let outcome = AggregatedOutcome::AllSucceeded {
        scanned: vec![
            scanned("nginx", "t1", "pvc://team-b/n"),
            scanned("alpine", "t2", "pvc://team-b/a"),
        ],
    };
    let base = scanning(at(9), Some(&existing));
    let after = status_with_aggregated_outcome(base, Some(&existing), &outcome, at(9));
    assert_eq!(
        after.scanned_images,
        vec![
            scanned("alpine", "t2", "pvc://team-b/a"),
            scanned("nginx", "t1", "pvc://team-a/n"),
        ],
    );
    let again = AggregatedOutcome::AllSucceeded {
        scanned: vec![scanned("nginx", "t3", "pvc://team-b/n")],
    };
    let base = scanning(at(10), Some(&after));
    let after = status_with_aggregated_outcome(base, Some(&after), &again, at(10));
    assert_eq!(after.scanned_images[1], scanned("nginx", "t3", "pvc://team-b/n"));
    assert_eq!(
        after.conditions[0].message.as_deref(),
        Some("scanned 1 distinct image successfully"),
    );
}
