//! What the operator reports about a `NamespaceScan`.
use crate::crds::namespace_scan::{
    NamespaceScanSpec, NamespaceScanStatus, NamespaceScanStatusView, ScannedImage,
    ScannedImageView, StatusCondition, StatusConditionView, Target,
};
use crate::reconcile::scan_orchestrator::{OrchestrationResult, OrchestrationResultView};
use crate::reconcile::scheduler::{self, parse_schedule};
use crate::reconcile::status_aggregator::{
    self, merge_scanned_images_append_only, AggregatedOutcome, AggregatedOutcomeView,
};
use crate::scan_job;
use crate::text::{self, option_text_eq, push_decimal, quote, text_eq};
use crate::text_map;
use crate::time::{self, to_rfc3339, Timestamp};
use vstd::prelude::*;
use vstd::string::StringExecFns;

verus! {

/// The type of the one condition.
pub const READY: &'static str = "Ready";

/// The status of a condition that does not hold.
pub const STATUS_FALSE: &'static str = "False";

/// The status of a condition that holds.
pub const STATUS_TRUE: &'static str = "True";

/// Nothing has been done about the resource yet.
pub const REASON_NOT_YET_RECONCILED: &'static str = "NotYetReconciled";

/// The specification of the resource is invalid.
pub const REASON_INVALID_SPEC: &'static str = "InvalidSpec";

/// There are Jobs for the images.
pub const REASON_SCANNING: &'static str = "Scanning";

/// There is nothing to scan.
pub const REASON_NO_IMAGES_IN_SCOPE: &'static str = "NoImagesInScope";

/// The operator was denied what it needs.
pub const REASON_RBAC_INSUFFICIENT: &'static str = "RBACInsufficient";

/// No Job can be built from the specification.
pub const REASON_BUILD_FAILED: &'static str = "BuildFailed";

/// Every Job has succeeded.
pub const REASON_SCAN_COMPLETED: &'static str = "ScanCompleted";

/// A Job has failed for good.
pub const REASON_SCAN_FAILED: &'static str = "ScanFailed";

/// What is said when nothing has been done about the resource yet.
pub const MESSAGE_NOT_YET_RECONCILED: &'static str = "Scanning not yet implemented; mikebom-operator feature 003 introduces the Job spec.";

/// What is said about an invalid target.
pub const MESSAGE_INVALID_SPEC: &'static str = "spec.target requires either namespaces or labelSelector to be non-empty";

/// A target names namespaces or has a label selector that is not blank.
pub open spec fn target_valid(target: Target) -> bool {
    target.namespaces@.len() > 0 || scan_job::given(target.label_selector)
}

/// Whether a target names namespaces or has a label selector that is not blank.
pub fn is_target_valid(target: &Target) -> (r: bool)
    ensures
        r == target_valid(*target),
{
    if target.namespaces.len() > 0 {
        return true;
    }
    if let Some(selector) = &target.label_selector {
        if !selector.as_str().trim().is_empty() {
            return true;
        }
    }
    false
}

/// An instant as text.
pub open spec fn time_text(t: Timestamp) -> Seq<char> {
    time::rfc3339_text(t.seconds(), t.nanos())
}

/// The first condition of type `Ready`.
pub open spec fn ready_condition(
    conditions: Seq<StatusConditionView>,
) -> Option<StatusConditionView>
    decreases conditions.len(),
{
    if conditions.len() == 0 {
        None
    } else if conditions.first().condition_type == READY@ {
        Some(conditions.first())
    } else {
        ready_condition(conditions.drop_first())
    }
}

/// Since when the existing `Ready` condition has had this status and this reason, if it has them
/// and says so.
pub open spec fn reported_since(
    existing: Option<NamespaceScanStatusView>,
    status: Seq<char>,
    reason: Seq<char>,
) -> Option<Seq<char>> {
    let ready = match existing {
        Some(existing) => ready_condition(existing.conditions),
        None => None,
    };
    match ready {
        Some(condition) => if condition.status == status && condition.reason == Some(reason) {
            condition.last_transition_time
        } else {
            None
        },
        None => None,
    }
}

/// Since when a status and a reason are reported: for as long as they have been, or from `now` on.
pub open spec fn transition_time(
    existing: Option<NamespaceScanStatusView>,
    status: Seq<char>,
    reason: Seq<char>,
    now: Timestamp,
) -> Seq<char> {
    match reported_since(existing, status, reason) {
        Some(since) => since,
        None => time_text(now),
    }
}

/// The `Ready` condition with a status, a reason and a message.
pub open spec fn ready_as(
    status: Seq<char>,
    reason: Seq<char>,
    message: Seq<char>,
    since: Seq<char>,
) -> StatusConditionView {
    StatusConditionView {
        condition_type: READY@,
        status,
        reason: Some(reason),
        message: Some(message),
        last_transition_time: Some(since),
    }
}

/// The reason and the message for a specification before anything has been done about it.
pub open spec fn verdict(spec: NamespaceScanSpec) -> (Seq<char>, Seq<char>) {
    if !target_valid(spec.target) {
        (REASON_INVALID_SPEC@, MESSAGE_INVALID_SPEC@)
    } else {
        match scheduler::schedule_of(spec.schedule) {
            Ok(_) => (REASON_NOT_YET_RECONCILED@, MESSAGE_NOT_YET_RECONCILED@),
            Err(e) => (REASON_INVALID_SPEC@, e.text()),
        }
    }
}

/// The status of a resource before anything has been done about it: not ready, reconciled now, and
/// otherwise as it was.
pub open spec fn base_status(
    spec: NamespaceScanSpec,
    now: Timestamp,
    existing: Option<NamespaceScanStatusView>,
) -> NamespaceScanStatusView {
    let (reason, message) = verdict(spec);
    NamespaceScanStatusView {
        conditions: seq![
            ready_as(
                STATUS_FALSE@,
                reason,
                message,
                transition_time(existing, STATUS_FALSE@, reason, now),
            ),
        ],
        last_reconciled_at: Some(time_text(now)),
        last_scan_completed_at: match existing {
            Some(existing) => existing.last_scan_completed_at,
            None => None,
        },
        scanned_images: match existing {
            Some(existing) => existing.scanned_images,
            None => Seq::empty(),
        },
        next_scheduled_scan_at: match existing {
            Some(existing) => existing.next_scheduled_scan_at,
            None => None,
        },
    }
}

fn find_ready(conditions: &Vec<StatusCondition>) -> (r: Option<&StatusCondition>)
    ensures
        r.deep_view() == ready_condition(conditions.deep_view()),
{
    let ghost views = conditions.deep_view();
    let mut i: usize = 0;
    assert(views.skip(0) =~= views);
    while i < conditions.len()
        invariant
            i <= conditions.len(),
            views == conditions.deep_view(),
            ready_condition(views) == ready_condition(views.skip(i as int)),
        decreases conditions.len() - i,
    {
        assert(views.skip(i as int).first() == conditions@[i as int].deep_view());
        assert(views.skip(i as int).drop_first() =~= views.skip(i + 1));
        if text_eq(conditions[i].condition_type.as_str(), READY) {
            return Some(&conditions[i]);
        }
        i += 1;
    }
    None
}

fn find_transition_time(
    existing: Option<&NamespaceScanStatus>,
    status: &str,
    reason: &str,
    now: &Timestamp,
) -> (r: String)
    ensures
        r@ == transition_time(existing.deep_view(), status@, reason@, *now),
        reported_since(existing.deep_view(), status@, reason@) is None && now.writable()
            ==> time::rfc3339_instant(r@) == Some(now.parts()),
{
    if let Some(existing) = existing {
        if let Some(condition) = find_ready(&existing.conditions) {
            if text_eq(condition.status.as_str(), status) && option_text_eq(
                &condition.reason,
                reason,
            ) {
                if let Some(since) = &condition.last_transition_time {
                    return since.clone();
                }
            }
        }
    }
    to_rfc3339(now)
}

fn make_conditions(status: &str, reason: &str, message: String, since: String) -> (r: Vec<
    StatusCondition,
>)
    ensures
        r.deep_view() == seq![ready_as(status@, reason@, message@, since@)],
{
    let conditions = vec![
        StatusCondition {
            condition_type: READY.to_owned(),
            status: status.to_owned(),
            reason: Some(reason.to_owned()),
            message: Some(message),
            last_transition_time: Some(since),
        },
    ];
    assert(conditions.deep_view() =~= seq![ready_as(status@, reason@, message@, since@)]);
    conditions
}

/// Computes the status of a resource before anything has been done about it.
///
/// There is exactly one condition, `Ready`, and it is `False`. `lastReconciledAt` is `now`.
/// `lastTransitionTime` is kept as long as status and reason do not change. The rest is passed
/// through.
pub fn desired_status(
    spec: &NamespaceScanSpec,
    now: Timestamp,
    existing: Option<&NamespaceScanStatus>,
) -> (r: NamespaceScanStatus)
    ensures
        r.deep_view() == base_status(*spec, now, existing.deep_view()),
        now.writable() ==> time::rfc3339_instant(r.last_reconciled_at->0@) == Some(now.parts()),
{
    let (reason, message) = if !is_target_valid(&spec.target) {
        (REASON_INVALID_SPEC, MESSAGE_INVALID_SPEC.to_owned())
    } else {
        match parse_schedule(&spec.schedule) {
            Ok(_) => (REASON_NOT_YET_RECONCILED, MESSAGE_NOT_YET_RECONCILED.to_owned()),
            Err(e) => (REASON_INVALID_SPEC, e.message()),
        }
    };
    let since = find_transition_time(existing, STATUS_FALSE, reason, &now);
    let conditions = make_conditions(STATUS_FALSE, reason, message, since);
    let last_reconciled_at = Some(to_rfc3339(&now));
    match existing {
        Some(existing) => {
            let scanned_images = existing.scanned_images.clone();
            assert(scanned_images.deep_view() =~= existing.scanned_images.deep_view());
            NamespaceScanStatus {
                conditions,
                last_reconciled_at,
                last_scan_completed_at: existing.last_scan_completed_at.clone(),
                scanned_images,
                next_scheduled_scan_at: existing.next_scheduled_scan_at.clone(),
            }
        },
        None => {
            let scanned_images: Vec<ScannedImage> = Vec::new();
            assert(scanned_images.deep_view() =~= Seq::empty());
            NamespaceScanStatus {
                conditions,
                last_reconciled_at,
                last_scan_completed_at: None,
                scanned_images,
                next_scheduled_scan_at: None,
            }
        },
    }
}

/// `image`, in the plural unless there is one.
pub open spec fn images_noun(n: nat) -> Seq<char> {
    if n == 1 {
        "image"@
    } else {
        "images"@
    }
}

fn push_images_noun(text: &mut String, n: usize)
    ensures
        final(text)@ == old(text)@ + images_noun(n as nat),
{
    text.append(
        if n == 1 {
            "image"
        } else {
            "images"
        },
    );
}

/// What is said when no Job can be built for an image that is shown in this way.
pub open spec fn build_failed_text(shown_image: Seq<char>, error: Seq<char>) -> Seq<char> {
    "failed to build scan Job for image "@ + shown_image + ": "@ + error
}

/// Says that no Job can be built for an image that is shown in this way.
pub fn build_failed_message(shown_image: &str, error: &str) -> (r: String)
    ensures
        r@ == build_failed_text(shown_image@, error@),
{
    let mut message = "failed to build scan Job for image ".to_owned();
    message.append(shown_image);
    message.append(": ");
    message.append(error);
    message
}

/// The reason and the message for what came of an orchestration.
pub open spec fn orchestration_report(result: OrchestrationResultView) -> (Seq<char>, Seq<char>) {
    match result {
        OrchestrationResultView::Spawned { distinct_images } =>
            (
                REASON_SCANNING@,
                "scanning "@ + text::decimal(distinct_images) + " distinct "@ + images_noun(
                    distinct_images,
                ) + " across target namespaces"@,
            ),
        OrchestrationResultView::NoImagesInScope => (
            REASON_NO_IMAGES_IN_SCOPE@,
            "target resolved to zero pods in phase Running or Pending"@,
        ),
        OrchestrationResultView::BuildFailed {
            image_ref,
            error,
        } => (
            REASON_BUILD_FAILED@,
            build_failed_text(text::quoted(image_ref), error),
        ),
        OrchestrationResultView::RbacInsufficient {
            verb_resource,
            namespace,
            message,
        } => (
            REASON_RBAC_INSUFFICIENT@,
            match namespace {
                Some(ns) => "operator lacks RBAC to "@ + verb_resource + " in namespace "@ + ns
                    + ": "@ + message,
                None => "operator lacks RBAC to "@ + verb_resource + ": "@ + message,
            },
        ),
    }
}

/// A status with another condition: not ready, for this reason.
pub open spec fn not_ready(
    base: NamespaceScanStatusView,
    existing: Option<NamespaceScanStatusView>,
    reason: Seq<char>,
    message: Seq<char>,
    now: Timestamp,
) -> NamespaceScanStatusView {
    NamespaceScanStatusView {
        conditions: seq![
            ready_as(
                STATUS_FALSE@,
                reason,
                message,
                transition_time(existing, STATUS_FALSE@, reason, now),
            ),
        ],
        ..base
    }
}

/// Makes the reason and the message for what came of an orchestration.
pub fn report_orchestration(result: &OrchestrationResult) -> (r: (&'static str, String))
    ensures
        (r.0@, r.1@) == orchestration_report(result.deep_view()),
{
    match result {
        OrchestrationResult::Spawned { distinct_images } => {
            let mut message = "scanning ".to_owned();
            push_decimal(&mut message, *distinct_images);
            message.append(" distinct ");
            push_images_noun(&mut message, *distinct_images);
            message.append(" across target namespaces");
            (REASON_SCANNING, message)
        },
        OrchestrationResult::NoImagesInScope => (
            REASON_NO_IMAGES_IN_SCOPE,
            "target resolved to zero pods in phase Running or Pending".to_owned(),
        ),
        OrchestrationResult::BuildFailed { image_ref, error } => {
            (
                REASON_BUILD_FAILED,
                build_failed_message(quote(image_ref.as_str()).as_str(), error.as_str()),
            )
        },
        OrchestrationResult::RbacInsufficient { verb_resource, namespace, message } => {
            let mut text = "operator lacks RBAC to ".to_owned();
            text.append(verb_resource.as_str());
            if let Some(ns) = namespace {
                text.append(" in namespace ");
                text.append(ns.as_str());
            }
            text.append(": ");
            text.append(message.as_str());
            (REASON_RBAC_INSUFFICIENT, text)
        },
    }
}

/// Reports what came of an orchestration: a status with the reason for it, not ready, and otherwise
/// as `base` is.
pub fn status_with_orchestration_result(
    base: NamespaceScanStatus,
    existing: Option<&NamespaceScanStatus>,
    result: &OrchestrationResult,
    now: Timestamp,
) -> (r: NamespaceScanStatus)
    ensures
        ({
            let (reason, message) = orchestration_report(result.deep_view());
            r.deep_view() == not_ready(base.deep_view(), existing.deep_view(), reason, message, now)
        }),
{
    let (reason, message) = report_orchestration(result);
    let since = find_transition_time(existing, STATUS_FALSE, reason, &now);
    NamespaceScanStatus {
        conditions: make_conditions(STATUS_FALSE, reason, message, since),
        last_reconciled_at: base.last_reconciled_at,
        last_scan_completed_at: base.last_scan_completed_at,
        scanned_images: base.scanned_images,
        next_scheduled_scan_at: base.next_scheduled_scan_at,
    }
}

// ---------------------------------------------------------------------------------------------
// Reporting what Jobs have come to.
// ---------------------------------------------------------------------------------------------

/// An image is on record with the same time of completion.
pub open spec fn recorded(entries: Seq<ScannedImageView>, image: ScannedImageView) -> bool {
    exists|i: int|
        0 <= i < entries.len() && (#[trigger] entries[i]).image_ref == image.image_ref
            && entries[i].completed_at == image.completed_at
}

/// The scanned images that are not yet on record.
pub open spec fn newly_completed(
    entries: Seq<ScannedImageView>,
    scanned: Seq<ScannedImageView>,
) -> Seq<ScannedImageView>
    decreases scanned.len(),
{
    if scanned.len() == 0 {
        Seq::empty()
    } else {
        let front = newly_completed(entries, scanned.drop_last());
        if recorded(entries, scanned.last()) {
            front
        } else {
            front.push(scanned.last())
        }
    }
}

/// The message for a scan of so many images.
pub open spec fn completed_message(n: nat) -> Seq<char> {
    "scanned "@ + text::decimal(n) + " distinct "@ + images_noun(n) + " successfully"@
}

/// The message for a scan that failed on an image that is shown in this way.
pub open spec fn failed_text(shown_image: Seq<char>) -> Seq<char> {
    "scan Job for image "@ + shown_image + " failed after exhausting its retries"@
}

/// Says that a scan failed on an image that is shown in this way.
pub fn failed_message(shown_image: &str) -> (r: String)
    ensures
        r@ == failed_text(shown_image@),
{
    let mut message = "scan Job for image ".to_owned();
    message.append(shown_image);
    message.append(" failed after exhausting its retries");
    message
}

/// `after` is what `base` becomes when every Job has succeeded: ready, with the images that were
/// scanned on record, and the scan completed when that was first reported.
pub open spec fn completed(
    base: NamespaceScanStatusView,
    existing: Option<NamespaceScanStatusView>,
    scanned: Seq<ScannedImageView>,
    now: Timestamp,
    after: NamespaceScanStatusView,
) -> bool {
    let since = transition_time(existing, STATUS_TRUE@, REASON_SCAN_COMPLETED@, now);
    &&& after == NamespaceScanStatusView {
        conditions: seq![
            ready_as(STATUS_TRUE@, REASON_SCAN_COMPLETED@, completed_message(scanned.len()), since),
        ],
        last_scan_completed_at: Some(since),
        scanned_images: after.scanned_images,
        ..base
    }
    &&& status_aggregator::is_merge(
        base.scanned_images + newly_completed(base.scanned_images, scanned),
        after.scanned_images,
    )
}

/// `after` is what `base` becomes by what the Jobs have come to.
pub open spec fn aggregated(
    base: NamespaceScanStatusView,
    existing: Option<NamespaceScanStatusView>,
    outcome: AggregatedOutcomeView,
    now: Timestamp,
    after: NamespaceScanStatusView,
) -> bool {
    match outcome {
        AggregatedOutcomeView::StillRunning => after == base,
        AggregatedOutcomeView::AnyFailed { image_ref } => after
            == not_ready(base, existing, REASON_SCAN_FAILED@, failed_text(text::quoted(image_ref)), now),
        AggregatedOutcomeView::AllSucceeded { scanned } =>
            completed(base, existing, scanned, now, after),
    }
}

fn is_recorded(entries: &Vec<ScannedImage>, image: &ScannedImage) -> (r: bool)
    ensures
        r == recorded(entries.deep_view(), image.deep_view()),
{
    let mut i: usize = 0;
    while i < entries.len()
        invariant
            i <= entries.len(),
            forall|j: int|
                0 <= j < i ==> !((#[trigger] entries.deep_view()[j]).image_ref == image.image_ref@
                    && entries.deep_view()[j].completed_at == image.completed_at@),
        decreases entries.len() - i,
    {
        if text_eq(entries[i].image_ref.as_str(), image.image_ref.as_str()) && text_eq(
            entries[i].completed_at.as_str(),
            image.completed_at.as_str(),
        ) {
            assert(entries.deep_view()[i as int].image_ref == image.image_ref@);
            return true;
        }
        i += 1;
    }
    false
}

fn select_newly_completed(entries: &Vec<ScannedImage>, scanned: &Vec<ScannedImage>) -> (r: Vec<
    ScannedImage,
>)
    ensures
        r.deep_view() == newly_completed(entries.deep_view(), scanned.deep_view()),
{
    let ghost views = scanned.deep_view();
    let mut selected: Vec<ScannedImage> = Vec::new();
    let mut i: usize = 0;
    assert(selected.deep_view() =~= newly_completed(entries.deep_view(), views.take(0)));
    while i < scanned.len()
        invariant
            i <= scanned.len(),
            views == scanned.deep_view(),
            selected.deep_view() == newly_completed(entries.deep_view(), views.take(i as int)),
        decreases scanned.len() - i,
    {
        let ghost before = selected.deep_view();
        proof {
            assert(views.take(i + 1).drop_last() =~= views.take(i as int));
            assert(views.take(i + 1).last() == scanned@[i as int].deep_view());
        }
        if !is_recorded(entries, &scanned[i]) {
            selected.push(scanned[i].clone());
            assert(selected.deep_view() =~= before.push(scanned@[i as int].deep_view()));
        }
        i += 1;
    }
    assert(views.take(i as int) =~= views);
    selected
}

/// Reports what the Jobs of a resource have come to.
///
/// While they are running, `base` stays as it is. A failure makes the status not ready. When all of
/// them have succeeded, the status is ready, and the images that were scanned are put on record. An
/// entry that is on record with the same time of completion is left alone.
pub fn status_with_aggregated_outcome(
    base: NamespaceScanStatus,
    existing: Option<&NamespaceScanStatus>,
    outcome: &AggregatedOutcome,
    now: Timestamp,
) -> (r: NamespaceScanStatus)
    ensures
        aggregated(base.deep_view(), existing.deep_view(), outcome.deep_view(), now, r.deep_view()),
        outcome is AllSucceeded && reported_since(
            existing.deep_view(),
            STATUS_TRUE@,
            REASON_SCAN_COMPLETED@,
        ) is None && now.writable() ==> time::rfc3339_instant(
            r.last_scan_completed_at->0@,
        ) == Some(now.parts()),
{
    match outcome {
        AggregatedOutcome::StillRunning => base,
        AggregatedOutcome::AnyFailed { image_ref } => {
            let message = failed_message(quote(image_ref.as_str()).as_str());
            let since = find_transition_time(existing, STATUS_FALSE, REASON_SCAN_FAILED, &now);
            NamespaceScanStatus {
                conditions: make_conditions(STATUS_FALSE, REASON_SCAN_FAILED, message, since),
                last_reconciled_at: base.last_reconciled_at,
                last_scan_completed_at: base.last_scan_completed_at,
                scanned_images: base.scanned_images,
                next_scheduled_scan_at: base.next_scheduled_scan_at,
            }
        },
        AggregatedOutcome::AllSucceeded { scanned } => {
            let mut message = "scanned ".to_owned();
            push_decimal(&mut message, scanned.len());
            message.append(" distinct ");
            push_images_noun(&mut message, scanned.len());
            message.append(" successfully");
            let since = find_transition_time(existing, STATUS_TRUE, REASON_SCAN_COMPLETED, &now);
            let fresh = select_newly_completed(&base.scanned_images, scanned);
            let scanned_images = merge_scanned_images_append_only(
                base.scanned_images.as_slice(),
                fresh,
            );
            NamespaceScanStatus {
                conditions: make_conditions(
                    STATUS_TRUE,
                    REASON_SCAN_COMPLETED,
                    message,
                    since.clone(),
                ),
                last_reconciled_at: base.last_reconciled_at,
                last_scan_completed_at: Some(since),
                scanned_images,
                next_scheduled_scan_at: base.next_scheduled_scan_at,
            }
        },
    }
}

// ---------------------------------------------------------------------------------------------
// Laws.
// ---------------------------------------------------------------------------------------------

/// Before anything has been done about a resource there is exactly one condition, `Ready=False`,
/// the time of reconciling is `now`, and the record of scans is passed through.
pub proof fn base_status_is_not_ready(
    spec: NamespaceScanSpec,
    now: Timestamp,
    existing: Option<NamespaceScanStatusView>,
)
    ensures
        ({
            let status = base_status(spec, now, existing);
            &&& status.conditions.len() == 1
            &&& status.conditions[0].condition_type == READY@
            &&& status.conditions[0].status == STATUS_FALSE@
            &&& status.last_reconciled_at == Some(time_text(now))
            &&& existing matches Some(before) ==> status.last_scan_completed_at
                == before.last_scan_completed_at && status.scanned_images == before.scanned_images
        }),
{
}

/// A specification is reported as invalid exactly if its target is, or its schedule cannot be
/// followed.
pub proof fn invalid_spec_is_reported(
    spec: NamespaceScanSpec,
    now: Timestamp,
    existing: Option<NamespaceScanStatusView>,
)
    ensures
        base_status(spec, now, existing).conditions[0].reason == Some(REASON_INVALID_SPEC@)
            <==> !target_valid(spec.target) || scheduler::schedule_of(
            spec.schedule,
        ) is Err,
{
    reveal_strlit("InvalidSpec");
    reveal_strlit("NotYetReconciled");
    assert(REASON_INVALID_SPEC@.len() == 11);
    assert(REASON_NOT_YET_RECONCILED@.len() == 16);
}

/// The time of transition is kept as long as status and reason stay the same, however often and
/// with whatever message they are reported.
pub proof fn transition_time_is_kept(
    before: NamespaceScanStatusView,
    status: Seq<char>,
    reason: Seq<char>,
    message: Seq<char>,
    since: Seq<char>,
    now: Timestamp,
)
    requires
        before.conditions == seq![ready_as(status, reason, message, since)],
    ensures
        transition_time(Some(before), status, reason, now) == since,
{
    assert(before.conditions.first().condition_type == READY@);
}

/// The time of transition is `now` when status or reason change, and when there was none before.
pub proof fn transition_time_advances(
    before: NamespaceScanStatusView,
    old_status: Seq<char>,
    old_reason: Seq<char>,
    message: Seq<char>,
    since: Seq<char>,
    status: Seq<char>,
    reason: Seq<char>,
    now: Timestamp,
)
    requires
        before.conditions == seq![ready_as(old_status, old_reason, message, since)],
        old_status != status || old_reason != reason,
    ensures
        transition_time(Some(before), status, reason, now) == time_text(now),
        transition_time(None, status, reason, now) == time_text(now),
{
    assert(before.conditions.first().condition_type == READY@);
}

/// Reconciling an unchanged specification again moves the time of reconciling and nothing else.
pub proof fn reconciling_again_changes_one_time(
    spec: NamespaceScanSpec,
    earlier: Timestamp,
    later: Timestamp,
    existing: Option<NamespaceScanStatusView>,
)
    ensures
        base_status(spec, later, Some(base_status(spec, earlier, existing))) == (
        NamespaceScanStatusView {
            last_reconciled_at: Some(time_text(later)),
            ..base_status(spec, earlier, existing)
        }),
{
    let first = base_status(spec, earlier, existing);
    let (reason, message) = verdict(spec);
    transition_time_is_kept(
        first,
        STATUS_FALSE@,
        reason,
        message,
        transition_time(existing, STATUS_FALSE@, reason, earlier),
        later,
    );
}

/// Over two reconcilings, of specifications that may differ, the time of transition is that of the
/// first as long as the reason stays the same, and that of the second otherwise.
pub proof fn transition_time_follows_the_reason(
    first_spec: NamespaceScanSpec,
    second_spec: NamespaceScanSpec,
    earlier: Timestamp,
    later: Timestamp,
)
    ensures
        ({
            let first = base_status(first_spec, earlier, None);
            let second = base_status(second_spec, later, Some(first));
            &&& first.conditions[0].last_transition_time == Some(time_text(earlier))
            &&& second.conditions[0].last_transition_time == Some(
                time_text(
                    if first.conditions[0].reason == second.conditions[0].reason {
                        earlier
                    } else {
                        later
                    },
                ),
            )
            &&& second.last_reconciled_at == Some(time_text(later))
        }),
{
    let first = base_status(first_spec, earlier, None);
    assert(first.conditions.first() == first.conditions[0]);
    assert(ready_condition(first.conditions) == Some(first.conditions[0]));
}

/// Whatever comes of an orchestration, the status has exactly one condition, `Ready=False`, and the
/// times and the record of scans are passed through.
pub proof fn orchestration_leaves_the_record(
    base: NamespaceScanStatusView,
    existing: Option<NamespaceScanStatusView>,
    result: OrchestrationResultView,
    now: Timestamp,
)
    ensures
        ({
            let (reason, message) = orchestration_report(result);
            let after = not_ready(base, existing, reason, message, now);
            &&& after.conditions.len() == 1
            &&& after.conditions[0].condition_type == READY@
            &&& after.conditions[0].status == STATUS_FALSE@
            &&& after.last_reconciled_at == base.last_reconciled_at
            &&& after.last_scan_completed_at == base.last_scan_completed_at
            &&& after.scanned_images == base.scanned_images
        }),
{
}

/// A status is ready exactly if every Job has succeeded, as long as it was not ready before the
/// Jobs were looked at.
pub proof fn ready_takes_every_job(
    base: NamespaceScanStatusView,
    existing: Option<NamespaceScanStatusView>,
    outcome: AggregatedOutcomeView,
    now: Timestamp,
    after: NamespaceScanStatusView,
)
    requires
        aggregated(base, existing, outcome, now, after),
        base.conditions.len() == 1,
        base.conditions[0].status == STATUS_FALSE@,
    ensures
        after.conditions.len() == 1,
        after.conditions[0].status == STATUS_TRUE@ <==> outcome is AllSucceeded,
{
    reveal_strlit("True");
    reveal_strlit("False");
    assert(STATUS_TRUE@.len() == 4);
    assert(STATUS_FALSE@.len() == 5);
}

/// The time at which a scan was completed is the time at which that was first reported: it stays
/// the same as long as the scan is reported as completed.
pub proof fn completion_time_is_kept(
    base: NamespaceScanStatusView,
    existing: Option<NamespaceScanStatusView>,
    scanned: Seq<ScannedImageView>,
    now: Timestamp,
    first: NamespaceScanStatusView,
    base2: NamespaceScanStatusView,
    scanned2: Seq<ScannedImageView>,
    later: Timestamp,
    second: NamespaceScanStatusView,
)
    requires
        completed(base, existing, scanned, now, first),
        completed(base2, Some(first), scanned2, later, second),
    ensures
        second.last_scan_completed_at == first.last_scan_completed_at,
        second.conditions[0].last_transition_time == first.conditions[0].last_transition_time,
{
    transition_time_is_kept(
        first,
        STATUS_TRUE@,
        REASON_SCAN_COMPLETED@,
        completed_message(scanned.len()),
        transition_time(existing, STATUS_TRUE@, REASON_SCAN_COMPLETED@, now),
        later,
    );
}

/// What the Jobs have come to determines the status.
pub proof fn report_is_unique(
    base: NamespaceScanStatusView,
    existing: Option<NamespaceScanStatusView>,
    outcome: AggregatedOutcomeView,
    now: Timestamp,
    a: NamespaceScanStatusView,
    b: NamespaceScanStatusView,
)
    requires
        aggregated(base, existing, outcome, now, a),
        aggregated(base, existing, outcome, now, b),
    ensures
        a == b,
{
    if let AggregatedOutcomeView::AllSucceeded { scanned } = outcome {
        status_aggregator::merge_is_unique(
            base.scanned_images + newly_completed(base.scanned_images, scanned),
            a.scanned_images,
            b.scanned_images,
        );
    }
}

/// No image is ever dropped from the record.
pub proof fn record_is_append_only(
    base: NamespaceScanStatusView,
    existing: Option<NamespaceScanStatusView>,
    outcome: AggregatedOutcomeView,
    now: Timestamp,
    after: NamespaceScanStatusView,
    image: Seq<char>,
)
    requires
        aggregated(base, existing, outcome, now, after),
        status_aggregator::entry_images(base.scanned_images).contains(image),
    ensures
        status_aggregator::entry_images(after.scanned_images).contains(image),
{
    if let AggregatedOutcomeView::AllSucceeded { scanned } = outcome {
        status_aggregator::merge_is_append_only(
            base.scanned_images,
            newly_completed(base.scanned_images, scanned),
            after.scanned_images,
            image,
        );
    }
}

/// An entry on record is kept, location included, as long as its image was not scanned again: every
/// Job that tells the same image tells the same time of completion. So an edit of the output does
/// not change what is on record.
pub proof fn record_survives_edits(
    base: NamespaceScanStatusView,
    existing: Option<NamespaceScanStatusView>,
    scanned: Seq<ScannedImageView>,
    now: Timestamp,
    after: NamespaceScanStatusView,
    i: int,
)
    requires
        completed(base, existing, scanned, now, after),
        0 <= i < base.scanned_images.len(),
        text_map::ascending(status_aggregator::entry_images(base.scanned_images)),
        forall|j: int|
            0 <= j < scanned.len() && (#[trigger] scanned[j]).image_ref
                == base.scanned_images[i].image_ref ==> scanned[j].completed_at
                == base.scanned_images[i].completed_at,
    ensures
        after.scanned_images.contains(base.scanned_images[i]),
{
    let entries = base.scanned_images;
    let image = entries[i].image_ref;
    let fresh = newly_completed(entries, scanned);
    lemma_not_newly_completed(entries, scanned, i);
    lemma_latest_of_ascending(entries, i);
    assert(status_aggregator::entry_images(entries)[i] == image);
    record_is_append_only(
        base,
        existing,
        AggregatedOutcomeView::AllSucceeded { scanned },
        now,
        after,
        image,
    );
    let images = status_aggregator::entry_images(after.scanned_images);
    let k = images.index_of(image);
    assert(after.scanned_images[k].image_ref == image);
    status_aggregator::newest_entry_wins(entries, fresh, after.scanned_images, k);
    assert(after.scanned_images[k] == entries[i]);
}

proof fn lemma_not_newly_completed(
    entries: Seq<ScannedImageView>,
    scanned: Seq<ScannedImageView>,
    i: int,
)
    requires
        0 <= i < entries.len(),
        forall|j: int|
            0 <= j < scanned.len() && (#[trigger] scanned[j]).image_ref == entries[i].image_ref
                ==> scanned[j].completed_at == entries[i].completed_at,
    ensures
        status_aggregator::latest_entry(
            newly_completed(entries, scanned),
            entries[i].image_ref,
        ) is None,
    decreases scanned.len(),
{
    if scanned.len() > 0 {
        let front = scanned.drop_last();
        assert forall|j: int|
            0 <= j < front.len() && (#[trigger] front[j]).image_ref
                == entries[i].image_ref implies front[j].completed_at == entries[i].completed_at by {
            assert(scanned[j] == front[j]);
        }
        lemma_not_newly_completed(entries, front, i);
        let last = scanned.last();
        assert(scanned[scanned.len() - 1] == last);
        if last.image_ref == entries[i].image_ref {
            assert(recorded(entries, last));
        }
        if !recorded(entries, last) {
            assert(newly_completed(entries, scanned).drop_last() =~= newly_completed(
                entries,
                front,
            ));
        }
    }
}

proof fn lemma_latest_of_ascending(entries: Seq<ScannedImageView>, i: int)
    requires
        0 <= i < entries.len(),
        text_map::ascending(status_aggregator::entry_images(entries)),
    ensures
        status_aggregator::latest_entry(entries, entries[i].image_ref) == Some(entries[i]),
    decreases entries.len(),
{
    let images = status_aggregator::entry_images(entries);
    let front = entries.drop_last();
    if i < entries.len() - 1 {
        assert(text::text_lt(images[i], images[entries.len() - 1]));
        text::text_lt_irreflexive(images[i]);
        assert(text_map::ascending(status_aggregator::entry_images(front))) by {
            let shorter = status_aggregator::entry_images(front);
            assert forall|p: int, q: int| 0 <= p < q < shorter.len() implies #[trigger]
                text::text_lt(shorter[p], shorter[q]) by {
                assert(text::text_lt(images[p], images[q]));
            }
        }
        lemma_latest_of_ascending(front, i);
    }
}

/// No image is scanned by more than one Job.
pub open spec fn images_differ(scanned: Seq<ScannedImageView>) -> bool {
    forall|i: int, j: int|
        0 <= i < j < scanned.len() ==> (#[trigger] scanned[i]).image_ref != (
        #[trigger] scanned[j]).image_ref
}

/// Reporting a completed scan again, after the same Jobs, changes neither the condition nor the
/// record nor the time of completion.
pub proof fn reporting_a_completed_scan_again_changes_nothing(
    base: NamespaceScanStatusView,
    existing: Option<NamespaceScanStatusView>,
    scanned: Seq<ScannedImageView>,
    now: Timestamp,
    first: NamespaceScanStatusView,
    base2: NamespaceScanStatusView,
    later: Timestamp,
    second: NamespaceScanStatusView,
)
    requires
        completed(base, existing, scanned, now, first),
        text_map::ascending(status_aggregator::entry_images(base.scanned_images)),
        images_differ(scanned),
        base2.scanned_images == first.scanned_images,
        completed(base2, Some(first), scanned, later, second),
    ensures
        second.conditions == first.conditions,
        second.last_scan_completed_at == first.last_scan_completed_at,
        second.scanned_images == first.scanned_images,
{
    completion_time_is_kept(base, existing, scanned, now, first, base2, scanned, later, second);
    assert(second.conditions =~= first.conditions);
    let record = first.scanned_images;
    assert forall|j: int| 0 <= j < scanned.len() implies recorded(record, #[trigger] scanned[j]) by {
        lemma_scanned_is_recorded(base.scanned_images, scanned, record, j);
    }
    lemma_nothing_newly_completed(record, scanned);
    assert(record + newly_completed(record, scanned) =~= record);
    assert(status_aggregator::is_merge(record, record)) by {
        assert forall|image: Seq<char>| #[trigger]
            status_aggregator::entry_images(record).contains(image)
                <==> status_aggregator::latest_entry(record, image) is Some by {
            status_aggregator::latest_entry_is_found(record, image);
        }
        assert forall|i: int| 0 <= i < record.len() implies Some(#[trigger] record[i])
            == status_aggregator::latest_entry(record, record[i].image_ref) by {
            lemma_latest_of_ascending(record, i);
        }
    }
    status_aggregator::merge_is_unique(record, record, second.scanned_images);
}

proof fn lemma_nothing_newly_completed(
    entries: Seq<ScannedImageView>,
    scanned: Seq<ScannedImageView>,
)
    requires
        forall|j: int| 0 <= j < scanned.len() ==> recorded(entries, #[trigger] scanned[j]),
    ensures
        newly_completed(entries, scanned) == Seq::<ScannedImageView>::empty(),
    decreases scanned.len(),
{
    if scanned.len() > 0 {
        let front = scanned.drop_last();
        assert forall|j: int| 0 <= j < front.len() implies recorded(entries, #[trigger] front[j]) by {
            assert(front[j] == scanned[j]);
        }
        lemma_nothing_newly_completed(entries, front);
        assert(recorded(entries, scanned[scanned.len() - 1]));
    }
}

/// The newly completed entry for an image that one Job has scanned, unless it is on record.
proof fn lemma_newly_completed_entry(
    entries: Seq<ScannedImageView>,
    scanned: Seq<ScannedImageView>,
    j: int,
)
    requires
        images_differ(scanned),
        0 <= j < scanned.len(),
    ensures
        status_aggregator::latest_entry(newly_completed(entries, scanned), scanned[j].image_ref)
            == if recorded(entries, scanned[j]) {
            None
        } else {
            Some(scanned[j])
        },
    decreases scanned.len(),
{
    let front = scanned.drop_last();
    let last = scanned.last();
    let image = scanned[j].image_ref;
    assert(images_differ(front)) by {
        assert forall|p: int, q: int| 0 <= p < q < front.len() implies (
        #[trigger] front[p]).image_ref != (#[trigger] front[q]).image_ref by {
            assert(scanned[p].image_ref != scanned[q].image_ref);
        }
    }
    let before = newly_completed(entries, front);
    if !recorded(entries, last) {
        assert(newly_completed(entries, scanned).drop_last() =~= before);
    }
    if j < scanned.len() - 1 {
        assert(scanned[j].image_ref != scanned[scanned.len() - 1].image_ref);
        lemma_newly_completed_entry(entries, front, j);
    } else {
        assert forall|p: int| 0 <= p < front.len() implies (#[trigger] front[p]).image_ref
            != image by {
            assert(scanned[p].image_ref != scanned[j].image_ref);
        }
        lemma_no_entry(entries, front, image);
    }
}

proof fn lemma_no_entry(
    entries: Seq<ScannedImageView>,
    scanned: Seq<ScannedImageView>,
    image: Seq<char>,
)
    ensures
        (forall|p: int| 0 <= p < scanned.len() ==> (#[trigger] scanned[p]).image_ref != image)
            ==> status_aggregator::latest_entry(newly_completed(entries, scanned), image) is None,
    decreases scanned.len(),
{
    if scanned.len() > 0 && forall|p: int|
        0 <= p < scanned.len() ==> (#[trigger] scanned[p]).image_ref != image {
        let front = scanned.drop_last();
        assert forall|p: int| 0 <= p < front.len() implies (#[trigger] front[p]).image_ref
            != image by {
            assert(scanned[p].image_ref != image);
        }
        lemma_no_entry(entries, front, image);
        assert(scanned[scanned.len() - 1].image_ref != image);
        if !recorded(entries, scanned.last()) {
            assert(newly_completed(entries, scanned).drop_last() =~= newly_completed(
                entries,
                front,
            ));
        }
    }
}

proof fn lemma_scanned_is_recorded(
    entries: Seq<ScannedImageView>,
    scanned: Seq<ScannedImageView>,
    record: Seq<ScannedImageView>,
    j: int,
)
    requires
        text_map::ascending(status_aggregator::entry_images(entries)),
        images_differ(scanned),
        status_aggregator::is_merge(entries + newly_completed(entries, scanned), record),
        0 <= j < scanned.len(),
    ensures
        recorded(record, scanned[j]),
{
    let image = scanned[j].image_ref;
    let fresh = newly_completed(entries, scanned);
    lemma_newly_completed_entry(entries, scanned, j);
    let found = if recorded(entries, scanned[j]) {
        let i = choose|i: int|
            0 <= i < entries.len() && (#[trigger] entries[i]).image_ref == image
                && entries[i].completed_at == scanned[j].completed_at;
        lemma_latest_of_ascending(entries, i);
        assert(status_aggregator::entry_images(entries)[i] == image);
        entries[i]
    } else {
        status_aggregator::latest_entry_is_found(fresh, image);
        scanned[j]
    };
    status_aggregator::merge_is_append_only(entries, fresh, record, image);
    let k = status_aggregator::entry_images(record).index_of(image);
    assert(record[k].image_ref == image);
    status_aggregator::newest_entry_wins(entries, fresh, record, k);
    assert(record[k] == found);
}

} // verus!
