//! Reconciling a `NamespaceScan`, step by step.
//!
//! The specification is judged; for a valid one, Jobs are ensured, and what they have come to is
//! reported. When a scan has come to an end and the schedule asks for the next one, the Jobs that
//! are done are deleted, so that the next reconciling creates fresh ones.
use crate::crds::namespace_scan::{NamespaceScan, NamespaceScanStatus, NamespaceScanStatusView};
use crate::digest;
use crate::k8s::Job;
use crate::kube::KubeError;
use crate::reconcile::scan_orchestrator::{
    CrMetaSnapshot, OrchestrationError, OrchestrationResult, OrchestrationResultView,
};
use crate::reconcile::scheduler::{
    self, compute_next_scheduled_time, cr_uid_jitter_seconds, is_schedule_due,
    next_scheduled_time, parse_schedule, Cleanup, CleanupView,
};
use crate::reconcile::status_aggregator::{self, aggregate_job_outcomes_at};
use crate::status::{
    self, desired_status, status_with_aggregated_outcome, status_with_orchestration_result,
    REASON_INVALID_SPEC, REASON_SCAN_COMPLETED, REASON_SCAN_FAILED,
};
use crate::text::option_text_eq;
use crate::time::{self, parse_rfc3339, signed_duration_since, to_rfc3339, Span, Timestamp};
use vstd::prelude::*;
use vstd::string::StringExecFns;

verus! {

/// How often a resource is reconciled if nothing else asks for it.
pub const REQUEUE_INTERVAL_SECONDS: u64 = 300;

/// How long to wait after an error.
pub const ERROR_REQUEUE_SECONDS: u64 = 60;

/// How long to wait after Jobs were deleted for the next scan.
pub const RESCAN_REQUEUE_SECONDS: u64 = 5;

/// Why reconciling ended early.
#[derive(Debug)]
pub enum ReconcileError {
    Kube(KubeError),
}

impl ReconcileError {
    /// What the error says.
    pub fn message(&self) -> (r: String)
        ensures
            r@ == "kube API error: "@ + self->Kube_0.text@,
    {
        match self {
            ReconcileError::Kube(e) => {
                let mut text = "kube API error: ".to_owned();
                text.append(e.text.as_str());
                text
            },
        }
    }
}

impl From<OrchestrationError> for ReconcileError {
    fn from(err: OrchestrationError) -> (r: Self) {
        match err {
            OrchestrationError::Kube(e) => ReconcileError::Kube(e),
        }
    }
}

impl vstd::std_specs::convert::FromSpecImpl<OrchestrationError> for ReconcileError {
    open spec fn obeys_from_spec() -> bool {
        true
    }

    open spec fn from_spec(err: OrchestrationError) -> Self {
        ReconcileError::Kube(err->Kube_0)
    }
}

/// What the controller does after reconciling.
#[derive(Debug, PartialEq, Eq)]
pub enum ControllerAction {
    /// Wait until the resource changes.
    AwaitChange,
    /// Reconcile again after this time.
    Requeue(Span),
}

/// Decides what to do after an error. A resource that is gone needs nothing; anything else is tried
/// again.
pub fn error_policy(err: &ReconcileError) -> (r: ControllerAction)
    ensures
        match r {
            ControllerAction::AwaitChange => err->Kube_0.answered(404),
            ControllerAction::Requeue(span) => !err->Kube_0.answered(404) && span.deep_view() == (
                ERROR_REQUEUE_SECONDS,
                0u32,
            ),
        },
{
    match err {
        ReconcileError::Kube(e) => if e.has_code(404) {
            ControllerAction::AwaitChange
        } else {
            ControllerAction::Requeue(Span::from_secs(ERROR_REQUEUE_SECONDS))
        },
    }
}

// ---------------------------------------------------------------------------------------------
// The schedule.
// ---------------------------------------------------------------------------------------------

/// When the next scan is due.
#[verifier::ext_equal]
pub ghost enum NextScan {
    /// The schedule cannot be followed.
    Unscheduled,
    /// At this point in time, in seconds and nanoseconds.
    At(int, int),
    /// The schedule asks for no further scan before the calendar ends.
    Never,
}

/// The time from which the schedule counts: that of the last completed scan, else that at which the
/// resource was created, else `now`.
pub open spec fn anchor_of(
    completed: Option<Seq<char>>,
    created: Option<Timestamp>,
    now: Timestamp,
) -> (i64, u32) {
    let last_scan = match completed {
        Some(text) => time::rfc3339_instant(text),
        None => None,
    };
    match (last_scan, created) {
        (Some(instant), _) => instant,
        (None, Some(t)) => t.parts(),
        (None, None) => now.parts(),
    }
}

/// The delay of a resource: by its `uid`, or by the empty text if it has none.
pub open spec fn jitter_of(uid: Option<Seq<char>>) -> (u64, u32) {
    let text = match uid {
        Some(uid) => uid,
        None => Seq::empty(),
    };
    (scheduler::digest_jitter(digest::text_sha256(text)) as u64, 0)
}

/// When the next scan of a resource is due.
pub open spec fn next_scan(
    obj: NamespaceScan,
    completed: Option<Seq<char>>,
    now: Timestamp,
) -> NextScan {
    match scheduler::schedule_of(obj.spec.schedule) {
        Err(_) => NextScan::Unscheduled,
        Ok(schedule) => match scheduler::next_time(
            schedule,
            anchor_of(completed, obj.metadata.creation_timestamp, now),
            jitter_of(obj.metadata.uid.deep_view()),
        ) {
            Some((seconds, nanos)) => NextScan::At(seconds, nanos),
            None => NextScan::Never,
        },
    }
}

/// Whether a point in time has come or has passed.
pub open spec fn reached(point: (int, int), now: Timestamp) -> bool {
    point.0 < now.seconds() || (point.0 == now.seconds() && point.1 <= now.nanos())
}

/// A decision that goes by when the next scan is due: that time if there is one, and whether it has
/// come.
pub open spec fn decides(
    scan: NextScan,
    now: Timestamp,
    decision: (Option<Timestamp>, bool),
) -> bool {
    match scan {
        NextScan::At(seconds, nanos) => {
            &&& scheduler::point_of(decision.0) == Some((seconds, nanos))
            &&& decision.1 == reached((seconds, nanos), now)
        },
        NextScan::Unscheduled => decision.0 is None && !decision.1,
        NextScan::Never => false,
    }
}

/// A decision whose time for the next scan, if there is one, lies after a point in time.
pub open spec fn decides_after(anchor: (i64, u32), decision: (Option<Timestamp>, bool)) -> bool {
    decision.0 matches Some(next) ==> anchor.0 < next.seconds() || (anchor.0 == next.seconds()
        && anchor.1 < next.nanos())
}

/// The time from which the schedule counts, by what was read of the time of the last scan.
pub fn choose_anchor(
    last_scan: Option<Timestamp>,
    created: Option<Timestamp>,
    now: Timestamp,
) -> (r: Timestamp)
    ensures
        r == match (last_scan, created) {
            (Some(t), _) => t,
            (None, Some(t)) => t,
            (None, None) => now,
        },
{
    match (last_scan, created) {
        (Some(t), _) => t,
        (None, Some(t)) => t,
        (None, None) => now,
    }
}

fn read_time(text: &Option<String>) -> (r: Option<Timestamp>)
    ensures
        match r {
            Some(t) => *text is Some && time::rfc3339_instant(text->0@) == Some(t.parts()),
            None => *text is Some ==> time::rfc3339_instant(text->0@) is None,
        },
{
    match text {
        Some(text) => parse_rfc3339(text.as_str()),
        None => None,
    }
}

fn find_anchor(
    completed: &Option<String>,
    created: &Option<Timestamp>,
    now: Timestamp,
) -> (r: Timestamp)
    ensures
        r.parts() == anchor_of(completed.deep_view(), *created, now),
{
    choose_anchor(read_time(completed), *created, now)
}

fn find_jitter(uid: &Option<String>) -> (r: Span)
    ensures
        r.deep_view() == jitter_of(uid.deep_view()),
{
    let seconds = match uid {
        Some(uid) => cr_uid_jitter_seconds(uid.as_str()),
        None => {
            let nobody = String::new();
            assert(nobody@ =~= Seq::empty());
            cr_uid_jitter_seconds(nobody.as_str())
        },
    };
    Span::from_secs(seconds)
}

/// Decides when the next scan of a resource is due, and whether that is now. That time lies after
/// the one from which the schedule counts. Without a schedule that can be followed there is no such
/// time.
pub fn schedule_decision(
    obj: &NamespaceScan,
    new_status: &NamespaceScanStatus,
    now: Timestamp,
) -> (r: (Option<Timestamp>, bool))
    requires
        next_scan(*obj, new_status.last_scan_completed_at.deep_view(), now) !is Never,
    ensures
        decides(next_scan(*obj, new_status.last_scan_completed_at.deep_view(), now), now, r),
        decides_after(
            anchor_of(
                new_status.last_scan_completed_at.deep_view(),
                obj.metadata.creation_timestamp,
                now,
            ),
            r,
        ),
{
    proof {
        scheduler::intervals_last_a_minute(obj.spec.schedule);
    }
    let schedule = match parse_schedule(&obj.spec.schedule) {
        Ok(schedule) => schedule,
        Err(_) => {
            return (None, false);
        },
    };
    let anchor = find_anchor(
        &new_status.last_scan_completed_at,
        &obj.metadata.creation_timestamp,
        now,
    );
    let jitter = find_jitter(&obj.metadata.uid);
    let next_scheduled = compute_next_scheduled_time(&schedule, anchor, jitter);
    let due = is_schedule_due(next_scheduled, now);
    (Some(next_scheduled), due)
}

/// Decides when the next scan of a resource is due, and whether that is now; nothing, if the
/// schedule asks for no further scan before the calendar ends.
pub fn try_schedule_decision(
    obj: &NamespaceScan,
    new_status: &NamespaceScanStatus,
    now: Timestamp,
) -> (r: Option<(Option<Timestamp>, bool)>)
    ensures
        match r {
            Some(decision) => decides(
                next_scan(*obj, new_status.last_scan_completed_at.deep_view(), now),
                now,
                decision,
            ),
            None => next_scan(*obj, new_status.last_scan_completed_at.deep_view(), now) is Never,
        },
        r matches Some(decision) ==> decides_after(
            anchor_of(
                new_status.last_scan_completed_at.deep_view(),
                obj.metadata.creation_timestamp,
                now,
            ),
            decision,
        ),
{
    if let Ok(schedule) = parse_schedule(&obj.spec.schedule) {
        let anchor = find_anchor(
            &new_status.last_scan_completed_at,
            &obj.metadata.creation_timestamp,
            now,
        );
        let jitter = find_jitter(&obj.metadata.uid);
        if next_scheduled_time(&schedule, anchor, jitter).is_none() {
            return None;
        }
    }
    Some(schedule_decision(obj, new_status, now))
}

/// After how many seconds and nanoseconds to reconcile again, if the next scan is due at an instant:
/// a second after it if that is less than a minute away, and otherwise after the usual time.
pub open spec fn requeue_until(next: Option<(i64, u32)>, now: Timestamp) -> (int, int) {
    match next {
        Some(instant) => {
            let second = time::NANOS_PER_SECOND as int;
            let wait = time::nanos_between(instant, now.parts());
            if 0 < wait < 60 * second {
                (wait / second + 1, wait % second)
            } else {
                (REQUEUE_INTERVAL_SECONDS as int, 0)
            }
        },
        None => (REQUEUE_INTERVAL_SECONDS as int, 0),
    }
}

/// After how many seconds and nanoseconds to reconcile again, by the time that is reported for the
/// next scan.
pub open spec fn requeue_after(next_scheduled: Option<Seq<char>>, now: Timestamp) -> (int, int) {
    requeue_until(
        match next_scheduled {
            Some(text) => time::rfc3339_instant(text),
            None => None,
        },
        now,
    )
}

/// Computes after what time to reconcile again, if the next scan is due at an instant.
pub fn requeue_interval(next: Option<Timestamp>, now: Timestamp) -> (r: Span)
    ensures
        (r.seconds() as int, r.nanos() as int) == requeue_until(
            match next {
                Some(t) => Some(t.parts()),
                None => None,
            },
            now,
        ),
{
    if let Some(next) = next {
        let (seconds, nanos) = signed_duration_since(&next, &now);
        if (seconds > 0 || nanos > 0) && seconds < 60 {
            return Span::new(seconds as u64 + 1, nanos as u32);
        }
    }
    Span::from_secs(REQUEUE_INTERVAL_SECONDS)
}

/// Computes after what time to reconcile again, by the time that is reported for the next scan.
pub fn next_requeue_interval(new_status: &NamespaceScanStatus, now: Timestamp) -> (r: Span)
    ensures
        (r.seconds() as int, r.nanos() as int) == requeue_after(
            new_status.next_scheduled_scan_at.deep_view(),
            now,
        ),
{
    requeue_interval(read_time(&new_status.next_scheduled_scan_at), now)
}

// ---------------------------------------------------------------------------------------------
// Reconciling, step by step.
// ---------------------------------------------------------------------------------------------

/// Where reconciling stands.
#[verifier::ext_equal]
pub ghost enum ReconcilePhase {
    /// Jobs are to be ensured. Until then this is the status.
    EnsureJobs { base: NamespaceScanStatusView },
    /// The Jobs of the resource are to be listed, to see what they have come to.
    ListForStatus { status: NamespaceScanStatusView },
    /// The Jobs of the resource are to be listed, to delete those that are done.
    ListForRescan { status: NamespaceScanStatusView },
    /// Jobs that are done are to be deleted.
    CleanUp {
        status: NamespaceScanStatusView,
        cleanup: CleanupView,
    },
    /// The status is to be written, and the resource reconciled again after this time.
    PatchStatus {
        status: NamespaceScanStatusView,
        requeue: (int, int),
    },
    /// The resource is to be reconciled again after this time.
    Finished { requeue: (int, int) },
    /// A call has failed.
    Failed { error: KubeError },
    /// The schedule asks for no further scan before the calendar ends.
    Aborted,
}

/// The reason of the first condition.
pub open spec fn first_reason(status: NamespaceScanStatusView) -> Option<Seq<char>> {
    if status.conditions.len() > 0 {
        status.conditions.first().reason
    } else {
        None
    }
}

/// A status that reports that a scan has come to an end.
pub open spec fn scan_ended(status: NamespaceScanStatusView) -> bool {
    first_reason(status) == Some(REASON_SCAN_COMPLETED@) || first_reason(status) == Some(
        REASON_SCAN_FAILED@,
    )
}

/// Writes a status.
pub open spec fn write_status(status: NamespaceScanStatusView, now: Timestamp) -> ReconcilePhase {
    ReconcilePhase::PatchStatus {
        status,
        requeue: requeue_after(status.next_scheduled_scan_at, now),
    }
}

/// A status that reports when the next scan is due.
pub open spec fn scheduled_at(
    status: NamespaceScanStatusView,
    seconds: i64,
    nanos: u32,
) -> NamespaceScanStatusView {
    NamespaceScanStatusView {
        next_scheduled_scan_at: Some(time::rfc3339_text(seconds, nanos)),
        ..status
    }
}

/// Reports when the next scan is due. The time can be read back, if its year is one of 0 to 9999.
pub fn with_next_scan(status: NamespaceScanStatus, next: Timestamp) -> (r: NamespaceScanStatus)
    ensures
        r.deep_view() == scheduled_at(status.deep_view(), next.seconds(), next.nanos()),
        next.writable() ==> time::rfc3339_instant(r.next_scheduled_scan_at->0@) == Some(
            next.parts(),
        ),
{
    NamespaceScanStatus {
        conditions: status.conditions,
        last_reconciled_at: status.last_reconciled_at,
        last_scan_completed_at: status.last_scan_completed_at,
        scanned_images: status.scanned_images,
        next_scheduled_scan_at: Some(to_rfc3339(&next)),
    }
}

/// Goes on when it is known what to report. Only if a scan has come to an end does the schedule
/// come in: the time of the next scan is reported, and if it has come, the Jobs that are done make
/// way for it.
pub open spec fn settle(
    obj: NamespaceScan,
    now: Timestamp,
    status: NamespaceScanStatusView,
) -> ReconcilePhase {
    if scan_ended(status) {
        match next_scan(obj, status.last_scan_completed_at, now) {
            NextScan::Unscheduled => write_status(status, now),
            NextScan::Never => ReconcilePhase::Aborted,
            NextScan::At(seconds, nanos) => {
                let scheduled = scheduled_at(status, seconds as i64, nanos as u32);
                if reached((seconds, nanos), now) {
                    ReconcilePhase::ListForRescan { status: scheduled }
                } else {
                    write_status(scheduled, now)
                }
            },
        }
    } else {
        write_status(status, now)
    }
}

/// Jobs make way for the next scan only some time after the point from which the schedule counts: a
/// scan that was completed just now is not followed by another at once.
pub open spec fn rescans_later(obj: NamespaceScan, now: Timestamp, phase: ReconcilePhase) -> bool {
    phase matches ReconcilePhase::ListForRescan { status } ==> {
        let anchor = anchor_of(status.last_scan_completed_at, obj.metadata.creation_timestamp, now);
        anchor.0 < now.seconds() || (anchor.0 == now.seconds() && anchor.1 < now.nanos())
    }
}

/// How reconciling starts. An invalid specification, or a resource without a `uid`, is reported as
/// it is.
pub open spec fn first_reconcile_phase(obj: NamespaceScan, now: Timestamp) -> ReconcilePhase {
    let base = status::base_status(obj.spec, now, obj.status.deep_view());
    if first_reason(base) == Some(REASON_INVALID_SPEC@) || !has_uid(obj) {
        settle(obj, now, base)
    } else {
        ReconcilePhase::EnsureJobs { base }
    }
}

/// A resource with a `uid` that is not empty.
pub open spec fn has_uid(obj: NamespaceScan) -> bool {
    obj.metadata.uid matches Some(uid) && uid@.len() > 0
}

/// How reconciling goes on after Jobs were ensured. Only if there are Jobs, they are looked at. A
/// failure ends it.
pub open spec fn after_ensuring(
    obj: NamespaceScan,
    now: Timestamp,
    phase: ReconcilePhase,
    result: Result<OrchestrationResultView, KubeError>,
) -> ReconcilePhase
    recommends
        phase is EnsureJobs,
{
    match result {
        Err(error) => ReconcilePhase::Failed { error },
        Ok(result) => {
            let (reason, message) = status::orchestration_report(result);
            let status = status::not_ready(
                phase->base,
                obj.status.deep_view(),
                reason,
                message,
                now,
            );
            if result is Spawned {
                ReconcilePhase::ListForStatus { status }
            } else {
                settle(obj, now, status)
            }
        },
    }
}

/// What came of ensuring Jobs: the view of the result, or the failed call.
pub open spec fn ensuring_outcome(result: Result<OrchestrationResult, OrchestrationError>) -> Result<
    OrchestrationResultView,
    KubeError,
> {
    match result {
        Ok(result) => Ok(result.deep_view()),
        Err(e) => Err(e->Kube_0),
    }
}

/// Goes on with a cleanup, or writes the status if that is done.
pub open spec fn clean_up(status: NamespaceScanStatusView, cleanup: CleanupView) -> ReconcilePhase {
    if cleanup.pending.len() > 0 {
        ReconcilePhase::CleanUp { status, cleanup }
    } else {
        ReconcilePhase::PatchStatus { status, requeue: (RESCAN_REQUEUE_SECONDS as int, 0) }
    }
}

/// `next` is how reconciling goes on after the Jobs of the resource were listed at `clock`.
pub open spec fn after_listing_jobs(
    obj: NamespaceScan,
    now: Timestamp,
    phase: ReconcilePhase,
    result: Result<Vec<Job>, KubeError>,
    clock: Timestamp,
    next: ReconcilePhase,
) -> bool {
    match result {
        Err(error) => next == (ReconcilePhase::Failed { error }),
        Ok(jobs) => match phase {
            ReconcilePhase::ListForStatus { status } => exists|reported| #[trigger]
                status::aggregated(
                    status,
                    obj.status.deep_view(),
                    status_aggregator::outcome_of(jobs.deep_view(), obj.spec, clock),
                    now,
                    reported,
                ) && next == settle(obj, now, reported),
            ReconcilePhase::ListForRescan { status } => next == clean_up(
                status,
                CleanupView {
                    pending: scheduler::terminal_names(jobs.deep_view()),
                    deleted: 0,
                },
            ),
            _ => false,
        },
    }
}

/// How reconciling goes on after a Job was deleted.
pub open spec fn after_deleting(
    phase: ReconcilePhase,
    result: Result<(), KubeError>,
) -> ReconcilePhase
    recommends
        phase is CleanUp,
{
    match scheduler::after_deletion(phase->cleanup, result) {
        Ok(cleanup) => clean_up(phase->CleanUp_status, cleanup),
        Err(error) => ReconcilePhase::Failed { error },
    }
}

/// What is to be done next.
#[derive(Debug)]
pub enum ReconcileAction<'a> {
    /// Ensure that there is a Job for each image.
    EnsureJobs(&'a CrMetaSnapshot),
    /// List the Jobs of the resource of this name.
    ListOwnedJobs(&'a str),
    /// Delete this Job and its pods.
    DeleteJob(&'a str),
    /// Write this status.
    PatchStatus(&'a NamespaceScanStatus),
    /// Reconcile again after this time.
    Requeue(Span),
    /// Give up until the error policy says otherwise.
    Fail,
    /// Stop: there is no time at which to scan again.
    Abort,
}

#[derive(Debug)]
enum ReconcileStep {
    EnsureJobs { base: NamespaceScanStatus, cr_meta: CrMetaSnapshot },
    ListForStatus { status: NamespaceScanStatus },
    ListForRescan { status: NamespaceScanStatus },
    CleanUp { status: NamespaceScanStatus, cleanup: Cleanup },
    PatchStatus { status: NamespaceScanStatus, requeue: Span },
    Finished { requeue: Span },
    Failed { error: KubeError },
    Aborted,
}

/// Reconciling under way. It says what to do next and is told what came of it.
#[derive(Debug)]
pub struct Reconciliation<'a> {
    obj: &'a NamespaceScan,
    now: Timestamp,
    name: String,
    step: ReconcileStep,
}

/// The name of a resource, empty if it has none.
pub open spec fn name_of(obj: NamespaceScan) -> Seq<char> {
    match obj.metadata.name {
        Some(name) => name@,
        None => Seq::empty(),
    }
}

fn text_or_empty(text: &Option<String>) -> (r: String)
    ensures
        r@ == match *text {
            Some(text) => text@,
            None => Seq::empty(),
        },
{
    match text {
        Some(text) => text.clone(),
        None => String::new(),
    }
}

impl ReconcileStep {
    spec fn phase(self) -> ReconcilePhase {
        match self {
            ReconcileStep::EnsureJobs { base, .. } => ReconcilePhase::EnsureJobs {
                base: base.deep_view(),
            },
            ReconcileStep::ListForStatus { status } => ReconcilePhase::ListForStatus {
                status: status.deep_view(),
            },
            ReconcileStep::ListForRescan { status } => ReconcilePhase::ListForRescan {
                status: status.deep_view(),
            },
            ReconcileStep::CleanUp { status, cleanup } => ReconcilePhase::CleanUp {
                status: status.deep_view(),
                cleanup: cleanup@,
            },
            ReconcileStep::PatchStatus { status, requeue } => ReconcilePhase::PatchStatus {
                status: status.deep_view(),
                requeue: (requeue.seconds() as int, requeue.nanos() as int),
            },
            ReconcileStep::Finished { requeue } => ReconcilePhase::Finished {
                requeue: (requeue.seconds() as int, requeue.nanos() as int),
            },
            ReconcileStep::Failed { error } => ReconcilePhase::Failed { error },
            ReconcileStep::Aborted => ReconcilePhase::Aborted,
        }
    }
}

fn has_reason(status: &NamespaceScanStatus, reason: &str) -> (r: bool)
    ensures
        r == (first_reason(status.deep_view()) == Some(reason@)),
{
    if status.conditions.len() > 0 {
        assert(status.deep_view().conditions.first() == status.conditions@[0].deep_view());
        option_text_eq(&status.conditions[0].reason, reason)
    } else {
        false
    }
}

fn step_to_write(status: NamespaceScanStatus, now: Timestamp) -> (r: ReconcileStep)
    ensures
        r.phase() == write_status(status.deep_view(), now),
{
    let requeue = next_requeue_interval(&status, now);
    ReconcileStep::PatchStatus { status, requeue }
}

fn step_to_settle(obj: &NamespaceScan, now: Timestamp, status: NamespaceScanStatus) -> (r:
    ReconcileStep)
    ensures
        r.phase() == settle(*obj, now, status.deep_view()),
        rescans_later(*obj, now, r.phase()),
{
    if !has_reason(&status, REASON_SCAN_COMPLETED) && !has_reason(&status, REASON_SCAN_FAILED) {
        return step_to_write(status, now);
    }
    match try_schedule_decision(obj, &status, now) {
        None => ReconcileStep::Aborted,
        Some((None, _)) => step_to_write(status, now),
        Some((Some(next), due)) => {
            let scheduled = with_next_scan(status, next);
            if due {
                ReconcileStep::ListForRescan { status: scheduled }
            } else {
                step_to_write(scheduled, now)
            }
        },
    }
}

fn step_to_clean_up(status: NamespaceScanStatus, cleanup: Cleanup) -> (r: ReconcileStep)
    ensures
        r.phase() == clean_up(status.deep_view(), cleanup@),
{
    if cleanup.next_deletion().is_some() {
        ReconcileStep::CleanUp { status, cleanup }
    } else {
        ReconcileStep::PatchStatus { status, requeue: Span::from_secs(RESCAN_REQUEUE_SECONDS) }
    }
}

impl<'a> Reconciliation<'a> {
    #[verifier::type_invariant]
    spec fn inv(self) -> bool {
        &&& self.name@ == name_of(*self.obj)
        &&& match self.step {
            ReconcileStep::EnsureJobs { cr_meta, .. } => {
                &&& cr_meta.name@ == name_of(*self.obj)
                &&& Some(cr_meta.uid@) == self.obj.metadata.uid.deep_view()
                &&& cr_meta.namespace@ == match self.obj.metadata.namespace {
                    Some(namespace) => namespace@,
                    None => Seq::empty(),
                }
            },
            ReconcileStep::CleanUp { cleanup, .. } => cleanup@.pending.len() > 0,
            _ => true,
        }
    }

    /// The resource that is reconciled.
    pub closed spec fn obj(self) -> NamespaceScan {
        *self.obj
    }

    /// The time at which reconciling started.
    pub closed spec fn now(self) -> Timestamp {
        self.now
    }

    /// Where reconciling stands.
    pub closed spec fn phase(self) -> ReconcilePhase {
        self.step.phase()
    }

    /// Starts reconciling a resource.
    pub fn new(obj: &'a NamespaceScan, now: Timestamp) -> (r: Reconciliation<'a>)
        ensures
            r.obj() == *obj,
            r.now() == now,
            r.phase() == first_reconcile_phase(*obj, now),
            rescans_later(*obj, now, r.phase()),
    {
        let name = text_or_empty(&obj.metadata.name);
        let base = desired_status(
            &obj.spec,
            now,
            match &obj.status {
                Some(status) => Some(status),
                None => None,
            },
        );
        if has_reason(&base, REASON_INVALID_SPEC) {
            return Reconciliation { obj, now, name, step: step_to_settle(obj, now, base) };
        }
        let uid = text_or_empty(&obj.metadata.uid);
        if uid.as_str().is_empty() {
            return Reconciliation { obj, now, name, step: step_to_settle(obj, now, base) };
        }
        let cr_meta = CrMetaSnapshot {
            name: name.clone(),
            uid,
            namespace: text_or_empty(&obj.metadata.namespace),
        };
        Reconciliation { obj, now, name, step: ReconcileStep::EnsureJobs { base, cr_meta } }
    }

    /// What is to be done next.
    pub fn action(&self) -> (r: ReconcileAction<'_>)
        ensures
            match r {
                ReconcileAction::EnsureJobs(cr_meta) => {
                    &&& self.phase() is EnsureJobs
                    &&& cr_meta.name@ == name_of(self.obj())
                    &&& Some(cr_meta.uid@) == self.obj().metadata.uid.deep_view()
                    &&& cr_meta.namespace@ == match self.obj().metadata.namespace {
                        Some(namespace) => namespace@,
                        None => Seq::empty(),
                    }
                },
                ReconcileAction::ListOwnedJobs(name) => {
                    &&& self.phase() is ListForStatus || self.phase() is ListForRescan
                    &&& name@ == name_of(self.obj())
                },
                ReconcileAction::DeleteJob(name) => {
                    &&& self.phase() is CleanUp
                    &&& self.phase()->cleanup.pending.len() > 0
                    &&& name@ == self.phase()->cleanup.pending.first()
                },
                ReconcileAction::PatchStatus(status) => {
                    &&& self.phase() is PatchStatus
                    &&& status.deep_view() == self.phase()->PatchStatus_status
                },
                ReconcileAction::Requeue(span) => {
                    &&& self.phase() is Finished
                    &&& (span.seconds() as int, span.nanos() as int)
                        == self.phase()->Finished_requeue
                },
                ReconcileAction::Fail => self.phase() is Failed,
                ReconcileAction::Abort => self.phase() is Aborted,
            },
    {
        proof {
            use_type_invariant(self);
        }
        match &self.step {
            ReconcileStep::EnsureJobs { cr_meta, .. } => ReconcileAction::EnsureJobs(cr_meta),
            ReconcileStep::ListForStatus { .. } => ReconcileAction::ListOwnedJobs(
                self.name.as_str(),
            ),
            ReconcileStep::ListForRescan { .. } => ReconcileAction::ListOwnedJobs(
                self.name.as_str(),
            ),
            ReconcileStep::CleanUp { cleanup, .. } => ReconcileAction::DeleteJob(
                cleanup.next_deletion().unwrap(),
            ),
            ReconcileStep::PatchStatus { status, .. } => ReconcileAction::PatchStatus(status),
            ReconcileStep::Finished { requeue } => ReconcileAction::Requeue(*requeue),
            ReconcileStep::Failed { .. } => ReconcileAction::Fail,
            ReconcileStep::Aborted => ReconcileAction::Abort,
        }
    }

    /// Goes on after Jobs were ensured.
    pub fn jobs_ensured(self, result: Result<OrchestrationResult, OrchestrationError>) -> (r:
        Reconciliation<'a>)
        requires
            self.phase() is EnsureJobs,
        ensures
            r.obj() == self.obj(),
            r.now() == self.now(),
            r.phase() == after_ensuring(
                self.obj(),
                self.now(),
                self.phase(),
                ensuring_outcome(result),
            ),
            rescans_later(self.obj(), self.now(), r.phase()),
    {
        proof {
            use_type_invariant(&self);
        }
        let result = match result {
            Ok(result) => result,
            Err(e) => {
                let ReconcileError::Kube(error) = ReconcileError::from(e);
                return Reconciliation {
                    obj: self.obj,
                    now: self.now,
                    name: self.name,
                    step: ReconcileStep::Failed { error },
                };
            },
        };
        let step = match self.step {
            ReconcileStep::EnsureJobs { base, cr_meta: _ } => {
                let status = status_with_orchestration_result(
                    base,
                    match &self.obj.status {
                        Some(status) => Some(status),
                        None => None,
                    },
                    &result,
                    self.now,
                );
                match result {
                    OrchestrationResult::Spawned { .. } => ReconcileStep::ListForStatus { status },
                    _ => step_to_settle(self.obj, self.now, status),
                }
            },
            _ => ReconcileStep::Aborted,
        };
        Reconciliation { obj: self.obj, now: self.now, name: self.name, step }
    }

    /// Goes on after the Jobs of the resource were listed, at `clock`.
    pub fn jobs_listed(self, result: Result<Vec<Job>, KubeError>, clock: Timestamp) -> (r:
        Reconciliation<'a>)
        requires
            self.phase() is ListForStatus || self.phase() is ListForRescan,
        ensures
            r.obj() == self.obj(),
            r.now() == self.now(),
            after_listing_jobs(self.obj(), self.now(), self.phase(), result, clock, r.phase()),
            rescans_later(self.obj(), self.now(), r.phase()),
    {
        proof {
            use_type_invariant(&self);
        }
        let jobs = match result {
            Err(error) => {
                return Reconciliation {
                    obj: self.obj,
                    now: self.now,
                    name: self.name,
                    step: ReconcileStep::Failed { error },
                };
            },
            Ok(jobs) => jobs,
        };
        let owned = jobs.as_slice();
        assert(owned.deep_view() =~= jobs.deep_view());
        let step = match self.step {
            ReconcileStep::ListForStatus { status } => {
                let outcome = aggregate_job_outcomes_at(owned, &self.obj.spec, &clock);
                let reported = status_with_aggregated_outcome(
                    status,
                    match &self.obj.status {
                        Some(status) => Some(status),
                        None => None,
                    },
                    &outcome,
                    self.now,
                );
                assert(status::aggregated(
                    status.deep_view(),
                    self.obj.status.deep_view(),
                    status_aggregator::outcome_of(jobs.deep_view(), self.obj.spec, clock),
                    self.now,
                    reported.deep_view(),
                ));
                step_to_settle(self.obj, self.now, reported)
            },
            ReconcileStep::ListForRescan { status } => step_to_clean_up(
                status,
                Cleanup::new(owned),
            ),
            _ => ReconcileStep::Aborted,
        };
        Reconciliation { obj: self.obj, now: self.now, name: self.name, step }
    }

    /// Goes on after a Job was deleted.
    pub fn job_deleted(self, result: Result<(), KubeError>) -> (r: Reconciliation<'a>)
        requires
            self.phase() is CleanUp,
        ensures
            r.obj() == self.obj(),
            r.now() == self.now(),
            r.phase() == after_deleting(self.phase(), result),
    {
        proof {
            use_type_invariant(&self);
        }
        let step = match self.step {
            ReconcileStep::CleanUp { status, cleanup } => match cleanup.record(result) {
                Ok(cleanup) => step_to_clean_up(status, cleanup),
                Err(error) => ReconcileStep::Failed { error },
            },
            _ => ReconcileStep::Aborted,
        };
        Reconciliation { obj: self.obj, now: self.now, name: self.name, step }
    }

    /// Goes on after the status was written.
    pub fn status_patched(self, result: Result<(), KubeError>) -> (r: Reconciliation<'a>)
        requires
            self.phase() is PatchStatus,
        ensures
            r.obj() == self.obj(),
            r.now() == self.now(),
            r.phase() == match result {
                Ok(()) => ReconcilePhase::Finished { requeue: self.phase()->PatchStatus_requeue },
                Err(error) => ReconcilePhase::Failed { error },
            },
    {
        proof {
            use_type_invariant(&self);
        }
        let step = match (self.step, result) {
            (ReconcileStep::PatchStatus { status: _, requeue }, Ok(())) => ReconcileStep::Finished {
                requeue,
            },
            (_, Err(error)) => ReconcileStep::Failed { error },
            _ => ReconcileStep::Aborted,
        };
        Reconciliation { obj: self.obj, now: self.now, name: self.name, step }
    }

    /// The failure that ended reconciling.
    pub fn into_error(self) -> (r: ReconcileError)
        requires
            self.phase() is Failed,
        ensures
            r == ReconcileError::Kube(self.phase()->error),
    {
        match self.step {
            ReconcileStep::Failed { error } => ReconcileError::Kube(error),
            _ => ReconcileError::Kube(KubeError { response: None, text: String::new() }),
        }
    }
}

// ---------------------------------------------------------------------------------------------
// Laws.
// ---------------------------------------------------------------------------------------------

/// Unless a scan has come to an end, the schedule does not come in: the status is written as it is,
/// and no Job is deleted.
pub proof fn schedule_waits_for_the_end_of_a_scan(
    obj: NamespaceScan,
    now: Timestamp,
    status: NamespaceScanStatusView,
)
    requires
        !scan_ended(status),
    ensures
        settle(obj, now, status) == write_status(status, now),
{
}

/// Jobs are deleted for the next scan only if a scan has come to an end and the time of the next
/// one has come.
pub proof fn rescan_only_when_due(
    obj: NamespaceScan,
    now: Timestamp,
    status: NamespaceScanStatusView,
)
    ensures
        settle(obj, now, status) is ListForRescan <==> scan_ended(status) && (next_scan(
            obj,
            status.last_scan_completed_at,
            now,
        ) matches NextScan::At(seconds, nanos) && reached((seconds, nanos), now)),
{
}

/// What an orchestration reports, other than that there are Jobs, is written as it is: the schedule
/// does not override it.
pub proof fn orchestration_reports_are_not_overridden(
    obj: NamespaceScan,
    now: Timestamp,
    base: NamespaceScanStatusView,
    result: OrchestrationResultView,
)
    requires
        result !is Spawned,
    ensures
        ({
            let (reason, message) = status::orchestration_report(result);
            after_ensuring(obj, now, ReconcilePhase::EnsureJobs { base }, Ok(result))
                == write_status(
                status::not_ready(base, obj.status.deep_view(), reason, message, now),
                now,
            )
        }),
{
    reveal_strlit("ScanCompleted");
    reveal_strlit("ScanFailed");
    reveal_strlit("NoImagesInScope");
    reveal_strlit("BuildFailed");
    reveal_strlit("RBACInsufficient");
    assert(REASON_SCAN_COMPLETED@.len() == 13);
    assert(REASON_SCAN_FAILED@.len() == 10);
    assert(status::REASON_NO_IMAGES_IN_SCOPE@.len() == 15);
    assert(status::REASON_BUILD_FAILED@.len() == 11);
    assert(status::REASON_RBAC_INSUFFICIENT@.len() == 16);
}

/// While Jobs are running, no scan is started: the status is written, and no Job is deleted, even if
/// the schedule asks for the next scan.
pub proof fn running_jobs_are_left_alone(
    obj: NamespaceScan,
    now: Timestamp,
    base: NamespaceScanStatusView,
    distinct_images: nat,
    jobs: Vec<Job>,
    clock: Timestamp,
    next: ReconcilePhase,
)
    requires
        status_aggregator::outcome_of(jobs.deep_view(), obj.spec, clock) is StillRunning,
        after_listing_jobs(
            obj,
            now,
            after_ensuring(
                obj,
                now,
                ReconcilePhase::EnsureJobs { base },
                Ok(OrchestrationResultView::Spawned { distinct_images }),
            ),
            Ok(jobs),
            clock,
            next,
        ),
    ensures
        ({
            let (reason, message) = status::orchestration_report(
                OrchestrationResultView::Spawned { distinct_images },
            );
            next == write_status(
                status::not_ready(base, obj.status.deep_view(), reason, message, now),
                now,
            )
        }),
{
    reveal_strlit("ScanCompleted");
    reveal_strlit("ScanFailed");
    reveal_strlit("Scanning");
    assert(REASON_SCAN_COMPLETED@.len() == 13);
    assert(REASON_SCAN_FAILED@.len() == 10);
    assert(status::REASON_SCANNING@.len() == 8);
}

/// An invalid specification is reported, and nothing else is done about it.
pub proof fn invalid_spec_is_only_reported(obj: NamespaceScan, now: Timestamp)
    requires
        !status::target_valid(obj.spec.target) || scheduler::schedule_of(obj.spec.schedule) is Err,
    ensures
        first_reconcile_phase(obj, now) == write_status(
            status::base_status(obj.spec, now, obj.status.deep_view()),
            now,
        ),
{
    status::invalid_spec_is_reported(obj.spec, now, obj.status.deep_view());
    reveal_strlit("InvalidSpec");
    reveal_strlit("ScanCompleted");
    reveal_strlit("ScanFailed");
    assert(REASON_INVALID_SPEC@.len() == 11);
    assert(REASON_SCAN_COMPLETED@.len() == 13);
    assert(REASON_SCAN_FAILED@.len() == 10);
}

/// A resource is reconciled again within five minutes, and not within the next second. If the next
/// scan is due in less than a minute, that is after it is due.
pub proof fn requeue_is_bounded(next: Option<(i64, u32)>, now: Timestamp)
    ensures
        ({
            let (seconds, nanos) = requeue_until(next, now);
            let second = time::NANOS_PER_SECOND as int;
            &&& 0 <= nanos < second
            &&& second < seconds * second + nanos <= 300 * second
            &&& next matches Some(instant) ==> {
                let wait = time::nanos_between(instant, now.parts());
                0 < wait < 60 * second ==> seconds * second + nanos == wait + second
            }
        }),
{
}

/// A status that reports one condition and when it was reconciled.
pub open spec fn reports_once(status: NamespaceScanStatusView, now: Timestamp) -> bool {
    &&& status.conditions.len() == 1
    &&& status.conditions[0].condition_type == status::READY@
    &&& status.last_reconciled_at == Some(status::time_text(now))
}

/// The status that a phase of reconciling carries reports one condition and when it was reconciled.
pub open spec fn phase_reports_once(phase: ReconcilePhase, now: Timestamp) -> bool {
    match phase {
        ReconcilePhase::EnsureJobs { base } => reports_once(base, now),
        ReconcilePhase::ListForStatus { status } => reports_once(status, now),
        ReconcilePhase::ListForRescan { status } => reports_once(status, now),
        ReconcilePhase::CleanUp { status, .. } => reports_once(status, now),
        ReconcilePhase::PatchStatus { status, .. } => reports_once(status, now),
        _ => true,
    }
}

/// However reconciling goes, a status that is written has exactly one condition, `Ready`, and the
/// time of this reconciling: so at the start, and then after every step.
pub proof fn every_written_status_reports_once(
    obj: NamespaceScan,
    now: Timestamp,
    phase: ReconcilePhase,
    ensured: Result<OrchestrationResultView, KubeError>,
    listed: Result<Vec<Job>, KubeError>,
    clock: Timestamp,
    after_listed: ReconcilePhase,
    deleted: Result<(), KubeError>,
)
    requires
        phase_reports_once(phase, now),
    ensures
        phase_reports_once(first_reconcile_phase(obj, now), now),
        phase is EnsureJobs ==> phase_reports_once(after_ensuring(obj, now, phase, ensured), now),
        after_listing_jobs(obj, now, phase, listed, clock, after_listed) ==> phase_reports_once(
            after_listed,
            now,
        ),
        phase is CleanUp ==> phase_reports_once(after_deleting(phase, deleted), now),
{
    if after_listing_jobs(obj, now, phase, listed, clock, after_listed) && listed is Ok
        && phase is ListForStatus {
        let status = phase->ListForStatus_status;
        let outcome = status_aggregator::outcome_of(listed->Ok_0.deep_view(), obj.spec, clock);
        let reported = choose|reported| #[trigger]
            status::aggregated(status, obj.status.deep_view(), outcome, now, reported)
                && after_listed == settle(obj, now, reported);
        assert(reports_once(reported, now));
    }
}

/// A status that reports that a scan was completed counts as the start of the wait for the next
/// one, from the time that it names.
pub proof fn schedule_counts_from_the_last_scan(
    completed: Seq<char>,
    created: Option<Timestamp>,
    now: Timestamp,
)
    ensures
        time::rfc3339_instant(completed) matches Some(instant) ==> anchor_of(
            Some(completed),
            created,
            now,
        ) == instant,
        time::rfc3339_instant(completed) is None ==> anchor_of(Some(completed), created, now)
            == anchor_of(None, created, now),
        created matches Some(t) ==> anchor_of(None, created, now) == t.parts(),
{
}

} // verus!
