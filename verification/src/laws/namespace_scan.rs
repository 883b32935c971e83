//! Laws of reconciling.
use crate::crds::namespace_scan::{NamespaceScan, NamespaceScanStatusView};
use crate::digest;
use crate::k8s::Job;
use crate::kube::KubeError;
use crate::laws::scheduler as scheduler_laws;
use crate::laws::status as status_laws;
use crate::laws::status_aggregator as job_laws;
use crate::laws::text as text_laws;
use crate::reconcile::namespace_scan::{self, NextScan, ReconcilePhase};
use crate::reconcile::scan_orchestrator::{
    OrchestrationError, OrchestrationResult, OrchestrationResultView,
};
use crate::reconcile::scheduler::{self, CleanupView, ScheduleSpecView};
use crate::reconcile::status_aggregator;
use crate::status;
use crate::time::{self, Timestamp};
use vstd::prelude::*;

verus! {

/// The schedule counts from the last completed scan if its time can be read, else from the creation
/// of the resource, else from `now`.
pub proof fn anchor_is_the_last_scan_or_the_creation(
    completed: Option<Seq<char>>,
    created: Option<Timestamp>,
    now: Timestamp,
)
    ensures
        ({
            let anchor = namespace_scan::anchor_of(completed, created, now);
            let read = completed matches Some(text) && time::rfc3339_instant(text) is Some;
            &&& read ==> Some(anchor) == time::rfc3339_instant(completed->0)
            &&& !read ==> (created matches Some(t) ==> anchor == (t.seconds(), t.nanos()))
            &&& !read && created is None ==> anchor == (now.seconds(), now.nanos())
        }),
{
}

/// The jitter of a resource is what its `uid` gives: the first two bytes of the digest of its text in
/// UTF-8, less whole minutes.
pub proof fn jitter_comes_from_the_uid(uid: Seq<char>)
    ensures
        ({
            let bytes = digest::sha256(vstd::utf8::encode_utf8(uid));
            let n = bytes[0] * 256 + bytes[1];
            &&& namespace_scan::jitter_of(Some(uid)) == ((n % 60) as u64, 0u32)
            &&& namespace_scan::jitter_of(Some(uid)).0 < 60
        }),
        namespace_scan::jitter_of(None) == namespace_scan::jitter_of(Some(Seq::empty())),
{
}

/// The next scan is due when the schedule of the resource says, counted from the anchor and with the
/// jitter of the resource: with an interval, outside of leap seconds, that much after the anchor, and
/// with a cron expression at the tick that follows the anchor. Without a schedule that can be
/// followed there is none.
pub proof fn next_scan_goes_by_the_schedule(
    obj: NamespaceScan,
    completed: Option<Seq<char>>,
    now: Timestamp,
    interval: (u64, u32),
    expression: Seq<char>,
)
    requires
        interval.1 < 1_000_000_000,
    ensures
        ({
            let anchor = namespace_scan::anchor_of(completed, obj.metadata.creation_timestamp, now);
            let jitter = namespace_scan::jitter_of(obj.metadata.uid.deep_view());
            let next = namespace_scan::next_scan(obj, completed, now);
            let schedule = scheduler::schedule_of(obj.spec.schedule);
            let sum = (anchor.0 + interval.0 + jitter.0) * 1_000_000_000 + anchor.1 + interval.1;
            &&& schedule is Err ==> next is Unscheduled
            &&& (schedule matches Ok(ScheduleSpecView::Interval(s, n)) && (s, n) == interval)
                && anchor.1 < 1_000_000_000 ==> match next {
                NextScan::At(s, n) => s * 1_000_000_000 + n == sum && 0 <= n < 1_000_000_000,
                NextScan::Never => sum >= (time::LAST_SECOND + 1) * 1_000_000_000,
                NextScan::Unscheduled => false,
            }
            &&& (schedule matches Ok(ScheduleSpecView::Cron(e)) && e == expression) && anchor.0
                < time::LAST_SECOND ==> match scheduler::cron_tick(
                expression,
                anchor.0,
                anchor.1,
            ) {
                Some(tick) => tick + jitter.0 <= time::LAST_SECOND ==> next == NextScan::At(
                    tick + jitter.0,
                    0,
                ),
                None => next is Never,
            }
        }),
{
    let anchor = namespace_scan::anchor_of(completed, obj.metadata.creation_timestamp, now);
    let jitter = namespace_scan::jitter_of(obj.metadata.uid.deep_view());
    if anchor.1 < 1_000_000_000 {
        scheduler_laws::interval_goes_by_the_sum(anchor, interval, jitter);
    }
    scheduler_laws::cron_goes_by_the_tick_after_the_anchor(expression, anchor, jitter);
}

/// `phase` is how a status is written as it is: with no other time for the next scan, and after the
/// usual time, or a second after the next scan if that is less than a minute away.
pub open spec fn writes(
    phase: ReconcilePhase,
    status: NamespaceScanStatusView,
    now: Timestamp,
) -> bool {
    let next = match status.next_scheduled_scan_at {
        Some(text) => time::rfc3339_instant(text),
        None => None,
    };
    let wait = match next {
        Some(instant) => time::nanos_between(instant, (now.seconds(), now.nanos())),
        None => 0,
    };
    phase matches ReconcilePhase::PatchStatus { status: written, requeue } && {
        &&& written == status
        &&& 0 < wait < 60_000_000_000 ==> requeue.0 * 1_000_000_000 + requeue.1 == wait
            + 1_000_000_000 && 0 <= requeue.1 < 1_000_000_000
        &&& !(0 < wait < 60_000_000_000) ==> requeue == (300int, 0int)
    }
}

/// Once a scan has ended, with `ScanCompleted` or with `ScanFailed`, the schedule takes over. If the
/// time of the next scan has come, that time is reported and the Jobs are listed to make way for it.
/// If it has not come yet, the status is written with that time. Without a schedule that can be
/// followed the status is written as it is. With any other reason the status is written as it is,
/// whatever the schedule says.
pub proof fn ended_scans_follow_the_schedule(
    obj: NamespaceScan,
    now: Timestamp,
    status: NamespaceScanStatusView,
)
    requires
        status.conditions.len() > 0,
    ensures
        ({
            let reason = status.conditions[0].reason;
            let ended = reason == Some("ScanCompleted"@) || reason == Some("ScanFailed"@);
            follows(obj, now, status, ended, namespace_scan::settle(obj, now, status))
        }),
        status.conditions[0].reason == Some("ScanFailed"@) ==> follows(
            obj,
            now,
            status,
            true,
            namespace_scan::settle(obj, now, status),
        ),
        status.conditions[0].reason == Some("ScanCompleted"@) ==> follows(
            obj,
            now,
            status,
            true,
            namespace_scan::settle(obj, now, status),
        ),
{
    assert(status.conditions.first() == status.conditions[0]);
}

/// `phase` is how reconciling goes on with a status after a scan that has ended, or has not: by the
/// schedule, or by writing the status as it is.
pub open spec fn follows(
    obj: NamespaceScan,
    now: Timestamp,
    status: NamespaceScanStatusView,
    ended: bool,
    phase: ReconcilePhase,
) -> bool {
    match namespace_scan::next_scan(obj, status.last_scan_completed_at, now) {
        _ if !ended => writes(phase, status, now),
        NextScan::Unscheduled => writes(phase, status, now),
        NextScan::Never => phase is Aborted,
        NextScan::At(seconds, nanos) => {
            let scheduled = NamespaceScanStatusView {
                next_scheduled_scan_at: Some(time::rfc3339_text(seconds as i64, nanos as u32)),
                ..status
            };
            if seconds < now.seconds() || (seconds == now.seconds() && nanos <= now.nanos()) {
                phase == (ReconcilePhase::ListForRescan { status: scheduled })
            } else {
                writes(phase, scheduled, now)
            }
        },
    }
}

/// When the Jobs are listed and one has failed for good, the scan has ended with `ScanFailed`; when
/// all have succeeded, it has ended with `ScanCompleted`, at the time that is reported. Either way
/// the schedule takes over. While Jobs are running, the status is written as it is.
pub proof fn listed_jobs_end_the_scan(
    obj: NamespaceScan,
    now: Timestamp,
    status: NamespaceScanStatusView,
    jobs: Vec<Job>,
    clock: Timestamp,
    next: ReconcilePhase,
)
    requires
        status.conditions.len() == 1,
        status.conditions[0].reason == Some("Scanning"@),
        namespace_scan::after_listing_jobs(
            obj,
            now,
            ReconcilePhase::ListForStatus { status },
            Ok(jobs),
            clock,
            next,
        ),
    ensures
        ({
            let views = jobs.deep_view();
            let failed = exists|i: int|
                0 <= i < views.len() && job_laws::exhausted(#[trigger] views[i]);
            let succeeded = views.len() > 0 && forall|i: int|
                0 <= i < views.len() ==> job_laws::has_success(#[trigger] views[i])
                    && !job_laws::exhausted(views[i]);
            &&& failed ==> exists|reported: NamespaceScanStatusView|
                #[trigger] follows(obj, now, reported, true, next) && reported.conditions.len() == 1
                    && reported.conditions[0].reason == Some("ScanFailed"@)
                    && reported.conditions[0].status == "False"@ && reported.last_scan_completed_at
                    == status.last_scan_completed_at && reported.scanned_images
                    == status.scanned_images
            &&& succeeded ==> exists|reported: NamespaceScanStatusView|
                #[trigger] follows(obj, now, reported, true, next) && reported.conditions.len() == 1
                    && reported.conditions[0].reason == Some("ScanCompleted"@)
                    && reported.conditions[0].status == "True"@ && reported.last_scan_completed_at
                    == reported.conditions[0].last_transition_time
            &&& !failed && !succeeded ==> writes(next, status, now)
        }),
{
    let views = jobs.deep_view();
    let outcome = status_aggregator::outcome_of(views, obj.spec, clock);
    let existing = obj.status.deep_view();
    let reported = choose|reported: NamespaceScanStatusView| #[trigger]
        status::aggregated(status, existing, outcome, now, reported)
            && next == namespace_scan::settle(obj, now, reported);
    let failed = exists|i: int| 0 <= i < views.len() && job_laws::exhausted(#[trigger] views[i]);
    lemma_literal_reasons();
    if failed {
        let i = choose|i: int| 0 <= i < views.len() && job_laws::exhausted(#[trigger] views[i]);
        let first = lemma_first_exhausted(views, i);
        job_laws::outcome_goes_by_the_pods(views, obj.spec, clock, first);
        ended_scans_follow_the_schedule(obj, now, reported);
        assert(follows(obj, now, reported, true, next));
    } else {
        job_laws::outcome_goes_by_the_pods(views, obj.spec, clock, 0);
        ended_scans_follow_the_schedule(obj, now, reported);
        let succeeded = views.len() > 0 && forall|i: int|
            0 <= i < views.len() ==> job_laws::has_success(#[trigger] views[i])
                && !job_laws::exhausted(views[i]);
        if succeeded {
            assert(follows(obj, now, reported, true, next));
        } else {
            if views.len() > 0 {
                let i = choose|i: int|
                    0 <= i < views.len() && !(job_laws::has_success(#[trigger] views[i])
                        && !job_laws::exhausted(views[i]));
                assert(!job_laws::has_success(views[i]));
            }
            assert(outcome is StillRunning);
            assert(reported == status);
        }
    }
}

proof fn lemma_literal_reasons()
    ensures
        "Scanning"@ != "ScanCompleted"@,
        "Scanning"@ != "ScanFailed"@,
        "InvalidSpec"@ != "ScanCompleted"@,
        "InvalidSpec"@ != "ScanFailed"@,
        "NotYetReconciled"@ != "ScanCompleted"@,
        "NotYetReconciled"@ != "ScanFailed"@,
        "NotYetReconciled"@ != "InvalidSpec"@,
        "NoImagesInScope"@ != "ScanCompleted"@,
        "NoImagesInScope"@ != "ScanFailed"@,
        "BuildFailed"@ != "ScanCompleted"@,
        "BuildFailed"@ != "ScanFailed"@,
        "RBACInsufficient"@ != "ScanCompleted"@,
        "RBACInsufficient"@ != "ScanFailed"@,
{
    reveal_strlit("Scanning");
    reveal_strlit("ScanCompleted");
    reveal_strlit("ScanFailed");
    reveal_strlit("InvalidSpec");
    reveal_strlit("NotYetReconciled");
    reveal_strlit("NoImagesInScope");
    reveal_strlit("BuildFailed");
    reveal_strlit("RBACInsufficient");
    assert("Scanning"@.len() == 8);
    assert("ScanCompleted"@.len() == 13);
    assert("ScanFailed"@.len() == 10);
    assert("InvalidSpec"@.len() == 11);
    assert("NotYetReconciled"@.len() == 16);
    assert("NoImagesInScope"@.len() == 15);
    assert("BuildFailed"@.len() == 11);
    assert("RBACInsufficient"@.len() == 16);
}

proof fn lemma_first_exhausted(jobs: Seq<crate::k8s::JobView>, i: int) -> (first: int)
    requires
        0 <= i < jobs.len(),
        job_laws::exhausted(jobs[i]),
    ensures
        0 <= first <= i,
        job_laws::exhausted(jobs[first]),
        forall|j: int| 0 <= j < first ==> !job_laws::exhausted(#[trigger] jobs[j]),
    decreases i,
{
    if exists|j: int| 0 <= j < i && job_laws::exhausted(#[trigger] jobs[j]) {
        let j = choose|j: int| 0 <= j < i && job_laws::exhausted(#[trigger] jobs[j]);
        lemma_first_exhausted(jobs, j)
    } else {
        i
    }
}

/// When the Jobs are listed to make way for the next scan, those that have come to an end are deleted
/// one after the other, and then the status is written, to be reconciled again after five seconds. A
/// listing that fails ends reconciling.
pub proof fn ended_jobs_make_way(
    obj: NamespaceScan,
    now: Timestamp,
    status: NamespaceScanStatusView,
    jobs: Vec<Job>,
    error: KubeError,
    clock: Timestamp,
    next: ReconcilePhase,
    failed: ReconcilePhase,
)
    requires
        namespace_scan::after_listing_jobs(
            obj,
            now,
            ReconcilePhase::ListForRescan { status },
            Ok(jobs),
            clock,
            next,
        ),
        namespace_scan::after_listing_jobs(
            obj,
            now,
            ReconcilePhase::ListForRescan { status },
            Err(error),
            clock,
            failed,
        ),
    ensures
        ({
            let names = scheduler::terminal_names(jobs.deep_view());
            &&& names.len() > 0 ==> next == (ReconcilePhase::CleanUp {
                status,
                cleanup: CleanupView { pending: names, deleted: 0 },
            })
            &&& names.len() == 0 ==> next == (ReconcilePhase::PatchStatus {
                status,
                requeue: (5int, 0int),
            })
        }),
        failed == (ReconcilePhase::Failed { error }),
{
}

/// A deletion that went through, or found no such Job, leads to the next one, and the last one to
/// writing the status, to be reconciled again after five seconds. Any other failure ends reconciling.
pub proof fn deletions_lead_to_the_status(
    status: NamespaceScanStatusView,
    cleanup: CleanupView,
    e: KubeError,
)
    requires
        cleanup.pending.len() > 0,
    ensures
        ({
            let phase = ReconcilePhase::CleanUp { status, cleanup };
            let gone = e.response matches Some(response) && response.code == 404;
            let written = ReconcilePhase::PatchStatus { status, requeue: (5int, 0int) };
            &&& cleanup.pending.len() == 1 ==> namespace_scan::after_deleting(phase, Ok(()))
                == written
            &&& cleanup.pending.len() == 1 && gone ==> namespace_scan::after_deleting(
                phase,
                Err(e),
            ) == written
            &&& cleanup.pending.len() > 1 ==> namespace_scan::after_deleting(phase, Ok(())) == (
            ReconcilePhase::CleanUp {
                status,
                cleanup: CleanupView {
                    pending: cleanup.pending.drop_first(),
                    deleted: cleanup.deleted + 1,
                },
            })
            &&& cleanup.pending.len() > 1 && gone ==> namespace_scan::after_deleting(
                phase,
                Err(e),
            ) == (ReconcilePhase::CleanUp {
                status,
                cleanup: CleanupView {
                    pending: cleanup.pending.drop_first(),
                    deleted: cleanup.deleted,
                },
            })
            &&& !gone ==> namespace_scan::after_deleting(phase, Err(e)) == (
            ReconcilePhase::Failed { error: e })
        }),
{
}

/// Reconciling starts with ensuring Jobs exactly if the resource has a namespace or a label selector,
/// a schedule that can be followed, and a `uid`. Otherwise the status is written, and that is all.
pub proof fn reconciling_starts_with_jobs_or_the_status(obj: NamespaceScan, now: Timestamp)
    ensures
        ({
            let targeted = obj.spec.target.namespaces@.len() > 0 || (
            obj.spec.target.label_selector matches Some(selector) && text_laws::has_ink(selector@));
            let scheduled = scheduler::schedule_of(obj.spec.schedule) is Ok;
            let known = obj.metadata.uid matches Some(uid) && uid@.len() > 0;
            let base = status::base_status(obj.spec, now, obj.status.deep_view());
            let phase = namespace_scan::first_reconcile_phase(obj, now);
            &&& targeted && scheduled && known ==> phase == (ReconcilePhase::EnsureJobs { base })
            &&& !(targeted && scheduled && known) ==> writes(phase, base, now)
        }),
{
    let base = status::base_status(obj.spec, now, obj.status.deep_view());
    status_laws::verdict_goes_by_target_and_schedule(obj.spec, now, obj.status.deep_view());
    lemma_literal_reasons();
    ended_scans_follow_the_schedule(obj, now, base);
    assert(base.conditions.first() == base.conditions[0]);
}

/// After Jobs were ensured, the reason is that for what came of it. Only if there are Jobs, they are
/// listed; otherwise the status is written. A failure ends reconciling.
pub proof fn ensured_jobs_are_listed(
    obj: NamespaceScan,
    now: Timestamp,
    base: NamespaceScanStatusView,
    result: OrchestrationResultView,
    error: KubeError,
)
    ensures
        ({
            let phase = ReconcilePhase::EnsureJobs { base };
            let next = namespace_scan::after_ensuring(obj, now, phase, Ok(result));
            let (reason, message) = status::orchestration_report(result);
            let reported = status::not_ready(base, obj.status.deep_view(), reason, message, now);
            &&& result is Spawned ==> next == (ReconcilePhase::ListForStatus { status: reported })
            &&& result !is Spawned ==> writes(next, reported, now)
            &&& namespace_scan::after_ensuring(obj, now, phase, Err(error)) == (
            ReconcilePhase::Failed { error })
        }),
{
    let (reason, message) = status::orchestration_report(result);
    let reported = status::not_ready(base, obj.status.deep_view(), reason, message, now);
    lemma_literal_reasons();
    ended_scans_follow_the_schedule(obj, now, reported);
}

/// The time until reconciling again: a second after the next scan if that is less than a minute away,
/// and five minutes otherwise, or without a time for the next scan.
pub proof fn requeue_goes_by_the_next_scan(next: Option<(i64, u32)>, now: Timestamp)
    ensures
        ({
            let (seconds, nanos) = namespace_scan::requeue_until(next, now);
            let wait = match next {
                Some(instant) => time::nanos_between(instant, (now.seconds(), now.nanos())),
                None => 0,
            };
            &&& 0 < wait < 60_000_000_000 ==> seconds * 1_000_000_000 + nanos == wait
                + 1_000_000_000 && 0 <= nanos < 1_000_000_000
            &&& !(0 < wait < 60_000_000_000) ==> seconds == 300 && nanos == 0
        }),
{
}

/// A resource goes by its own name, whatever that is.
pub proof fn resources_go_by_their_names(obj: NamespaceScan)
    ensures
        obj.metadata.name matches Some(name) ==> namespace_scan::name_of(obj) == name@,
        obj.metadata.name is None ==> namespace_scan::name_of(obj).len() == 0,
{
}

/// What came of ensuring Jobs is passed on: the result, or the call that failed.
pub proof fn ensuring_is_passed_on(result: OrchestrationResult, error: KubeError)
    ensures
        namespace_scan::ensuring_outcome(Ok(result)) == Ok::<OrchestrationResultView, KubeError>(
            result.deep_view(),
        ),
        namespace_scan::ensuring_outcome(Err(OrchestrationError::Kube(error))) == Err::<
            OrchestrationResultView,
            KubeError,
        >(error),
{
}

/// A call was answered with a code exactly if there is an answer, and that is its code.
pub proof fn answers_have_their_code(e: KubeError, code: u16)
    ensures
        e.response is None ==> !e.answered(code),
        e.response matches Some(response) ==> (e.answered(code) <==> response.code == code),
{
}

/// Reconciling is tried again a minute after an error: later than after Jobs were deleted, and earlier
/// than usual.
pub proof fn errors_delay_by_a_minute()
    ensures
        namespace_scan::ERROR_REQUEUE_SECONDS == 60,
        namespace_scan::RESCAN_REQUEUE_SECONDS < namespace_scan::ERROR_REQUEUE_SECONDS
            < namespace_scan::REQUEUE_INTERVAL_SECONDS,
{
}

} // verus!
