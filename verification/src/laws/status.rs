//! Laws of what is reported about a resource.
use crate::crds::namespace_scan::{
    NamespaceScanSpec, NamespaceScanStatusView, ScannedImageView, StatusConditionView, Target,
};
use crate::laws::text as text_laws;
use crate::reconcile::scan_orchestrator::OrchestrationResultView;
use crate::reconcile::scheduler;
use crate::reconcile::status_aggregator::{self, AggregatedOutcomeView};
use crate::status;
use crate::text;
use crate::time::{self, Timestamp};
use vstd::prelude::*;

verus! {

/// A target is valid if it names a namespace, whatever its label selector is, and if its label
/// selector has a character that is not white space, whatever namespaces it names. Only one with
/// neither is invalid.
pub proof fn either_half_makes_a_target_valid(target: Target)
    ensures
        target.namespaces@.len() > 0 ==> status::target_valid(target),
        (target.label_selector matches Some(selector) && text_laws::has_ink(selector@))
            ==> status::target_valid(target),
        target.namespaces@.len() == 0 && target.label_selector is None ==> !status::target_valid(
            target,
        ),
        target.namespaces@.len() == 0 && (target.label_selector matches Some(selector)
            && !text_laws::has_ink(selector@)) ==> !status::target_valid(target),
{
    if let Some(selector) = target.label_selector {
        text_laws::blank_texts_are_white_space(selector@);
    }
}

/// A resource with a namespace or a label selector, and with a schedule that can be followed, is
/// reported as not yet reconciled. One with neither is invalid, and so is one whose schedule cannot be
/// followed; the message says which.
pub proof fn verdict_goes_by_target_and_schedule(
    spec: NamespaceScanSpec,
    now: Timestamp,
    existing: Option<NamespaceScanStatusView>,
)
    ensures
        ({
            let condition = status::base_status(spec, now, existing).conditions[0];
            let targeted = spec.target.namespaces@.len() > 0 || (
            spec.target.label_selector matches Some(selector) && text_laws::has_ink(selector@));
            match scheduler::schedule_of(spec.schedule) {
                _ if !targeted => {
                    &&& condition.reason == Some("InvalidSpec"@)
                    &&& condition.message == Some(
                        "spec.target requires either namespaces or labelSelector to be non-empty"@,
                    )
                },
                Err(e) => {
                    &&& condition.reason == Some("InvalidSpec"@)
                    &&& condition.message == Some(e.text())
                },
                Ok(_) => condition.reason == Some("NotYetReconciled"@),
            }
        }),
{
    either_half_makes_a_target_valid(spec.target);
}

/// Before anything has been done there is one condition, `Ready` and `False`. The time of
/// reconciling is `now`; the record of scans and the time of the next one are those of before, or
/// absent.
pub proof fn base_status_keeps_the_rest(
    spec: NamespaceScanSpec,
    now: Timestamp,
    existing: Option<NamespaceScanStatusView>,
)
    ensures
        ({
            let after = status::base_status(spec, now, existing);
            &&& after.conditions.len() == 1
            &&& after.conditions[0].condition_type == "Ready"@
            &&& after.conditions[0].status == "False"@
            &&& after.last_reconciled_at == Some(time::rfc3339_text(now.seconds(), now.nanos()))
            &&& match existing {
                Some(before) => {
                    &&& after.last_scan_completed_at == before.last_scan_completed_at
                    &&& after.scanned_images == before.scanned_images
                    &&& after.next_scheduled_scan_at == before.next_scheduled_scan_at
                },
                None => {
                    &&& after.last_scan_completed_at is None
                    &&& after.scanned_images.len() == 0
                    &&& after.next_scheduled_scan_at is None
                },
            }
        }),
{
}

/// The time of transition is that of the first condition of type `Ready` if that has the same status
/// and the same reason and says since when; otherwise it is `now`. Conditions of other types, and
/// those behind the first, make no difference.
pub proof fn transition_time_is_that_of_the_first_ready(
    before: NamespaceScanStatusView,
    front: Seq<StatusConditionView>,
    ready: StatusConditionView,
    rest: Seq<StatusConditionView>,
    status: Seq<char>,
    reason: Seq<char>,
    now: Timestamp,
)
    requires
        before.conditions == front + seq![ready] + rest,
        forall|i: int| 0 <= i < front.len() ==> (#[trigger] front[i]).condition_type != "Ready"@,
        ready.condition_type == "Ready"@,
    ensures
        ready.status == status && ready.reason == Some(reason) && ready.last_transition_time is Some
            ==> Some(status::transition_time(Some(before), status, reason, now))
            == ready.last_transition_time,
        ready.status != status || ready.reason != Some(reason) || ready.last_transition_time is None
            ==> status::transition_time(Some(before), status, reason, now) == time::rfc3339_text(
            now.seconds(),
            now.nanos(),
        ),
{
    lemma_first_ready(front, ready, rest);
}

proof fn lemma_first_ready(
    front: Seq<StatusConditionView>,
    ready: StatusConditionView,
    rest: Seq<StatusConditionView>,
)
    requires
        forall|i: int| 0 <= i < front.len() ==> (#[trigger] front[i]).condition_type != "Ready"@,
        ready.condition_type == "Ready"@,
    ensures
        status::ready_condition(front + seq![ready] + rest) == Some(ready),
    decreases front.len(),
{
    let all = front + seq![ready] + rest;
    if front.len() > 0 {
        assert(all.first() == front[0]);
        assert forall|i: int| 0 <= i < front.drop_first().len() implies (
        #[trigger] front.drop_first()[i]).condition_type != "Ready"@ by {
            assert(front[i + 1].condition_type != "Ready"@);
        }
        lemma_first_ready(front.drop_first(), ready, rest);
        assert(all.drop_first() =~= front.drop_first() + seq![ready] + rest);
    } else {
        assert(all.first() == ready);
    }
}

/// Without a condition of type `Ready` the time of transition is `now`.
pub proof fn transition_time_is_now_without_ready(
    existing: Option<NamespaceScanStatusView>,
    status: Seq<char>,
    reason: Seq<char>,
    now: Timestamp,
)
    requires
        existing matches Some(before) ==> forall|i: int|
            0 <= i < before.conditions.len() ==> (#[trigger] before.conditions[i]).condition_type
                != "Ready"@,
    ensures
        status::transition_time(existing, status, reason, now) == time::rfc3339_text(
            now.seconds(),
            now.nanos(),
        ),
{
    if let Some(before) = existing {
        lemma_no_ready(before.conditions);
    }
}

proof fn lemma_no_ready(conditions: Seq<StatusConditionView>)
    requires
        forall|i: int|
            0 <= i < conditions.len() ==> (#[trigger] conditions[i]).condition_type != "Ready"@,
    ensures
        status::ready_condition(conditions) is None,
    decreases conditions.len(),
{
    if conditions.len() > 0 {
        assert(conditions[0].condition_type != "Ready"@);
        assert forall|i: int| 0 <= i < conditions.drop_first().len() implies (
        #[trigger] conditions.drop_first()[i]).condition_type != "Ready"@ by {
            assert(conditions[i + 1].condition_type != "Ready"@);
        }
        lemma_no_ready(conditions.drop_first());
    }
}

/// `image` for one image, and `images` for any other number.
pub proof fn one_image_is_singular(n: nat)
    ensures
        n == 1 ==> status::images_noun(n) == "image"@,
        n != 1 ==> status::images_noun(n) == "images"@,
{
}

/// What is reported about an orchestration: the reason by what came of it, and in the message the
/// number of images, the image and the error, or the verb, the namespace and the answer.
pub proof fn reports_of_orchestrations(
    n: nat,
    image_ref: Seq<char>,
    error: Seq<char>,
    verb_resource: Seq<char>,
    namespace: Seq<char>,
    message: Seq<char>,
)
    ensures
        status::orchestration_report(OrchestrationResultView::Spawned { distinct_images: n }).0
            == "Scanning"@,
        n == 1 ==> status::orchestration_report(
            OrchestrationResultView::Spawned { distinct_images: n },
        ).1 == "scanning "@ + text::decimal(n) + " distinct "@ + "image"@
            + " across target namespaces"@,
        n != 1 ==> status::orchestration_report(
            OrchestrationResultView::Spawned { distinct_images: n },
        ).1 == "scanning "@ + text::decimal(n) + " distinct "@ + "images"@
            + " across target namespaces"@,
        status::orchestration_report(OrchestrationResultView::NoImagesInScope) == (
            "NoImagesInScope"@,
            "target resolved to zero pods in phase Running or Pending"@,
        ),
        status::orchestration_report(OrchestrationResultView::BuildFailed { image_ref, error }) == (
            "BuildFailed"@,
            "failed to build scan Job for image "@ + text::quoted(image_ref) + ": "@ + error,
        ),
        status::orchestration_report(
            OrchestrationResultView::RbacInsufficient {
                verb_resource,
                namespace: Some(namespace),
                message,
            },
        ) == (
            "RBACInsufficient"@,
            "operator lacks RBAC to "@ + verb_resource + " in namespace "@ + namespace + ": "@
                + message,
        ),
        status::orchestration_report(
            OrchestrationResultView::RbacInsufficient { verb_resource, namespace: None, message },
        ) == (
            "RBACInsufficient"@,
            "operator lacks RBAC to "@ + verb_resource + ": "@ + message,
        ),
{
}

/// A status that is not ready for a reason has one condition that says so, since when status and
/// reason have been so; everything else is as it was.
pub proof fn not_ready_changes_the_condition_alone(
    base: NamespaceScanStatusView,
    existing: Option<NamespaceScanStatusView>,
    reason: Seq<char>,
    message: Seq<char>,
    now: Timestamp,
)
    ensures
        ({
            let after = status::not_ready(base, existing, reason, message, now);
            &&& after.conditions.len() == 1
            &&& after.conditions[0] == (StatusConditionView {
                condition_type: "Ready"@,
                status: "False"@,
                reason: Some(reason),
                message: Some(message),
                last_transition_time: Some(
                    status::transition_time(existing, "False"@, reason, now),
                ),
            })
            &&& after.last_reconciled_at == base.last_reconciled_at
            &&& after.last_scan_completed_at == base.last_scan_completed_at
            &&& after.scanned_images == base.scanned_images
            &&& after.next_scheduled_scan_at == base.next_scheduled_scan_at
        }),
{
}

/// While Jobs are running nothing changes. A Job that has failed for good makes the status not
/// ready, for the reason `ScanFailed`, with the image in the message; the record stays.
pub proof fn running_and_failed_jobs_leave_the_record(
    base: NamespaceScanStatusView,
    existing: Option<NamespaceScanStatusView>,
    image_ref: Seq<char>,
    now: Timestamp,
    running: NamespaceScanStatusView,
    failed: NamespaceScanStatusView,
)
    requires
        status::aggregated(base, existing, AggregatedOutcomeView::StillRunning, now, running),
        status::aggregated(
            base,
            existing,
            AggregatedOutcomeView::AnyFailed { image_ref },
            now,
            failed,
        ),
    ensures
        running == base,
        failed.conditions.len() == 1,
        failed.conditions[0] == (StatusConditionView {
            condition_type: "Ready"@,
            status: "False"@,
            reason: Some("ScanFailed"@),
            message: Some(
                "scan Job for image "@ + text::quoted(image_ref)
                    + " failed after exhausting its retries"@,
            ),
            last_transition_time: Some(
                status::transition_time(existing, "False"@, "ScanFailed"@, now),
            ),
        }),
        failed == (NamespaceScanStatusView { conditions: failed.conditions, ..base }),
{
}

/// When all Jobs have succeeded, the status is ready, for the reason `ScanCompleted`, and the scan
/// was completed when that was reported first. The message counts the images.
pub proof fn completed_scans_are_ready(
    base: NamespaceScanStatusView,
    existing: Option<NamespaceScanStatusView>,
    scanned: Seq<ScannedImageView>,
    now: Timestamp,
    after: NamespaceScanStatusView,
)
    requires
        status::aggregated(
            base,
            existing,
            AggregatedOutcomeView::AllSucceeded { scanned },
            now,
            after,
        ),
    ensures
        ({
            let since = status::transition_time(existing, "True"@, "ScanCompleted"@, now);
            let noun = if scanned.len() == 1 {
                "image"@
            } else {
                "images"@
            };
            &&& after.conditions.len() == 1
            &&& after.conditions[0] == (StatusConditionView {
                condition_type: "Ready"@,
                status: "True"@,
                reason: Some("ScanCompleted"@),
                message: Some(
                    "scanned "@ + text::decimal(scanned.len()) + " distinct "@ + noun
                        + " successfully"@,
                ),
                last_transition_time: Some(since),
            })
            &&& after.last_scan_completed_at == Some(since)
            &&& after.last_reconciled_at == base.last_reconciled_at
            &&& after.next_scheduled_scan_at == base.next_scheduled_scan_at
        }),
{
}

/// An entry for an image, with that time of completion.
pub open spec fn tells_completion(
    entries: Seq<ScannedImageView>,
    image: Seq<char>,
    completed_at: Seq<char>,
) -> bool {
    exists|i: int|
        0 <= i < entries.len() && (#[trigger] entries[i]).image_ref == image
            && entries[i].completed_at == completed_at
}

/// An image counts as newly completed exactly if no entry has it with the same time of completion;
/// and what is newly completed of two lists is what is of the one and then of the other.
pub proof fn newly_completed_images_are_not_on_record(
    entries: Seq<ScannedImageView>,
    image: ScannedImageView,
    a: Seq<ScannedImageView>,
    b: Seq<ScannedImageView>,
)
    ensures
        tells_completion(entries, image.image_ref, image.completed_at) ==> status::newly_completed(
            entries,
            seq![image],
        ).len() == 0,
        !tells_completion(entries, image.image_ref, image.completed_at) ==> status::newly_completed(
            entries,
            seq![image],
        ) == seq![image],
        status::newly_completed(entries, a + b) == status::newly_completed(entries, a)
            + status::newly_completed(entries, b),
{
    let one = seq![image];
    reveal_with_fuel(status::newly_completed, 2);
    assert(one.drop_last() =~= Seq::empty());
    assert(status::newly_completed(entries, one.drop_last()) =~= Seq::empty());
    assert(status::recorded(entries, image) <==> tells_completion(
        entries,
        image.image_ref,
        image.completed_at,
    ));
    assert(Seq::<ScannedImageView>::empty().push(image) =~= one);
    lemma_newly_completed_of_sum(entries, a, b);
}

proof fn lemma_newly_completed_of_sum(
    entries: Seq<ScannedImageView>,
    a: Seq<ScannedImageView>,
    b: Seq<ScannedImageView>,
)
    ensures
        status::newly_completed(entries, a + b) == status::newly_completed(entries, a)
            + status::newly_completed(entries, b),
    decreases b.len(),
{
    if b.len() == 0 {
        assert(a + b =~= a);
        assert(status::newly_completed(entries, a) + status::newly_completed(entries, b)
            =~= status::newly_completed(entries, a));
    } else {
        lemma_newly_completed_of_sum(entries, a, b.drop_last());
        assert((a + b).drop_last() =~= a + b.drop_last());
        assert((a + b).last() == b.last());
        assert(status::newly_completed(entries, a + b) =~= status::newly_completed(entries, a)
            + status::newly_completed(entries, b));
    }
}

/// Every image that was scanned, and every image that was on record, is on record when the scan is
/// reported as completed; no other is. Each is there once, in ascending order.
pub proof fn record_holds_what_was_scanned(
    base: NamespaceScanStatusView,
    existing: Option<NamespaceScanStatusView>,
    scanned: Seq<ScannedImageView>,
    now: Timestamp,
    after: NamespaceScanStatusView,
    image: Seq<char>,
)
    requires
        status::aggregated(
            base,
            existing,
            AggregatedOutcomeView::AllSucceeded { scanned },
            now,
            after,
        ),
    ensures
        (exists|i: int|
            0 <= i < after.scanned_images.len() && (#[trigger] after.scanned_images[i]).image_ref
                == image) <==> (exists|i: int|
            0 <= i < base.scanned_images.len() && (#[trigger] base.scanned_images[i]).image_ref
                == image) || (exists|i: int|
            0 <= i < scanned.len() && (#[trigger] scanned[i]).image_ref == image),
        forall|i: int, j: int|
            0 <= i < j < after.scanned_images.len() ==> text::text_lt(
                (#[trigger] after.scanned_images[i]).image_ref,
                (#[trigger] after.scanned_images[j]).image_ref,
            ),
{
    let fresh = status::newly_completed(base.scanned_images, scanned);
    let images = status_aggregator::entry_images(after.scanned_images);
    status_aggregator::merge_is_append_only(
        base.scanned_images,
        fresh,
        after.scanned_images,
        image,
    );
    lemma_has_image(after.scanned_images, image);
    lemma_has_image(base.scanned_images, image);
    lemma_has_image(fresh, image);
    lemma_fresh_image(base.scanned_images, scanned, image);
    assert forall|i: int, j: int| 0 <= i < j < after.scanned_images.len() implies text::text_lt(
        (#[trigger] after.scanned_images[i]).image_ref,
        (#[trigger] after.scanned_images[j]).image_ref,
    ) by {
        assert(text::text_lt(images[i], images[j]));
    }
}

proof fn lemma_has_image(entries: Seq<ScannedImageView>, image: Seq<char>)
    ensures
        status_aggregator::entry_images(entries).contains(image) <==> exists|i: int|
            0 <= i < entries.len() && (#[trigger] entries[i]).image_ref == image,
{
    let images = status_aggregator::entry_images(entries);
    if images.contains(image) {
        let i = images.index_of(image);
        assert(entries[i].image_ref == image);
    }
    if exists|i: int| 0 <= i < entries.len() && (#[trigger] entries[i]).image_ref == image {
        let i = choose|i: int|
            0 <= i < entries.len() && (#[trigger] entries[i]).image_ref == image;
        assert(images[i] == image);
    }
}

proof fn lemma_fresh_image(
    entries: Seq<ScannedImageView>,
    scanned: Seq<ScannedImageView>,
    image: Seq<char>,
)
    ensures
        ({
            let fresh = status::newly_completed(entries, scanned);
            let in_fresh = exists|i: int|
                0 <= i < fresh.len() && (#[trigger] fresh[i]).image_ref == image;
            let in_scanned = exists|i: int|
                0 <= i < scanned.len() && (#[trigger] scanned[i]).image_ref == image;
            let in_entries = exists|i: int|
                0 <= i < entries.len() && (#[trigger] entries[i]).image_ref == image;
            &&& in_fresh ==> in_scanned
            &&& in_scanned ==> in_fresh || in_entries
        }),
    decreases scanned.len(),
{
    let fresh = status::newly_completed(entries, scanned);
    if scanned.len() > 0 {
        let front = scanned.drop_last();
        let last = scanned.last();
        let before = status::newly_completed(entries, front);
        lemma_fresh_image(entries, front, image);
        if exists|i: int| 0 <= i < fresh.len() && (#[trigger] fresh[i]).image_ref == image {
            let i = choose|i: int| 0 <= i < fresh.len() && (#[trigger] fresh[i]).image_ref == image;
            if i < before.len() {
                assert(before[i].image_ref == image);
                let j = choose|j: int|
                    0 <= j < front.len() && (#[trigger] front[j]).image_ref == image;
                assert(scanned[j].image_ref == image);
            } else {
                assert(scanned[scanned.len() - 1].image_ref == image);
            }
        }
        if exists|i: int| 0 <= i < scanned.len() && (#[trigger] scanned[i]).image_ref == image {
            let i = choose|i: int|
                0 <= i < scanned.len() && (#[trigger] scanned[i]).image_ref == image;
            if i < front.len() {
                assert(front[i].image_ref == image);
                if exists|k: int| 0 <= k < before.len() && (#[trigger] before[k]).image_ref == image {
                    let k = choose|k: int|
                        0 <= k < before.len() && (#[trigger] before[k]).image_ref == image;
                    assert(fresh[k].image_ref == image);
                }
            } else if status::recorded(entries, last) {
                let k = choose|k: int|
                    0 <= k < entries.len() && (#[trigger] entries[k]).image_ref == last.image_ref
                        && entries[k].completed_at == last.completed_at;
                assert(entries[k].image_ref == image);
            } else {
                assert(fresh[fresh.len() - 1].image_ref == image);
            }
        }
    }
}

} // verus!
