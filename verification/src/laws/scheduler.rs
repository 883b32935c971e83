//! Laws of schedules.
use crate::crds::namespace_scan::Schedule;
use crate::k8s::JobView;
use crate::kube::KubeError;
use crate::laws::status_aggregator as job_laws;
use crate::laws::text as text_laws;
use crate::reconcile::scheduler::{self, CleanupView, ScheduleErrorView, ScheduleSpecView};
use crate::text;
use crate::time::{self, Timestamp};
use vstd::prelude::*;

verus! {

/// An optional instant stands for its seconds and nanoseconds.
pub proof fn points_are_seconds_and_nanoseconds(t: Timestamp)
    ensures
        scheduler::point_of(None) is None,
        scheduler::point_of(Some(t)) == Some((t.seconds() as int, t.nanos() as int)),
{
}

/// With a cron expression, the next time is the tick that the `cron` crate finds after the anchor
/// itself, and the jitter later. There is none if there is no such tick, if the calendar ends before,
/// or at the last second of the calendar.
pub proof fn cron_goes_by_the_tick_after_the_anchor(
    expression: Seq<char>,
    anchor: (i64, u32),
    jitter: (u64, u32),
)
    requires
        jitter.1 < 1_000_000_000,
    ensures
        ({
            let next = scheduler::next_time(ScheduleSpecView::Cron(expression), anchor, jitter);
            match scheduler::cron_tick(expression, anchor.0, anchor.1) {
                _ if anchor.0 == time::LAST_SECOND => next is None,
                None => next is None,
                Some(tick) => if tick + jitter.0 <= time::LAST_SECOND {
                    next == Some((tick + jitter.0, jitter.1 as int))
                } else {
                    next is None
                },
            }
        }),
{
    if anchor.0 != time::LAST_SECOND {
        if let Some(tick) = scheduler::cron_tick(expression, anchor.0, anchor.1) {
            let (s, n) = time::shifted(tick as int, 0, jitter.0 as int, jitter.1 as int);
            assert(s == tick + jitter.0 && n == jitter.1);
        }
    }
}

/// With an interval, outside of leap seconds, the next time lies the interval and the jitter after
/// the anchor, to the nanosecond. There is none exactly if the calendar ends before.
pub proof fn interval_goes_by_the_sum(
    anchor: (i64, u32),
    interval: (u64, u32),
    jitter: (u64, u32),
)
    requires
        anchor.1 < 1_000_000_000,
        interval.1 < 1_000_000_000,
        jitter.1 < 1_000_000_000,
    ensures
        ({
            let next = scheduler::next_time(
                ScheduleSpecView::Interval(interval.0, interval.1),
                anchor,
                jitter,
            );
            let sum = (anchor.0 + interval.0 + jitter.0) * 1_000_000_000 + anchor.1 + interval.1
                + jitter.1;
            &&& next is Some <==> sum < (time::LAST_SECOND + 1) * 1_000_000_000
            &&& next matches Some((s, n)) ==> s * 1_000_000_000 + n == sum && 0 <= n
                < 1_000_000_000
        }),
{
    let (s, n) = time::shifted(
        anchor.0 as int,
        anchor.1 as int,
        interval.0 as int,
        interval.1 as int,
    );
    let (p, q) = time::shifted(s, n, jitter.0 as int, jitter.1 as int);
}

/// Within a leap second the nanoseconds beyond the full second do not count, unless the span ends
/// within it.
pub proof fn interval_leaves_a_leap_second(anchor: (i64, u32), interval: (u64, u32))
    requires
        1_000_000_000 <= anchor.1 < 2_000_000_000,
        1 <= interval.0,
        interval.1 < 1_000_000_000,
    ensures
        scheduler::next_time(
            ScheduleSpecView::Interval(interval.0, interval.1),
            anchor,
            (0u64, 0u32),
        ) matches Some((s, n)) ==> s * 1_000_000_000 + n == (anchor.0 + interval.0 - 1)
            * 1_000_000_000 + anchor.1 + interval.1,
{
    let (s, n) = time::shifted(
        anchor.0 as int,
        anchor.1 as int,
        interval.0 as int,
        interval.1 as int,
    );
    let (p, q) = time::shifted(s, n, 0, 0);
}

/// A text without white space.
pub open spec fn is_word(s: Seq<char>) -> bool {
    s.len() > 0 && forall|i: int| 0 <= i < s.len() ==> !text::white_space(#[trigger] s[i])
}

/// Fields are words: a blank text has none, a word is one, and the fields on both sides of white
/// space add up.
pub proof fn fields_are_words(s: Seq<char>, a: Seq<char>, space: char, b: Seq<char>)
    requires
        text::white_space(space),
    ensures
        !text_laws::has_ink(s) ==> scheduler::field_count(s) == 0,
        is_word(s) ==> scheduler::field_count(s) == 1,
        scheduler::field_count(a + seq![space] + b) == scheduler::field_count(a)
            + scheduler::field_count(b),
{
    if !text_laws::has_ink(s) {
        lemma_no_field(s);
    }
    if is_word(s) {
        lemma_one_field(s);
    }
    lemma_fields_add_up(a, space, b);
}

proof fn lemma_no_field(s: Seq<char>)
    requires
        !text_laws::has_ink(s),
    ensures
        scheduler::field_count(s) == 0,
    decreases s.len(),
{
    if s.len() > 0 {
        let front = s.drop_last();
        assert(text::white_space(s[s.len() - 1]));
        if text_laws::has_ink(front) {
            let k = choose|k: int| 0 <= k < front.len() && !#[trigger] text::white_space(front[k]);
            assert(!text::white_space(s[k]));
        }
        lemma_no_field(front);
    }
}

proof fn lemma_one_field(s: Seq<char>)
    requires
        is_word(s),
    ensures
        scheduler::field_count(s) == 1,
    decreases s.len(),
{
    let front = s.drop_last();
    assert(!text::white_space(s[s.len() - 1]));
    if front.len() > 0 {
        assert forall|i: int| 0 <= i < front.len() implies !text::white_space(#[trigger] front[i]) by {
            assert(!text::white_space(s[i]));
        }
        assert(front.last() == front[front.len() - 1]);
        lemma_one_field(front);
    } else {
        reveal_with_fuel(scheduler::field_count, 2);
    }
}

proof fn lemma_fields_add_up(a: Seq<char>, space: char, b: Seq<char>)
    requires
        text::white_space(space),
    ensures
        scheduler::field_count(a + seq![space] + b) == scheduler::field_count(a)
            + scheduler::field_count(b),
    decreases b.len(),
{
    let all = a + seq![space] + b;
    if b.len() == 0 {
        assert(all.drop_last() =~= a);
        assert(all.last() == space);
    } else {
        let front = b.drop_last();
        lemma_fields_add_up(a, space, front);
        assert(all.drop_last() =~= a + seq![space] + front);
        assert(all.last() == b.last());
        assert(all.drop_last().last() == if front.len() > 0 {
            front.last()
        } else {
            space
        });
    }
}

/// A schedule is followed as it is written. Both ways, or neither, are refused. A cron expression
/// with five fields, trimmed and with seconds in front and years behind, is followed exactly if the
/// `cron` crate accepts it; one with more or fewer fields is refused with their number.
pub proof fn cron_expressions_are_read(spec: Schedule, cron: String)
    requires
        spec.cron == Some(cron),
    ensures
        ({
            let written = text::trimmed(cron@);
            let full = "0 "@ + written + " *"@;
            let n = scheduler::field_count(written);
            let schedule = scheduler::schedule_of(spec);
            &&& spec.interval is Some ==> schedule == Err::<ScheduleSpecView, ScheduleErrorView>(
                ScheduleErrorView::BothSet,
            )
            &&& spec.interval is None && n == 5 && scheduler::cron_accepts(full) ==> schedule
                == Ok::<ScheduleSpecView, ScheduleErrorView>(ScheduleSpecView::Cron(full))
            &&& spec.interval is None && n == 5 && !scheduler::cron_accepts(full) ==> schedule
                == Err::<ScheduleSpecView, ScheduleErrorView>(
                ScheduleErrorView::InvalidCron("Invalid expression: Invalid cron expression."@),
            )
            &&& spec.interval is None && n != 5 ==> schedule
                == Err::<ScheduleSpecView, ScheduleErrorView>(
                ScheduleErrorView::InvalidCron(
                    "expected standard 5-field cron expression (minute hour day-of-month month day-of-week); got "@
                        + text::decimal(n) + " field(s)"@,
                ),
            )
        }),
{
}

/// An interval is what `humantime` reads: refused with its complaint if it rejects it, refused as too
/// short below sixty seconds, and followed otherwise.
pub proof fn intervals_are_read(spec: Schedule, interval: String)
    requires
        spec.cron is None,
        spec.interval == Some(interval),
        scheduler::sums_safely(interval@),
    ensures
        scheduler::schedule_of(spec) == match scheduler::human_duration(interval@) {
            Err(complaint) => Err(ScheduleErrorView::InvalidInterval(complaint)),
            Ok((seconds, nanos)) => if seconds < 60 {
                Err(ScheduleErrorView::IntervalBelowMinimum(seconds, nanos))
            } else {
                Ok(ScheduleSpecView::Interval(seconds, nanos))
            },
        },
{
}

/// A schedule that is set in neither way is refused, and so is an interval that is too long to be
/// added up.
pub proof fn other_schedules_are_refused(spec: Schedule)
    requires
        spec.cron is None,
    ensures
        spec.interval is None ==> scheduler::schedule_of(spec) == Err::<
            ScheduleSpecView,
            ScheduleErrorView,
        >(ScheduleErrorView::NeitherSet),
        (spec.interval matches Some(interval) && !scheduler::sums_safely(interval@))
            ==> scheduler::schedule_of(spec) == Err::<ScheduleSpecView, ScheduleErrorView>(
            ScheduleErrorView::InvalidInterval(
                "number is too large or cannot be represented without a lack of precision (values below 1ns are not supported)"@,
            ),
        ),
{
}

/// The jitter is what is left of the number that the first two bytes of the digest make when whole
/// minutes are taken from it.
pub proof fn jitter_is_a_remainder(digest: Seq<u8>)
    ensures
        0 <= scheduler::digest_jitter(digest) < 60,
        exists|minutes: int|
            minutes >= 0 && digest[0] * 256 + digest[1] == #[trigger] (minutes * 60)
                + scheduler::digest_jitter(digest),
{
    let n = digest[0] * 256 + digest[1];
    let minutes = n / 60;
    assert(n == minutes * 60 + scheduler::digest_jitter(digest));
}

/// A Job has come to an end exactly if a pod of it has succeeded, or more pods have failed than its
/// backoff limit says.
pub proof fn jobs_end_by_success_or_exhaustion(job: JobView)
    ensures
        scheduler::terminal(job) <==> job_laws::has_success(job) || job_laws::exhausted(job),
{
}

/// The Jobs that are deleted are, in their order, those that have come to an end and have a name.
pub proof fn ended_jobs_are_deleted_one_by_one(a: Seq<JobView>, job: JobView, b: Seq<JobView>)
    ensures
        scheduler::terminal_names(seq![job]) == match job.metadata.name {
            Some(name) if job_laws::has_success(job) || job_laws::exhausted(job) => seq![name],
            _ => Seq::empty(),
        },
        scheduler::terminal_names(a + b) == scheduler::terminal_names(a)
            + scheduler::terminal_names(b),
{
    reveal_with_fuel(scheduler::terminal_names, 2);
    let one = seq![job];
    assert(one.drop_last() =~= Seq::empty());
    jobs_end_by_success_or_exhaustion(job);
    assert(scheduler::terminal_names(one) =~= match job.metadata.name {
        Some(name) if job_laws::has_success(job) || job_laws::exhausted(job) => seq![name],
        _ => Seq::empty(),
    });
    lemma_names_of_sum(a, b);
}

proof fn lemma_names_of_sum(a: Seq<JobView>, b: Seq<JobView>)
    ensures
        scheduler::terminal_names(a + b) == scheduler::terminal_names(a)
            + scheduler::terminal_names(b),
    decreases b.len(),
{
    if b.len() == 0 {
        assert(a + b =~= a);
        assert(scheduler::terminal_names(a) + scheduler::terminal_names(b)
            =~= scheduler::terminal_names(a));
    } else {
        lemma_names_of_sum(a, b.drop_last());
        assert((a + b).drop_last() =~= a + b.drop_last());
        assert((a + b).last() == b.last());
        assert(scheduler::terminal_names(a + b) =~= scheduler::terminal_names(a)
            + scheduler::terminal_names(b));
    }
}

/// A deletion that went through counts; one that finds no such Job does not, and the cleanup goes on;
/// any other failure ends it.
pub proof fn deletions_go_by_the_answer(state: CleanupView, e: KubeError)
    ensures
        scheduler::after_deletion(state, Ok(())) == Ok::<CleanupView, KubeError>(
            CleanupView { pending: state.pending.drop_first(), deleted: state.deleted + 1 },
        ),
        (e.response matches Some(response) && response.code == 404) ==> scheduler::after_deletion(
            state,
            Err(e),
        ) == Ok::<CleanupView, KubeError>(
            CleanupView { pending: state.pending.drop_first(), deleted: state.deleted },
        ),
        !(e.response matches Some(response) && response.code == 404) ==> scheduler::after_deletion(
            state,
            Err(e),
        ) == Err::<CleanupView, KubeError>(e),
{
}

} // verus!
