use chrono::{DateTime, Utc};
use mikebom_operator::crds::namespace_scan::Schedule;
use mikebom_operator::k8s::{
    Container, EnvVar, Job, JobSpec, JobStatus, ObjectMeta, PodSpec, PodTemplateSpec,
};
use mikebom_operator::kube::{ErrorResponse, KubeError};
use mikebom_operator::reconcile::scheduler::{
    below_minimum_message, compute_next_scheduled_time, cr_uid_jitter_seconds, delayed,
    is_schedule_due, is_summed_safely, jitter_from_digest, next_scheduled_time, normalize_cron,
    parse_schedule, schedule_from_cron, schedule_from_interval, should_delete_job, Cleanup,
    CronSchedule, ScheduleError, ScheduleSpec, CRON_COMPLAINT, DURATION_COMPLAINT,
};
use mikebom_operator::time::{Span, Timestamp, LAST_SECOND};

fn ts(t: DateTime<Utc>) -> Timestamp {
    Timestamp::new(t.timestamp(), t.timestamp_subsec_nanos()).unwrap()
}

fn dt(t: Timestamp) -> DateTime<Utc> {
    DateTime::from_timestamp(t.epoch_seconds(), t.subsec_nanos()).unwrap()
}

fn schedule(cron: Option<&str>, interval: Option<&str>) -> Schedule {
    Schedule {
        cron: cron.map(String::from),
        interval: interval.map(String::from),
    }
}

fn anchor() -> Timestamp {
    ts(DateTime::parse_from_rfc3339("2026-06-29T14:00:00Z")
        .unwrap()
        .with_timezone(&Utc))
}

fn job_with_status(succeeded: Option<i32>, failed: Option<i32>, backoff: Option<i32>) -> Job {
    Job {
        metadata: ObjectMeta {
            name: Some("nsscan-test-abc1234".to_string()),
            ..Default::default()
        },
        spec: Some(JobSpec {
            backoff_limit: backoff,
            template: PodTemplateSpec {
                spec: Some(PodSpec {
                    init_containers: Some(vec![Container {
                        name: "init-pull".to_string(),
                        env: Some(vec![EnvVar {
                            name: "IMAGE_REF".to_string(),
                            value: Some("nginx:1.27.0".to_string()),
                            ..Default::default()
                        }]),
                        ..Default::default()
                    }]),
                    ..Default::default()
                }),
                ..Default::default()
            },
            ..Default::default()
        }),
        status: Some(JobStatus {
            succeeded,
            failed,
            ..Default::default()
        }),
    }
}

#[test]
fn t004_parse_schedule_valid_cron() {
    let result = parse_schedule(&schedule(Some("0 */6 * * *"), None));
    assert!(matches!(result, Ok(ScheduleSpec::Cron(_))));
}

#[test]
fn t005_parse_schedule_valid_interval() {
    let result = parse_schedule(&schedule(None, Some("6h")));
    match result {
        Ok(ScheduleSpec::Interval(d)) => {
            assert_eq!(d, Span::from_secs(6 * 3600));
        }
        other => panic!("expected Interval(6h), got {other:?}"),
    }
}

#[test]
fn t006_parse_schedule_invalid_cron_english_phrase() {
    let result = parse_schedule(&schedule(Some("every 6 hours"), None));
    assert!(matches!(result, Err(ScheduleError::InvalidCron(_))));
}

#[test]
fn t006_parse_schedule_invalid_cron_empty() {
    let result = parse_schedule(&schedule(Some(""), None));
    assert!(matches!(result, Err(ScheduleError::InvalidCron(_))));
}

#[test]
fn t007_parse_schedule_invalid_interval_garbage() {
    let result = parse_schedule(&schedule(None, Some("nonsense")));
    assert!(matches!(result, Err(ScheduleError::InvalidInterval(_))));
}

#[test]
fn t007_parse_schedule_invalid_interval_negative_rejected() {
    let result = parse_schedule(&schedule(None, Some("-1h")));
    assert!(matches!(result, Err(ScheduleError::InvalidInterval(_))));
}

#[test]
fn t007_parse_schedule_invalid_interval_zero_is_below_minimum() {
    let result = parse_schedule(&schedule(None, Some("0s")));
    assert!(matches!(
        result,
        Err(ScheduleError::IntervalBelowMinimum(_))
    ));
}

#[test]
fn t008_parse_schedule_both_set_is_error() {
    let result = parse_schedule(&schedule(Some("0 * * * *"), Some("1h")));
    assert_eq!(result.unwrap_err(), ScheduleError::BothSet);
}

#[test]
fn t008_parse_schedule_neither_set_is_error() {
    let result = parse_schedule(&schedule(None, None));
    assert_eq!(result.unwrap_err(), ScheduleError::NeitherSet);
}

#[test]
fn t009_parse_schedule_interval_below_minimum_500ms() {
    let result = parse_schedule(&schedule(None, Some("500ms")));
    assert!(matches!(
        result,
        Err(ScheduleError::IntervalBelowMinimum(_))
    ));
}

#[test]
fn t009_parse_schedule_interval_below_minimum_30s() {
    let result = parse_schedule(&schedule(None, Some("30s")));
    assert!(matches!(
        result,
        Err(ScheduleError::IntervalBelowMinimum(_))
    ));
}

#[test]
fn t009_parse_schedule_interval_exact_minimum_passes() {
    let result = parse_schedule(&schedule(None, Some("60s")));
    assert!(matches!(result, Ok(ScheduleSpec::Interval(d)) if d == Span::from_secs(60)));
}

#[test]
fn t010_compute_next_cron_hourly() {
    let s = parse_schedule(&schedule(Some("0 * * * *"), None)).unwrap();
    let next = compute_next_scheduled_time(&s, anchor(), Span::from_secs(0));
    assert_eq!(dt(next).to_rfc3339(), "2026-06-29T15:00:00+00:00");
}

#[test]
fn t010_compute_next_cron_with_jitter() {
    let s = parse_schedule(&schedule(Some("0 * * * *"), None)).unwrap();
    let next = compute_next_scheduled_time(&s, anchor(), Span::from_secs(17));
    assert_eq!(dt(next).to_rfc3339(), "2026-06-29T15:00:17+00:00");
}

#[test]
fn t011_compute_next_interval_one_hour() {
    let s = parse_schedule(&schedule(None, Some("1h"))).unwrap();
    let next = compute_next_scheduled_time(&s, anchor(), Span::from_secs(15));
    assert_eq!(dt(next).to_rfc3339(), "2026-06-29T15:00:15+00:00");
}

#[test]
fn t011_compute_next_interval_no_jitter() {
    let s = parse_schedule(&schedule(None, Some("2m"))).unwrap();
    let next = compute_next_scheduled_time(&s, anchor(), Span::from_secs(0));
    assert_eq!(dt(next).to_rfc3339(), "2026-06-29T14:02:00+00:00");
}

#[test]
fn t012_jitter_deterministic_for_same_uid() {
    let uid = "00000000-0000-0000-0000-000000000007";
    let a = cr_uid_jitter_seconds(uid);
    let b = cr_uid_jitter_seconds(uid);
    assert_eq!(a, b, "same uid MUST produce same jitter across calls");
}

#[test]
fn t012_jitter_bounded_to_0_60() {
    for n in 0..100 {
        let uid = format!("uid-{n:04}");
        let j = cr_uid_jitter_seconds(&uid);
        assert!(j < 60, "jitter {j} out of bounds for uid={uid}");
    }
}

#[test]
fn t012_jitter_distinct_uids_produce_distinct_outputs() {
    let mut seen = std::collections::HashSet::new();
    for n in 0..100 {
        seen.insert(cr_uid_jitter_seconds(&format!("uid-{n}")));
    }
    assert!(
        seen.len() >= 30,
        "expected >= 30 distinct jitter buckets across 100 UIDs, got {}",
        seen.len()
    );
}

#[test]
fn t013_is_schedule_due_true_when_now_at_or_past_next() {
    let next = anchor();
    assert!(is_schedule_due(next, next));
    assert!(is_schedule_due(next, ts(dt(next) + chrono::Duration::seconds(1))));
    assert!(is_schedule_due(next, ts(dt(next) + chrono::Duration::hours(1))));
}

#[test]
fn t013_is_schedule_due_false_when_now_before_next() {
    let next = anchor();
    assert!(!is_schedule_due(next, ts(dt(next) - chrono::Duration::seconds(1))));
    assert!(!is_schedule_due(next, ts(dt(next) - chrono::Duration::hours(1))));
}

#[test]
fn t014_should_delete_succeeded_job() {
    let job = job_with_status(Some(1), None, Some(6));
    assert!(should_delete_job(&job));
}

#[test]
fn t014_should_delete_finally_failed_job() {
    let job = job_with_status(None, Some(7), Some(6));
    assert!(should_delete_job(&job));
}

#[test]
fn t014_should_not_delete_in_progress_job() {
    let job = job_with_status(None, Some(3), Some(6));
    assert!(!should_delete_job(&job));
}

#[test]
fn t014_should_not_delete_pending_job() {
    let job = job_with_status(None, None, Some(6));
    assert!(!should_delete_job(&job));
}

#[test]
fn t033_compute_next_with_past_anchor_returns_one_future_time() {
    let now = ts(Utc::now());
    let past_anchor = ts(dt(now) - chrono::Duration::minutes(5));
    let s = parse_schedule(&schedule(None, Some("60s"))).unwrap();
    let next = compute_next_scheduled_time(&s, past_anchor, Span::from_secs(0));
    assert!(
        next < now,
        "next should be past for an old anchor + 60s interval"
    );
    assert!(is_schedule_due(next, now));
}

fn api_error(code: u16) -> KubeError {
    KubeError {
        response: Some(ErrorResponse {
            code,
            message: "no".to_string(),
        }),
        text: format!("ApiError: {code}"),
    }
}

fn named_job(name: Option<&str>, succeeded: Option<i32>, failed: Option<i32>) -> Job {
    let mut job = job_with_status(succeeded, failed, Some(2));
    job.metadata.name = name.map(String::from);
    job
}

fn message_of(cron: Option<&str>, interval: Option<&str>) -> String {
    parse_schedule(&schedule(cron, interval)).unwrap_err().message()
}

#[test]
fn cron_is_normalized_to_seven_fields() {
    assert_eq!(normalize_cron("  0  */6 * * * ").unwrap(), "0 0  */6 * * * *");
    match parse_schedule(&schedule(Some("0 */6 * * *"), None)).unwrap() {
        ScheduleSpec::Cron(cron) => assert_eq!(cron.as_str(), "0 0 */6 * * * *"),
        ScheduleSpec::Interval(_) => panic!("expected a cron schedule"),
    }
}

#[test]
fn cron_with_more_or_fewer_fields_is_refused() {
    assert_eq!(
        normalize_cron("0 0 * * * *").unwrap_err(),
        ScheduleError::InvalidCron(
            "expected standard 5-field cron expression (minute hour day-of-month month day-of-week); got 6 field(s)"
                .to_string()
        ),
    );
    assert_eq!(
        message_of(Some("every 6 hours"), None),
        "spec.schedule.cron is not a valid cron expression: expected standard 5-field cron \
         expression (minute hour day-of-month month day-of-week); got 3 field(s)",
    );
    assert!(normalize_cron("\u{2003}1\u{a0}2\t3\n4 5\u{3000}").is_ok());
}

#[test]
fn cron_that_cannot_be_read_is_refused() {
    assert_eq!(
        message_of(Some("61 * * * *"), None),
        "spec.schedule.cron is not a valid cron expression: Invalid expression: Invalid cron expression.",
    );
    assert_eq!(
        message_of(Some("*/0 * * * *"), None),
        format!("spec.schedule.cron is not a valid cron expression: {CRON_COMPLAINT}"),
    );
    assert_eq!(
        CronSchedule::new("not cron".to_string()).unwrap_err(),
        CRON_COMPLAINT,
    );
    assert!(CronSchedule::new("0 0 * * * * *".to_string()).is_ok());
}

#[test]
fn schedule_is_made_of_what_was_read() {
    assert_eq!(
        schedule_from_cron(Err("bad".to_string())).unwrap_err(),
        ScheduleError::InvalidCron("bad".to_string()),
    );
    assert_eq!(
        schedule_from_interval(Err("bad".to_string())).unwrap_err(),
        ScheduleError::InvalidInterval("bad".to_string()),
    );
    assert_eq!(
        schedule_from_interval(Ok(Span::new(59, 999_999_999))).unwrap_err(),
        ScheduleError::IntervalBelowMinimum(Span::new(59, 999_999_999)),
    );
    assert!(matches!(
        schedule_from_interval(Ok(Span::from_secs(60))),
        Ok(ScheduleSpec::Interval(d)) if d == Span::from_secs(60)
    ));
}

#[test]
fn intervals_are_read_by_humantime() {
    match parse_schedule(&schedule(None, Some("1h 30m 5s 250ms"))).unwrap() {
        ScheduleSpec::Interval(d) => assert_eq!(d, Span::new(5405, 250_000_000)),
        ScheduleSpec::Cron(_) => panic!("expected an interval"),
    }
    assert_eq!(
        message_of(None, Some("nonsense")),
        "spec.schedule.interval is not a valid Go-style duration: expected number at 0",
    );
    assert_eq!(
        message_of(None, Some("")),
        "spec.schedule.interval is not a valid Go-style duration: value was empty",
    );
    assert_eq!(
        message_of(None, Some("99999999999999999999s")),
        "spec.schedule.interval is not a valid Go-style duration: number is too large or cannot be \
         represented without a lack of precision (values below 1ns are not supported)",
    );
}

#[test]
fn short_intervals_are_shown() {
    assert_eq!(
        message_of(None, Some("30s")),
        "spec.schedule.interval must be at least 1 minute (got 30s)",
    );
    assert_eq!(
        message_of(None, Some("1500ms")),
        "spec.schedule.interval must be at least 1 minute (got 1.5s)",
    );
    assert_eq!(
        below_minimum_message("x"),
        "spec.schedule.interval must be at least 1 minute (got x)",
    );
}

#[test]
fn one_way_is_asked_for() {
    assert_eq!(
        message_of(Some("0 * * * *"), Some("1h")),
        "spec.schedule has both cron and interval set; exactly one is required",
    );
    assert_eq!(
        message_of(None, None),
        "spec.schedule has neither cron nor interval set; exactly one is required",
    );
}

#[test]
fn sums_of_two_to_the_64_seconds_are_told_apart() {
    for text in [
        "",
        "0",
        "6h",
        "1h 30m 500ms",
        "1.0000000000000h 1s",
        "600000000000h 1ns",
        "18446744073709551615.999s",
        "18446744073709551615s 999999999ns",
        "18446744073709551615s 1001ms",
        "18446744073709551615s 1 minute",
        "99999999999999999999999s 1h",
        "18446744073709551615s 1000unknown",
        "18446744073709551615.5s 0.49s",
    ] {
        assert!(is_summed_safely(text), "{text}");
    }
    for text in [
        "18446744073709551615s 1000ms",
        "18446744073709551615s1000millis",
        "1844674407370955161 5s 1000000\u{b5}s 1h",
        "18446744073709551615.5s 0.5s",
        "18446744073709551615.5s 500ms 1ns",
        "1000ms 18446744073709551615s",
        "18446744073709551615s 999999.0us 1.0us",
    ] {
        assert!(!is_summed_safely(text), "{text}");
        assert_eq!(
            parse_schedule(&schedule(None, Some(text))).unwrap_err(),
            ScheduleError::InvalidInterval(DURATION_COMPLAINT.to_string()),
        );
    }
}

#[test]
fn malformed_durations_get_the_complaint_of_humantime() {
    for text in [
        "!18446744073709551616s",
        "5x 18446744073709551616s",
        "18446744073709551616s!",
        "18446744073709551615s 1000ms-",
        "1. s 18446744073709551615s 1000ms",
        "1.5.5s 18446744073709551615s 1000ms",
        "h 18446744073709551615s 1000ms",
        "1h m 18446744073709551615s 1000ms",
        "18446744073709551615s 1000ms",
    ] {
        let safe = text != "18446744073709551615s 1000ms";
        assert_eq!(is_summed_safely(text), safe, "{text}");
        let complaint = if safe {
            humantime::parse_duration(text).unwrap_err().to_string()
        } else {
            DURATION_COMPLAINT.to_string()
        };
        assert_eq!(
            parse_schedule(&schedule(None, Some(text))).unwrap_err(),
            ScheduleError::InvalidInterval(complaint),
        );
    }
    for text in ["18446744073709551616s", "18446744073709551615s 1s", "18446744073709551615s1 s x"] {
        assert!(!is_summed_safely(text), "{text}");
        assert_eq!(
            humantime::parse_duration(text).unwrap_err().to_string(),
            DURATION_COMPLAINT,
        );
    }
}

#[test]
fn units_are_those_of_humantime() {
    let limit: u128 = (1u128 << 64) * 1_000_000_000;
    for (words, nanos) in [
        (vec!["nanos", "nsec", "ns"], 1u128),
        (vec!["usec", "us", "\u{b5}s"], 1_000),
        (vec!["millis", "msec", "ms"], 1_000_000),
        (vec!["seconds", "second", "secs", "sec", "s"], 1_000_000_000),
        (vec!["minutes", "minute", "min", "mins", "m"], 60_000_000_000),
        (vec!["hours", "hour", "hr", "hrs", "h"], 3_600_000_000_000),
        (vec!["days", "day", "d"], 86_400_000_000_000),
        (vec!["weeks", "week", "wk", "wks", "w"], 604_800_000_000_000),
        (vec!["months", "month", "M"], 2_630_016_000_000_000),
        (vec!["years", "year", "yr", "yrs", "y"], 31_557_600_000_000_000),
    ] {
        let number = if nanos < 1_000_000_000 {
            ((1u128 << 64) - 1) / nanos
        } else {
            (limit - 1) / nanos
        };
        let rest = limit - 1 - number * nanos;
        let (seconds, below) = (rest / 1_000_000_000, rest % 1_000_000_000);
        for word in words {
            let most = format!("{number}{word} {seconds}s {below}ns");
            assert!(is_summed_safely(&most), "{most}");
            match parse_schedule(&schedule(None, Some(&most))) {
                Ok(ScheduleSpec::Interval(span)) => {
                    assert_eq!(span, Span::new(u64::MAX, 999_999_999), "{most}");
                }
                other => panic!("{most}: {other:?}"),
            }
            let more = format!("{number}{word} {seconds}s {}ns", below + 1);
            assert!(!is_summed_safely(&more), "{more}");
        }
    }
}

#[test]
fn long_sums_are_read() {
    for (text, seconds, nanos) in [
        ("1.0000000000000h 1s", 3601, 0),
        ("1.5h 0.25m", 5415, 0),
        ("600000000000h 1ns", 2160000000000000, 1),
        ("18446744073709551615.999s", u64::MAX, 999_000_000),
        ("18446744073709551555s 1 minute", u64::MAX, 0),
        ("9999999999y 9999999999y 1millis", 631151999936884800, 1_000_000),
        ("600000000000ms 1000000000000nsec 1m", 600001060, 0),
    ] {
        match parse_schedule(&schedule(None, Some(text))) {
            Ok(ScheduleSpec::Interval(span)) => {
                assert_eq!(span, Span::new(seconds, nanos), "{text}");
            }
            other => panic!("{text}: {other:?}"),
        }
    }
    for text in [
        "18446744073709551615s 1 minute",
        "18446744073709551615s 1001ms",
        "99999999999999999999999s 1h",
        "1.00000000000000000000s 1h",
    ] {
        let result = parse_schedule(&schedule(None, Some(text)));
        assert!(matches!(result, Err(ScheduleError::InvalidInterval(_))), "{text}");
    }
}

#[test]
fn next_tick_lies_after_the_anchor() {
    let s = parse_schedule(&schedule(Some("*/15 * * * *"), None)).unwrap();
    let half = Timestamp::new(anchor().epoch_seconds(), 500_000_000).unwrap();
    let next = compute_next_scheduled_time(&s, half, Span::new(1, 250_000_000));
    assert_eq!(dt(next).to_rfc3339(), "2026-06-29T14:15:01.250+00:00");
    assert!(half.is_before(&next));
    assert_eq!(next_scheduled_time(&s, half, Span::new(1, 250_000_000)), Some(next));
}

#[test]
fn impossible_dates_have_no_next_time() {
    let s = parse_schedule(&schedule(Some("0 0 30 2 *"), None)).unwrap();
    assert_eq!(next_scheduled_time(&s, anchor(), Span::from_secs(0)), None);
}

#[test]
fn calendar_ends_the_schedule() {
    let last = Timestamp::new(LAST_SECOND, 0).unwrap();
    let hourly = parse_schedule(&schedule(Some("0 * * * *"), None)).unwrap();
    assert_eq!(next_scheduled_time(&hourly, last, Span::from_secs(0)), None);
    let minute = parse_schedule(&schedule(None, Some("1m"))).unwrap();
    assert_eq!(next_scheduled_time(&minute, last, Span::from_secs(0)), None);
    let before = Timestamp::new(LAST_SECOND - 60, 0).unwrap();
    assert_eq!(next_scheduled_time(&minute, before, Span::from_secs(0)), Some(last));
    assert_eq!(next_scheduled_time(&minute, before, Span::from_secs(1)), None);
    let long = ScheduleSpec::Interval(Span::from_secs(u64::MAX));
    assert_eq!(next_scheduled_time(&long, anchor(), Span::from_secs(0)), None);
}

#[test]
fn adding_to_a_leap_second_agrees_with_chrono() {
    let leap = Timestamp::new(59, 1_400_000_000).unwrap();
    for (seconds, nanos) in [(0, 0), (0, 599_999_999), (0, 600_000_000), (1, 0), (61, 700_000_000)] {
        let span = chrono::Duration::new(seconds, nanos).unwrap();
        assert_eq!(
            delayed(leap, Span::new(seconds as u64, nanos)).map(dt),
            Some(dt(leap) + span),
            "{seconds} {nanos}",
        );
    }
}

#[test]
fn jitter_is_taken_from_the_digest() {
    assert_eq!(cr_uid_jitter_seconds(""), 28);
    assert_eq!(cr_uid_jitter_seconds("uid-1"), 57);
    assert_eq!(cr_uid_jitter_seconds("11111111-2222-3333-4444-555555555555"), 3);
    assert_eq!(jitter_from_digest(&[0x01, 0x00, 0xff]), 256 % 60);
    assert_eq!(jitter_from_digest(&[0xff, 0xff]), 65535 % 60);
}

#[test]
fn cleanup_deletes_terminal_jobs_in_order() {
    let owned = vec![
        named_job(Some("done"), Some(1), None),
        named_job(Some("running"), None, Some(1)),
        named_job(None, Some(1), None),
        named_job(Some("failed"), None, Some(3)),
        named_job(Some("gone"), Some(1), None),
    ];
    let cleanup = Cleanup::new(&owned);
    assert_eq!(cleanup.next_deletion(), Some("done"));
    let cleanup = cleanup.record(Ok(())).unwrap();
    assert_eq!(cleanup.next_deletion(), Some("failed"));
    let cleanup = cleanup.record(Ok(())).unwrap();
    assert_eq!(cleanup.next_deletion(), Some("gone"));
    let cleanup = cleanup.record(Err(api_error(404))).unwrap();
    assert_eq!(cleanup.next_deletion(), None);
    assert_eq!(cleanup.deleted(), 2);
}

#[test]
fn cleanup_ends_with_any_other_failure() {
    let owned = vec![named_job(Some("done"), Some(1), None)];
    let error = Cleanup::new(&owned).record(Err(api_error(500))).unwrap_err();
    assert_eq!(error, api_error(500));
    let unreachable = KubeError {
        response: None,
        text: "connection refused".to_string(),
    };
    assert!(Cleanup::new(&owned).record(Err(unreachable)).is_err());
}

#[test]
fn cleanup_of_nothing_is_done() {
    let cleanup = Cleanup::new(&[named_job(Some("running"), None, None)]);
    assert_eq!(cleanup.next_deletion(), None);
    assert_eq!(cleanup.deleted(), 0);
}
