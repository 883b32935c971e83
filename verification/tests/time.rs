use chrono::{DateTime, Utc};
use mikebom_operator::time::{
    Span, Timestamp, FIRST_RFC3339_SECOND, FIRST_SECOND, LAST_RFC3339_SECOND, LAST_SECOND,
};

#[test]
fn calendar_ends_where_chrono_does() {
    assert_eq!(FIRST_SECOND, DateTime::<Utc>::MIN_UTC.timestamp());
    assert_eq!(LAST_SECOND, DateTime::<Utc>::MAX_UTC.timestamp());
    for (seconds, nanos) in [
        (FIRST_SECOND - 1, 0),
        (FIRST_SECOND, 0),
        (LAST_SECOND, 999_999_999),
        (LAST_SECOND, 1_999_999_999),
        (LAST_SECOND, 2_000_000_000),
        (LAST_SECOND + 1, 0),
        (i64::MIN, 0),
        (i64::MAX, 0),
    ] {
        assert_eq!(
            Timestamp::new(seconds, nanos).is_some(),
            DateTime::from_timestamp(seconds, nanos).is_some(),
            "{seconds} {nanos}",
        );
    }
}

#[test]
fn leap_seconds_end_a_minute() {
    for seconds in -130..130 {
        assert_eq!(
            Timestamp::new(seconds, 1_500_000_000).is_some(),
            DateTime::from_timestamp(seconds, 1_500_000_000).is_some(),
            "{seconds}",
        );
    }
    assert!(Timestamp::new(59, 1_000_000_000).is_some());
    assert!(Timestamp::new(60, 1_000_000_000).is_none());
}

#[test]
fn rfc3339_writes_four_digit_years() {
    let first = DateTime::from_timestamp(FIRST_RFC3339_SECOND, 0).unwrap();
    let last = DateTime::from_timestamp(LAST_RFC3339_SECOND, 0).unwrap();
    assert_eq!(first.to_rfc3339(), "0000-01-01T00:00:00+00:00");
    assert_eq!(last.to_rfc3339(), "9999-12-31T23:59:59+00:00");
    let later = DateTime::from_timestamp(LAST_RFC3339_SECOND + 1, 0).unwrap();
    assert!(DateTime::parse_from_rfc3339(&later.to_rfc3339()).is_err());
}

#[test]
fn instants_are_ordered_by_seconds_and_then_by_nanoseconds() {
    let a = Timestamp::new(5, 7).unwrap();
    let b = Timestamp::new(5, 8).unwrap();
    let c = Timestamp::new(6, 0).unwrap();
    assert!(a.is_before(&b) && b.is_before(&c) && a.is_before(&c));
    assert!(!a.is_before(&a) && !c.is_before(&a));
    assert!(a < b && b < c);
    assert_eq!((a.epoch_seconds(), a.subsec_nanos()), (5, 7));
}

#[test]
fn spans_are_ordered_by_seconds_and_then_by_nanoseconds() {
    let short = Span::new(59, 999_999_999);
    let minute = Span::from_secs(60);
    assert!(short.is_shorter(&minute));
    assert!(!minute.is_shorter(&minute));
    assert!(minute.is_shorter(&Span::new(60, 1)));
    assert_eq!((short.whole_seconds(), short.subsec_nanos()), (59, 999_999_999));
}
