//! When to scan again.
use crate::crds::namespace_scan::Schedule;
use crate::digest::{self, sha256_digest};
use crate::k8s::{Job, JobView};
use crate::kube::KubeError;
use crate::reconcile::status_aggregator::{self, is_job_finally_failed, is_job_succeeded};
use crate::text::{self, push_decimal, text_eq};
use crate::time::{self, checked_add, Span, Timestamp, LAST_SECOND, NANOS_PER_SECOND};
use crate::view;
use std::str::FromStr;
use vstd::prelude::*;
use vstd::string::{StrSliceExecFns, StringExecFns};

verus! {

/// A cron expression that the `cron` crate accepts: seconds, minutes, hours, days of the month,
/// months, days of the week and years.
#[derive(Debug)]
pub struct CronSchedule {
    expression: String,
}

/// A schedule that the operator can follow.
#[derive(Debug, Clone)]
pub enum ScheduleSpec {
    /// Whenever a cron expression says so, in UTC.
    Cron(CronSchedule),
    /// So much time after the last scan, at least one minute.
    Interval(Span),
}

/// Why a schedule cannot be followed.
#[derive(Debug, Clone, PartialEq, Eq)]
pub enum ScheduleError {
    BothSet,
    NeitherSet,
    InvalidCron(String),
    InvalidInterval(String),
    IntervalBelowMinimum(Span),
}

/// The view of a [`ScheduleSpec`]: an expression, or seconds and nanoseconds.
#[verifier::ext_equal]
pub ghost enum ScheduleSpecView {
    Cron(Seq<char>),
    Interval(u64, u32),
}

/// The view of a [`ScheduleError`].
#[verifier::ext_equal]
pub ghost enum ScheduleErrorView {
    BothSet,
    NeitherSet,
    InvalidCron(Seq<char>),
    InvalidInterval(Seq<char>),
    IntervalBelowMinimum(u64, u32),
}

/// Whether the `cron` crate accepts an expression.
pub uninterp spec fn cron_accepts(expression: Seq<char>) -> bool;

/// The second after an instant that the `cron` crate finds for an expression, in seconds since the
/// epoch, if it finds any. From 1970 on it is the first that matches.
pub uninterp spec fn cron_tick(expression: Seq<char>, seconds: i64, nanos: u32) -> Option<i64>;

/// What `humantime` reads from a text: seconds and nanoseconds, or what it says about a text that
/// it rejects.
pub uninterp spec fn human_duration(text: Seq<char>) -> Result<(u64, u32), Seq<char>>;

/// How std shows a `Duration` of so many seconds and nanoseconds for debugging.
pub uninterp spec fn duration_debug(seconds: u64, nanos: u32) -> Seq<char>;

impl CronSchedule {
    /// The expression.
    pub closed spec fn expression(self) -> Seq<char> {
        self.expression@
    }

    /// The `cron` crate accepts the expression.
    #[verifier::type_invariant]
    pub open spec fn accepted(self) -> bool {
        cron_accepts(self.expression())
    }
}

impl Clone for CronSchedule {
    fn clone(&self) -> (r: Self)
        ensures
            r == *self,
    {
        proof {
            use_type_invariant(self);
        }
        CronSchedule { expression: self.expression.clone() }
    }
}

impl DeepView for CronSchedule {
    type V = Seq<char>;

    open spec fn deep_view(&self) -> Seq<char> {
        self.expression()
    }
}

impl DeepView for ScheduleSpec {
    type V = ScheduleSpecView;

    open spec fn deep_view(&self) -> ScheduleSpecView {
        match self {
            ScheduleSpec::Cron(cron) => ScheduleSpecView::Cron(cron.expression()),
            ScheduleSpec::Interval(span) => ScheduleSpecView::Interval(span.seconds(), span.nanos()),
        }
    }
}

impl DeepView for ScheduleError {
    type V = ScheduleErrorView;

    open spec fn deep_view(&self) -> ScheduleErrorView {
        match self {
            ScheduleError::BothSet => ScheduleErrorView::BothSet,
            ScheduleError::NeitherSet => ScheduleErrorView::NeitherSet,
            ScheduleError::InvalidCron(text) => ScheduleErrorView::InvalidCron(text@),
            ScheduleError::InvalidInterval(text) => ScheduleErrorView::InvalidInterval(text@),
            ScheduleError::IntervalBelowMinimum(span) => ScheduleErrorView::IntervalBelowMinimum(
                span.seconds(),
                span.nanos(),
            ),
        }
    }
}

// ---------------------------------------------------------------------------------------------
// Calls to other crates.
// ---------------------------------------------------------------------------------------------

/// What the `cron` crate says about an expression that it rejects; nothing about one that it
/// accepts.
///
/// Calls `cron::Schedule::from_str`. It gives a name to which expressions are accepted, and claims
/// that every other one gets the same complaint.
#[verifier::external_body]
fn check_cron(expression: &str) -> (r: Option<String>)
    ensures
        match r {
            None => cron_accepts(expression@),
            Some(complaint) => !cron_accepts(expression@) && complaint@ == CRON_COMPLAINT@,
        },
{
    match cron::Schedule::from_str(expression) {
        Ok(_) => None,
        Err(e) => Some(e.to_string()),
    }
}

/// Finds the second after an instant that matches an expression.
///
/// Calls `next` on `cron::Schedule::after`, gives the result a name, and claims that it lies after
/// the second of the instant and in one of the years 1970 to 2100. The crate adds a second to the
/// instant, which the last second of the calendar does not allow.
#[verifier::external_body]
fn next_cron_tick(expression: &str, seconds: i64, nanos: u32) -> (r: Option<i64>)
    requires
        cron_accepts(expression@),
        time::nameable(seconds as int, nanos as int),
        seconds < LAST_SECOND,
    ensures
        r == cron_tick(expression@, seconds, nanos),
        r matches Some(tick) ==> seconds < tick && 0 <= tick < 4133980800,
{
    let instant = chrono::DateTime::from_timestamp(seconds, nanos).unwrap();
    let schedule = cron::Schedule::from_str(expression).unwrap();
    let tick = schedule.after(&instant).next()?;
    Some(tick.timestamp())
}

/// Reads a duration.
///
/// Calls `humantime::parse_duration` and gives its result a name. The nanoseconds that it returns
/// are less than a second. It adds up the terms in a `Duration`, and panics where that holds the
/// largest number of seconds when a fraction of a second completes another one, which makes 2^64
/// seconds; `sums_safely` excludes that. (No duration that it accepts comes to so much.)
#[verifier::external_body]
fn parse_human_duration(text: &str) -> (r: Result<(u64, u32), String>)
    requires
        sums_safely(text@),
    ensures
        match r {
            Ok(span) => human_duration(text@) == Ok::<(u64, u32), Seq<char>>(span) && span.1
                < NANOS_PER_SECOND,
            Err(complaint) => human_duration(text@) == Err::<(u64, u32), Seq<char>>(complaint@),
        },
{
    match humantime::parse_duration(text) {
        Ok(d) => Ok((d.as_secs(), d.subsec_nanos())),
        Err(e) => Err(e.to_string()),
    }
}

/// Shows a span for debugging.
///
/// Calls the `Debug` implementation of `std::time::Duration` and gives its result a name.
#[verifier::external_body]
fn show_duration(seconds: u64, nanos: u32) -> (r: String)
    requires
        nanos < NANOS_PER_SECOND,
    ensures
        r@ == duration_debug(seconds, nanos),
{
    format!("{:?}", std::time::Duration::new(seconds, nanos))
}

// ---------------------------------------------------------------------------------------------
// Reading a schedule.
// ---------------------------------------------------------------------------------------------

/// 2^64 seconds in nanoseconds: one more than the longest `Duration` of std.
pub const DURATION_LIMIT_NANOS: u128 = 18446744073709551616000000000;

/// What `humantime` says about a duration that is too long.
pub const DURATION_COMPLAINT: &'static str = "number is too large or cannot be represented without a lack of precision (values below 1ns are not supported)";

/// A letter of a unit of time.
pub open spec fn unit_letter(c: char) -> bool {
    'a' <= c <= 'z' || 'A' <= c <= 'Z' || c as int == 0xb5
}

/// A decimal digit.
pub open spec fn decimal_digit(c: char) -> bool {
    '0' <= c <= '9'
}

/// The value of a decimal digit.
pub open spec fn digit_value(c: char) -> nat {
    (c as nat - '0' as nat) as nat
}

/// There is a decimal point since the last letter.
pub open spec fn point_seen(s: Seq<char>) -> bool
    decreases s.len(),
{
    s.len() > 0 && !unit_letter(s.last()) && (s.last() == '.' || point_seen(s.drop_last()))
}

/// The number that the digits since the last letter make, up to a decimal point.
pub open spec fn whole_part(s: Seq<char>) -> nat
    decreases s.len(),
{
    if s.len() == 0 || unit_letter(s.last()) {
        0
    } else if decimal_digit(s.last()) && !point_seen(s.drop_last()) {
        whole_part(s.drop_last()) * 10 + digit_value(s.last())
    } else {
        whole_part(s.drop_last())
    }
}

/// The number that the digits since the last letter make, behind a decimal point.
pub open spec fn fraction_part(s: Seq<char>) -> nat
    decreases s.len(),
{
    if s.len() == 0 || unit_letter(s.last()) {
        0
    } else if decimal_digit(s.last()) && point_seen(s.drop_last()) {
        fraction_part(s.drop_last()) * 10 + digit_value(s.last())
    } else {
        fraction_part(s.drop_last())
    }
}

/// How many digits there are since the last letter, behind a decimal point.
pub open spec fn fraction_digits(s: Seq<char>) -> nat
    decreases s.len(),
{
    if s.len() == 0 || unit_letter(s.last()) {
        0
    } else if decimal_digit(s.last()) && point_seen(s.drop_last()) {
        fraction_digits(s.drop_last()) + 1
    } else {
        fraction_digits(s.drop_last())
    }
}

/// A power of ten.
pub open spec fn ten_to(n: nat) -> nat
    decreases n,
{
    if n == 0 {
        1
    } else {
        10 * ten_to((n - 1) as nat)
    }
}

/// A unit of time starts here.
pub open spec fn unit_start(s: Seq<char>, i: int) -> bool {
    unit_letter(s[i]) && (i == 0 || !unit_letter(s[i - 1]))
}

/// Where the letters end that start here.
pub open spec fn letters_end(s: Seq<char>, i: int) -> int
    decreases s.len() - i,
{
    if 0 <= i < s.len() && unit_letter(s[i]) {
        letters_end(s, i + 1)
    } else {
        i
    }
}

/// The nanoseconds of a unit of time; zero, if there is no such unit. A month has 30.44 days, and a
/// year 365.25.
pub open spec fn unit_nanos(unit: Seq<char>) -> nat {
    if unit == "nanos"@ || unit == "nsec"@ || unit == "ns"@ {
        1
    } else if unit == "usec"@ || unit == "us"@ || unit == "\u{b5}s"@ {
        1_000
    } else if unit == "millis"@ || unit == "msec"@ || unit == "ms"@ {
        1_000_000
    } else if unit == "seconds"@ || unit == "second"@ || unit == "secs"@ || unit == "sec"@ || unit
        == "s"@ {
        1_000_000_000
    } else if unit == "minutes"@ || unit == "minute"@ || unit == "min"@ || unit == "mins"@ || unit
        == "m"@ {
        60_000_000_000
    } else if unit == "hours"@ || unit == "hour"@ || unit == "hr"@ || unit == "hrs"@ || unit
        == "h"@ {
        3_600_000_000_000
    } else if unit == "days"@ || unit == "day"@ || unit == "d"@ {
        86_400_000_000_000
    } else if unit == "weeks"@ || unit == "week"@ || unit == "wk"@ || unit == "wks"@ || unit
        == "w"@ {
        604_800_000_000_000
    } else if unit == "months"@ || unit == "month"@ || unit == "M"@ {
        2_630_016_000_000_000
    } else if unit == "years"@ || unit == "year"@ || unit == "yr"@ || unit == "yrs"@ || unit
        == "y"@ {
        31_557_600_000_000_000
    } else {
        0
    }
}

/// The nanoseconds of the unit that starts here.
pub open spec fn nanos_of_unit_at(s: Seq<char>, i: int) -> nat {
    unit_nanos(s.subrange(i, letters_end(s, i)))
}

/// What the term whose unit starts here comes to without its fraction, in nanoseconds.
pub open spec fn whole_nanos(s: Seq<char>, i: int) -> nat {
    whole_part(s.take(i)) * nanos_of_unit_at(s, i)
}

/// What the fraction of the term whose unit starts here comes to, in nanoseconds. One of twenty
/// digits or more has no value.
pub open spec fn fraction_nanos(s: Seq<char>, i: int) -> nat {
    let number = s.take(i);
    if fraction_digits(number) < 20 {
        fraction_part(number) * nanos_of_unit_at(s, i) / ten_to(fraction_digits(number))
    } else {
        0
    }
}

/// What the terms come to whose units start among the first `n` characters, in nanoseconds.
pub open spec fn total_nanos(s: Seq<char>, n: int) -> nat
    decreases n,
{
    if n <= 0 {
        0
    } else if unit_start(s, n - 1) {
        total_nanos(s, n - 1) + whole_nanos(s, n - 1) + fraction_nanos(s, n - 1)
    } else {
        total_nanos(s, n - 1)
    }
}

/// What a duration is being read as, character by character.
#[derive(Debug, Clone, Copy, PartialEq, Eq, Structural)]
pub enum Reading {
    /// A term is to start: white space, or a digit.
    Start,
    /// The digits of a number.
    Whole,
    /// A decimal point without a digit behind it so far.
    Point,
    /// The digits behind a decimal point.
    Fraction,
    /// The letters of a unit that there is.
    Unit,
    /// Nothing: the text is no duration.
    Broken,
}

/// How reading goes on with another character. If that starts a unit, `known` tells whether there is
/// such a unit.
pub open spec fn read_on(reading: Reading, c: char, known: bool) -> Reading {
    let digit = decimal_digit(c);
    let space = text::white_space(c);
    let unit = unit_letter(c) && known;
    match reading {
        Reading::Start => if space {
            Reading::Start
        } else if digit {
            Reading::Whole
        } else {
            Reading::Broken
        },
        Reading::Whole => if digit || space {
            Reading::Whole
        } else if unit {
            Reading::Unit
        } else if c == '.' {
            Reading::Point
        } else {
            Reading::Broken
        },
        Reading::Point => if digit {
            Reading::Fraction
        } else if space {
            Reading::Point
        } else {
            Reading::Broken
        },
        Reading::Fraction => if digit || space {
            Reading::Fraction
        } else if unit {
            Reading::Unit
        } else {
            Reading::Broken
        },
        Reading::Unit => if unit_letter(c) {
            Reading::Unit
        } else if digit {
            Reading::Whole
        } else if space {
            Reading::Start
        } else {
            Reading::Broken
        },
        Reading::Broken => Reading::Broken,
    }
}

/// What the first `n` characters of a duration have been read as.
pub open spec fn reading_of(s: Seq<char>, n: int) -> Reading
    decreases n,
{
    if n <= 0 {
        Reading::Start
    } else {
        read_on(reading_of(s, n - 1), s[n - 1], nanos_of_unit_at(s, n - 1) > 0)
    }
}

/// A term is complete whose unit starts here: the text is a duration so far, and behind the unit
/// comes a digit, white space or nothing.
pub open spec fn completes_term(s: Seq<char>, i: int) -> bool {
    let end = letters_end(s, i);
    &&& unit_start(s, i)
    &&& reading_of(s, i + 1) is Unit
    &&& end >= s.len() || decimal_digit(s[end]) || text::white_space(s[end])
}

/// A duration whose terms, added up one after the other, never come to exactly 2^64 seconds.
pub open spec fn sums_safely(s: Seq<char>) -> bool {
    forall|i: int|
        0 <= i < s.len() && #[trigger] completes_term(s, i) ==> {
            &&& total_nanos(s, i) + whole_nanos(s, i) != DURATION_LIMIT_NANOS
            &&& total_nanos(s, i) + whole_nanos(s, i) + fraction_nanos(s, i)
                != DURATION_LIMIT_NANOS
        }
}

/// A number up to the limit; one more than the limit stands for all that is beyond.
spec fn capped(n: nat) -> nat {
    if n <= DURATION_LIMIT_NANOS {
        n
    } else {
        (DURATION_LIMIT_NANOS + 1) as nat
    }
}

fn cap(n: u128) -> (r: u128)
    ensures
        r == capped(n as nat),
{
    if n <= DURATION_LIMIT_NANOS {
        n
    } else {
        DURATION_LIMIT_NANOS + 1
    }
}

proof fn lemma_capped_product(number: nat, unit: nat)
    ensures
        capped(capped(number) * unit) == capped(number * unit),
{
    if number > DURATION_LIMIT_NANOS && unit > 0 {
        assert(number * unit >= number) by (nonlinear_arith)
            requires
                unit > 0,
        ;
        assert(capped(number) * unit >= capped(number)) by (nonlinear_arith)
            requires
                unit > 0,
        ;
    }
}

fn capped_product(number: u128, unit: u64) -> (r: u128)
    ensures
        r == capped(number as nat * unit as nat),
{
    if unit == 0 {
        return 0;
    }
    let most: u128 = DURATION_LIMIT_NANOS / unit as u128;
    if number > most {
        assert(number * unit > DURATION_LIMIT_NANOS) by (nonlinear_arith)
            requires
                number > most,
                unit > 0,
                most == DURATION_LIMIT_NANOS / unit as u128,
        ;
        return DURATION_LIMIT_NANOS + 1;
    }
    assert(number * unit <= DURATION_LIMIT_NANOS) by (nonlinear_arith)
        requires
            number <= most,
            unit > 0,
            most == DURATION_LIMIT_NANOS / unit as u128,
    ;
    number * unit as u128
}

fn is_unit_letter(c: char) -> (r: bool)
    ensures
        r == unit_letter(c),
{
    ('a' <= c && c <= 'z') || ('A' <= c && c <= 'Z') || c == '\u{b5}'
}

fn find_unit_nanos(unit: &str) -> (r: u64)
    ensures
        r == unit_nanos(unit@),
        r <= 31_557_600_000_000_000,
{
    if text_eq(unit, "nanos") || text_eq(unit, "nsec") || text_eq(unit, "ns") {
        1
    } else if text_eq(unit, "usec") || text_eq(unit, "us") || text_eq(unit, "\u{b5}s") {
        1_000
    } else if text_eq(unit, "millis") || text_eq(unit, "msec") || text_eq(unit, "ms") {
        1_000_000
    } else if text_eq(unit, "seconds") || text_eq(unit, "second") || text_eq(unit, "secs")
        || text_eq(unit, "sec") || text_eq(unit, "s") {
        1_000_000_000
    } else if text_eq(unit, "minutes") || text_eq(unit, "minute") || text_eq(unit, "min")
        || text_eq(unit, "mins") || text_eq(unit, "m") {
        60_000_000_000
    } else if text_eq(unit, "hours") || text_eq(unit, "hour") || text_eq(unit, "hr") || text_eq(
        unit,
        "hrs",
    ) || text_eq(unit, "h") {
        3_600_000_000_000
    } else if text_eq(unit, "days") || text_eq(unit, "day") || text_eq(unit, "d") {
        86_400_000_000_000
    } else if text_eq(unit, "weeks") || text_eq(unit, "week") || text_eq(unit, "wk") || text_eq(
        unit,
        "wks",
    ) || text_eq(unit, "w") {
        604_800_000_000_000
    } else if text_eq(unit, "months") || text_eq(unit, "month") || text_eq(unit, "M") {
        2_630_016_000_000_000
    } else if text_eq(unit, "years") || text_eq(unit, "year") || text_eq(unit, "yr") || text_eq(
        unit,
        "yrs",
    ) || text_eq(unit, "y") {
        31_557_600_000_000_000
    } else {
        0
    }
}

fn find_reading(reading: Reading, c: char, known: bool) -> (r: Reading)
    ensures
        r == read_on(reading, c, known),
{
    let digit = '0' <= c && c <= '9';
    let space = c.is_whitespace();
    let letter = is_unit_letter(c);
    match reading {
        Reading::Start => if space {
            Reading::Start
        } else if digit {
            Reading::Whole
        } else {
            Reading::Broken
        },
        Reading::Whole => if digit || space {
            Reading::Whole
        } else if letter && known {
            Reading::Unit
        } else if c == '.' {
            Reading::Point
        } else {
            Reading::Broken
        },
        Reading::Point => if digit {
            Reading::Fraction
        } else if space {
            Reading::Point
        } else {
            Reading::Broken
        },
        Reading::Fraction => if digit || space {
            Reading::Fraction
        } else if letter && known {
            Reading::Unit
        } else {
            Reading::Broken
        },
        Reading::Unit => if letter {
            Reading::Unit
        } else if digit {
            Reading::Whole
        } else if space {
            Reading::Start
        } else {
            Reading::Broken
        },
        Reading::Broken => Reading::Broken,
    }
}

/// The nanoseconds of the unit that starts here, and whether a digit, white space or nothing comes
/// behind it.
fn find_unit_at(text: &str, start: usize) -> (r: (u64, bool))
    requires
        start < text@.len(),
    ensures
        r.0 == nanos_of_unit_at(text@, start as int),
        r.0 <= 31_557_600_000_000_000,
        r.1 == ({
            let end = letters_end(text@, start as int);
            end >= text@.len() || decimal_digit(text@[end]) || text::white_space(text@[end])
        }),
{
    let n = text.unicode_len();
    let mut end: usize = start;
    while end < n && is_unit_letter(text.get_char(end))
        invariant
            n == text@.len(),
            start <= end <= n,
            letters_end(text@, start as int) == letters_end(text@, end as int),
        decreases n - end,
    {
        end += 1;
    }
    let ends_well = end == n || {
        let c = text.get_char(end);
        ('0' <= c && c <= '9') || c.is_whitespace()
    };
    (find_unit_nanos(text.substring_char(start, end)), ends_well)
}

/// A letter behind a letter does not start a unit, and so whether there is such a unit makes no
/// difference; nor does it for another character.
proof fn lemma_reading(s: Seq<char>, i: int)
    requires
        0 <= i < s.len(),
        !unit_start(s, i),
    ensures
        reading_of(s, i + 1) == read_on(reading_of(s, i), s[i], false),
{
    if i > 0 && unit_letter(s[i - 1]) {
        assert(reading_of(s, i) is Unit || reading_of(s, i) is Broken);
    }
}

/// A fraction is less than a whole.
proof fn lemma_fraction(s: Seq<char>)
    ensures
        fraction_part(s) < ten_to(fraction_digits(s)),
    decreases s.len(),
{
    if s.len() > 0 {
        lemma_fraction(s.drop_last());
    }
}

proof fn lemma_ten_to(n: nat)
    requires
        n < 20,
    ensures
        0 < ten_to(n) <= 10_000_000_000_000_000_000,
{
    reveal_with_fuel(ten_to, 20);
}

/// Whether the terms of a duration, added up one after the other, never come to exactly 2^64
/// seconds.
pub fn is_summed_safely(text: &str) -> (r: bool)
    ensures
        r == sums_safely(text@),
{
    let n = text.unicode_len();
    let mut i: usize = 0;
    let mut total: u128 = 0;
    let mut whole: u128 = 0;
    let mut fraction: u128 = 0;
    let mut scale: u128 = 1;
    let mut digits: usize = 0;
    let mut point = false;
    let mut after_letter = false;
    let mut reading = Reading::Start;
    assert(text@.take(0).len() == 0);
    while i < n
        invariant
            n == text@.len(),
            i <= n,
            digits <= i,
            total == capped(total_nanos(text@, i as int)),
            whole == capped(whole_part(text@.take(i as int))),
            digits == fraction_digits(text@.take(i as int)),
            digits < 20 ==> fraction == fraction_part(text@.take(i as int)),
            digits < 20 ==> scale == ten_to(digits as nat),
            point == point_seen(text@.take(i as int)),
            after_letter == (i > 0 && unit_letter(text@[i - 1])),
            reading == reading_of(text@, i as int),
            forall|k: int|
                0 <= k < i && #[trigger] completes_term(text@, k) ==> {
                    &&& total_nanos(text@, k) + whole_nanos(text@, k) != DURATION_LIMIT_NANOS
                    &&& total_nanos(text@, k) + whole_nanos(text@, k) + fraction_nanos(text@, k)
                        != DURATION_LIMIT_NANOS
                },
        decreases n - i,
    {
        let c = text.get_char(i);
        let is_letter = is_unit_letter(c);
        let is_digit = '0' <= c && c <= '9';
        let ghost number = text@.take(i as int);
        proof {
            assert(text@.take(i + 1).drop_last() =~= number);
            assert(text@.take(i + 1).last() == text@[i as int]);
            lemma_fraction(number);
            if digits < 20 {
                lemma_ten_to(digits as nat);
            }
        }
        let starts_unit = is_letter && !after_letter;
        assert(starts_unit == unit_start(text@, i as int));
        let (unit, ends_well) = if starts_unit {
            find_unit_at(text, i)
        } else {
            (0, false)
        };
        proof {
            if !starts_unit {
                lemma_reading(text@, i as int);
            }
        }
        reading = find_reading(reading, c, unit > 0);
        if starts_unit {
            proof {
                lemma_capped_product(whole_part(number), unit as nat);
            }
            let without_fraction = cap(total + capped_product(whole, unit));
            let mut part: u128 = 0;
            if digits < 20 {
                assert(fraction * unit <= 10_000_000_000_000_000_000 * 31_557_600_000_000_000)
                    by (nonlinear_arith)
                    requires
                        fraction <= 10_000_000_000_000_000_000,
                        unit <= 31_557_600_000_000_000,
                ;
                part = fraction * unit as u128 / scale;
            }
            assert(part == fraction_nanos(text@, i as int));
            assert(part <= 10_000_000_000_000_000_000 * 31_557_600_000_000_000);
            total = cap(without_fraction + part);
            if reading == Reading::Unit && ends_well && (without_fraction == DURATION_LIMIT_NANOS
                || total == DURATION_LIMIT_NANOS) {
                assert(completes_term(text@, i as int));
                return false;
            }
        }
        if is_letter {
            whole = 0;
            fraction = 0;
            scale = 1;
            digits = 0;
            point = false;
        } else if is_digit {
            let digit: u128 = c as u128 - '0' as u128;
            if !point {
                whole = cap(whole * 10 + digit);
            } else {
                if digits < 19 {
                    fraction = fraction * 10 + digit;
                    scale = scale * 10;
                }
                digits += 1;
            }
        } else if c == '.' {
            point = true;
        }
        after_letter = is_letter;
        i += 1;
    }
    true
}

/// What the `cron` crate says about every expression that it rejects.
pub const CRON_COMPLAINT: &'static str = "Invalid expression: Invalid cron expression.";

/// The shortest interval between two scans.
pub const MINIMUM_INTERVAL_SECONDS: u64 = 60;

/// The number of fields of an expression: runs of characters other than white space.
pub open spec fn field_count(s: Seq<char>) -> nat
    decreases s.len(),
{
    if s.len() == 0 {
        0
    } else {
        let front = s.drop_last();
        let starts_field = !text::white_space(s.last()) && (front.len() == 0
            || text::white_space(front.last()));
        field_count(front) + if starts_field {
            1nat
        } else {
            0nat
        }
    }
}

/// What is said about an expression with a wrong number of fields.
pub open spec fn wrong_field_count(n: nat) -> Seq<char> {
    "expected standard 5-field cron expression (minute hour day-of-month month day-of-week); got "@
        + text::decimal(n) + " field(s)"@
}

/// A five-field expression with seconds and years around it: at the full minute, in every year. An
/// error if there are more or fewer fields.
pub open spec fn seven_fields(expression: Seq<char>) -> Result<Seq<char>, Seq<char>> {
    let trimmed = text::trimmed(expression);
    if field_count(trimmed) == 5 {
        Ok("0 "@ + trimmed + " *"@)
    } else {
        Err(wrong_field_count(field_count(trimmed)))
    }
}

/// What the `cron` crate makes of an expression: the expression, or a complaint.
pub open spec fn cron_reading(expression: Seq<char>) -> Result<Seq<char>, Seq<char>> {
    if cron_accepts(expression) {
        Ok(expression)
    } else {
        Err(CRON_COMPLAINT@)
    }
}

/// The schedule for an expression, by what was made of it.
pub open spec fn cron_schedule(read: Result<Seq<char>, Seq<char>>) -> Result<
    ScheduleSpecView,
    ScheduleErrorView,
> {
    match read {
        Ok(expression) => Ok(ScheduleSpecView::Cron(expression)),
        Err(complaint) => Err(ScheduleErrorView::InvalidCron(complaint)),
    }
}

/// What is read from an interval: what `humantime` reads, or its complaint about a duration that is
/// too long.
pub open spec fn interval_reading(text: Seq<char>) -> Result<(u64, u32), Seq<char>> {
    if sums_safely(text) {
        human_duration(text)
    } else {
        Err(DURATION_COMPLAINT@)
    }
}

/// The schedule for an interval, by what was read from it.
pub open spec fn interval_schedule(read: Result<(u64, u32), Seq<char>>) -> Result<
    ScheduleSpecView,
    ScheduleErrorView,
> {
    match read {
        Err(text) => Err(ScheduleErrorView::InvalidInterval(text)),
        Ok((seconds, nanos)) => if seconds < MINIMUM_INTERVAL_SECONDS {
            Err(ScheduleErrorView::IntervalBelowMinimum(seconds, nanos))
        } else {
            Ok(ScheduleSpecView::Interval(seconds, nanos))
        },
    }
}

/// The schedule that a resource asks for.
pub open spec fn schedule_of(spec: Schedule) -> Result<ScheduleSpecView, ScheduleErrorView> {
    match (spec.cron, spec.interval) {
        (Some(_), Some(_)) => Err(ScheduleErrorView::BothSet),
        (None, None) => Err(ScheduleErrorView::NeitherSet),
        (Some(cron), None) => match seven_fields(cron@) {
            Err(text) => Err(ScheduleErrorView::InvalidCron(text)),
            Ok(expression) => cron_schedule(cron_reading(expression)),
        },
        (None, Some(interval)) => interval_schedule(interval_reading(interval@)),
    }
}

fn count_fields(s: &str) -> (r: usize)
    ensures
        r == field_count(s@),
{
    let n = s.unicode_len();
    let mut count: usize = 0;
    let mut after_space = true;
    let mut i: usize = 0;
    assert(s@.take(0).len() == 0);
    while i < n
        invariant
            n == s@.len(),
            i <= n,
            count <= i,
            count == field_count(s@.take(i as int)),
            after_space == (i == 0 || text::white_space(s@[i - 1])),
        decreases n - i,
    {
        proof {
            assert(s@.take(i + 1).drop_last() =~= s@.take(i as int));
            assert(s@.take(i + 1).last() == s@[i as int]);
            if i > 0 {
                assert(s@.take(i as int).last() == s@[i - 1]);
            }
        }
        let space = s.get_char(i).is_whitespace();
        if !space && after_space {
            count += 1;
        }
        after_space = space;
        i += 1;
    }
    assert(s@.take(n as int) =~= s@);
    count
}

/// Puts seconds and years around a five-field expression.
pub fn normalize_cron(expression: &str) -> (r: Result<String, ScheduleError>)
    ensures
        match seven_fields(expression@) {
            Ok(normalized) => r matches Ok(text) && text@ == normalized,
            Err(complaint) => r matches Err(e) && e.deep_view() == ScheduleErrorView::InvalidCron(
                complaint,
            ),
        },
{
    let trimmed = expression.trim();
    let fields = count_fields(trimmed);
    if fields != 5 {
        let mut complaint =
            "expected standard 5-field cron expression (minute hour day-of-month month day-of-week); got ".to_owned();
        push_decimal(&mut complaint, fields);
        complaint.append(" field(s)");
        return Err(ScheduleError::InvalidCron(complaint));
    }
    let mut normalized = "0 ".to_owned();
    normalized.append(trimmed);
    normalized.append(" *");
    Ok(normalized)
}

impl CronSchedule {
    /// The expression.
    pub fn as_str(&self) -> (r: &str)
        ensures
            r@ == self.expression(),
    {
        self.expression.as_str()
    }

    /// Makes a schedule of an expression, or says what is wrong with it.
    pub fn new(expression: String) -> (r: Result<CronSchedule, String>)
        ensures
            view::result_view(r) == cron_reading(expression@),
    {
        match check_cron(expression.as_str()) {
            None => Ok(CronSchedule { expression }),
            Some(complaint) => Err(complaint),
        }
    }
}

/// The schedule for an expression, by what was made of it.
pub fn schedule_from_cron(read: Result<CronSchedule, String>) -> (r: Result<
    ScheduleSpec,
    ScheduleError,
>)
    ensures
        view::result_view(r) == cron_schedule(view::result_view(read)),
{
    match read {
        Ok(schedule) => Ok(ScheduleSpec::Cron(schedule)),
        Err(complaint) => Err(ScheduleError::InvalidCron(complaint)),
    }
}

/// The schedule for an interval, by what was read from it.
pub fn schedule_from_interval(read: Result<Span, String>) -> (r: Result<
    ScheduleSpec,
    ScheduleError,
>)
    ensures
        view::result_view(r) == interval_schedule(view::result_view(read)),
{
    match read {
        Err(complaint) => Err(ScheduleError::InvalidInterval(complaint)),
        Ok(span) => if span.is_shorter(&Span::from_secs(MINIMUM_INTERVAL_SECONDS)) {
            Err(ScheduleError::IntervalBelowMinimum(span))
        } else {
            Ok(ScheduleSpec::Interval(span))
        },
    }
}

fn read_interval(text: &str) -> (r: Result<Span, String>)
    ensures
        view::result_view(r) == interval_reading(text@),
{
    if !is_summed_safely(text) {
        return Err(DURATION_COMPLAINT.to_owned());
    }
    match parse_human_duration(text) {
        Ok((seconds, nanos)) => Ok(Span::new(seconds, nanos)),
        Err(complaint) => Err(complaint),
    }
}

/// Reads the schedule of a resource.
pub fn parse_schedule(spec: &Schedule) -> (r: Result<ScheduleSpec, ScheduleError>)
    ensures
        view::result_view(r) == schedule_of(*spec),
{
    match (&spec.cron, &spec.interval) {
        (Some(_), Some(_)) => Err(ScheduleError::BothSet),
        (None, None) => Err(ScheduleError::NeitherSet),
        (Some(cron), None) => match normalize_cron(cron.as_str()) {
            Err(e) => Err(e),
            Ok(expression) => schedule_from_cron(CronSchedule::new(expression)),
        },
        (None, Some(interval)) => schedule_from_interval(read_interval(interval.as_str())),
    }
}

/// What is said about an interval that is too short.
pub open spec fn below_minimum_text(shown: Seq<char>) -> Seq<char> {
    "spec.schedule.interval must be at least 1 minute (got "@ + shown + ")"@
}

/// Says that an interval, shown in this way, is too short.
pub fn below_minimum_message(shown: &str) -> (r: String)
    ensures
        r@ == below_minimum_text(shown@),
{
    let mut text = "spec.schedule.interval must be at least 1 minute (got ".to_owned();
    text.append(shown);
    text.append(")");
    text
}

impl ScheduleErrorView {
    /// What the error says.
    pub open spec fn text(self) -> Seq<char> {
        match self {
            ScheduleErrorView::BothSet =>
                "spec.schedule has both cron and interval set; exactly one is required"@,
            ScheduleErrorView::NeitherSet =>
                "spec.schedule has neither cron nor interval set; exactly one is required"@,
            ScheduleErrorView::InvalidCron(complaint) =>
                "spec.schedule.cron is not a valid cron expression: "@ + complaint,
            ScheduleErrorView::InvalidInterval(complaint) =>
                "spec.schedule.interval is not a valid Go-style duration: "@ + complaint,
            ScheduleErrorView::IntervalBelowMinimum(seconds, nanos) => below_minimum_text(
                duration_debug(seconds, nanos),
            ),
        }
    }
}

impl ScheduleError {
    /// What the error says.
    pub fn message(&self) -> (r: String)
        ensures
            r@ == self.deep_view().text(),
    {
        match self {
            ScheduleError::BothSet =>
                "spec.schedule has both cron and interval set; exactly one is required".to_owned(),
            ScheduleError::NeitherSet =>
                "spec.schedule has neither cron nor interval set; exactly one is required".to_owned(),
            ScheduleError::InvalidCron(complaint) => {
                let mut text = "spec.schedule.cron is not a valid cron expression: ".to_owned();
                text.append(complaint.as_str());
                text
            },
            ScheduleError::InvalidInterval(complaint) => {
                let mut text =
                    "spec.schedule.interval is not a valid Go-style duration: ".to_owned();
                text.append(complaint.as_str());
                text
            },
            ScheduleError::IntervalBelowMinimum(span) => {
                proof {
                    use_type_invariant(span);
                }
                below_minimum_message(
                    show_duration(span.whole_seconds(), span.subsec_nanos()).as_str(),
                )
            },
        }
    }
}

// ---------------------------------------------------------------------------------------------
// The next scan.
// ---------------------------------------------------------------------------------------------

/// A point in time that the calendar can name; nothing, if it lies beyond.
pub open spec fn on_calendar(point: (int, int)) -> Option<(int, int)> {
    if point.0 <= LAST_SECOND {
        Some(point)
    } else {
        None
    }
}

/// When the schedule asks for the scan that follows the one at `anchor`, in seconds and
/// nanoseconds. Nothing, if a cron expression matches no later time or the calendar ends before.
pub open spec fn unjittered_time(schedule: ScheduleSpecView, anchor: (i64, u32)) -> Option<
    (int, int),
> {
    match schedule {
        ScheduleSpecView::Cron(expression) => if anchor.0 == LAST_SECOND {
            None
        } else {
            match cron_tick(expression, anchor.0, anchor.1) {
                Some(tick) => Some((tick as int, 0)),
                None => None,
            }
        },
        ScheduleSpecView::Interval(seconds, nanos) => on_calendar(
            time::shifted(anchor.0 as int, anchor.1 as int, seconds as int, nanos as int),
        ),
    }
}

/// When the scan that follows the one at `anchor` is due: when the schedule asks for it, and
/// `jitter` later.
pub open spec fn next_time(
    schedule: ScheduleSpecView,
    anchor: (i64, u32),
    jitter: (u64, u32),
) -> Option<(int, int)> {
    match unjittered_time(schedule, anchor) {
        Some((seconds, nanos)) => on_calendar(
            time::shifted(seconds, nanos, jitter.0 as int, jitter.1 as int),
        ),
        None => None,
    }
}

/// An optional instant as seconds and nanoseconds.
pub open spec fn point_of(t: Option<Timestamp>) -> Option<(int, int)> {
    match t {
        Some(t) => Some((t.seconds() as int, t.nanos() as int)),
        None => None,
    }
}

/// A schedule that does not ask for a scan at the very time of the last one.
pub open spec fn moves_on(schedule: ScheduleSpecView) -> bool {
    match schedule {
        ScheduleSpecView::Cron(_) => true,
        ScheduleSpecView::Interval(seconds, _) => seconds > 0,
    }
}

/// The instant `jitter` after `base`, if the calendar can name it.
pub fn delayed(base: Timestamp, jitter: Span) -> (r: Option<Timestamp>)
    ensures
        point_of(r) == on_calendar(
            time::shifted(
                base.seconds() as int,
                base.nanos() as int,
                jitter.seconds() as int,
                jitter.nanos() as int,
            ),
        ),
{
    let r = checked_add(&base, &jitter);
    proof {
        if let Some(t) = r {
            use_type_invariant(&t);
        }
    }
    r
}

/// When the scan that follows the one at `anchor` is due, if the schedule and the calendar have
/// such a time.
fn find_next_time(schedule: &ScheduleSpec, anchor: Timestamp, jitter: Span) -> (r: Option<
    Timestamp,
>)
    ensures
        point_of(r) == next_time(schedule.deep_view(), anchor.parts(), jitter.deep_view()),
        moves_on(schedule.deep_view()) ==> (r matches Some(next) ==> anchor.before(next)),
{
    proof {
        use_type_invariant(&anchor);
        use_type_invariant(&jitter);
    }
    let base = match schedule {
        ScheduleSpec::Cron(cron) => {
            if anchor.epoch_seconds() == LAST_SECOND {
                return None;
            }
            proof {
                use_type_invariant(cron);
            }
            match next_cron_tick(cron.as_str(), anchor.epoch_seconds(), anchor.subsec_nanos()) {
                Some(tick) => Timestamp::from_secs(tick),
                None => {
                    return None;
                },
            }
        },
        ScheduleSpec::Interval(span) => {
            proof {
                use_type_invariant(span);
            }
            match delayed(anchor, *span) {
                Some(base) => base,
                None => {
                    return None;
                },
            }
        },
    };
    delayed(base, jitter)
}

/// Computes when the next scan is due. It lies after `anchor`.
pub fn compute_next_scheduled_time(
    schedule: &ScheduleSpec,
    anchor: Timestamp,
    jitter: Span,
) -> (r: Timestamp)
    requires
        next_time(schedule.deep_view(), anchor.parts(), jitter.deep_view()) is Some,
    ensures
        point_of(Some(r)) == next_time(schedule.deep_view(), anchor.parts(), jitter.deep_view()),
        moves_on(schedule.deep_view()) ==> anchor.before(r),
{
    find_next_time(schedule, anchor, jitter).unwrap()
}

/// Computes when the next scan is due, or finds that there is no such time: no later time matches
/// the cron expression, or the calendar ends before.
pub fn next_scheduled_time(schedule: &ScheduleSpec, anchor: Timestamp, jitter: Span) -> (r: Option<
    Timestamp,
>)
    ensures
        point_of(r) == next_time(schedule.deep_view(), anchor.parts(), jitter.deep_view()),
        moves_on(schedule.deep_view()) ==> (r matches Some(next) ==> anchor.before(next)),
{
    if find_next_time(schedule, anchor, jitter).is_some() {
        Some(compute_next_scheduled_time(schedule, anchor, jitter))
    } else {
        None
    }
}

/// Whether the next scan is due: its time has come or has passed.
pub fn is_schedule_due(next_scheduled: Timestamp, now: Timestamp) -> (r: bool)
    ensures
        r == !now.before(next_scheduled),
{
    !now.is_before(&next_scheduled)
}

/// The delay that a digest stands for, in seconds: its first two bytes, modulo 60.
pub open spec fn digest_jitter(digest: Seq<u8>) -> int {
    (digest[0] * 256 + digest[1]) % 60
}

/// The delay that a digest stands for, in seconds.
pub fn jitter_from_digest(digest: &[u8]) -> (r: u64)
    requires
        digest@.len() >= 2,
    ensures
        r == digest_jitter(digest@),
        r < 60,
{
    let n: u64 = digest[0] as u64 * 256 + digest[1] as u64;
    n % 60
}

/// The delay of a resource, in seconds: less than a minute, and the same for the same `uid`.
pub fn cr_uid_jitter_seconds(uid: &str) -> (r: u64)
    ensures
        r == digest_jitter(digest::text_sha256(uid@)),
        r < 60,
{
    let digest = sha256_digest(uid.as_bytes());
    jitter_from_digest(digest.as_slice())
}

// ---------------------------------------------------------------------------------------------
// Removing Jobs that are done.
// ---------------------------------------------------------------------------------------------

/// A Job that has come to an end, by success or by failing for good.
pub open spec fn terminal(job: JobView) -> bool {
    status_aggregator::job_succeeded(job)
        || status_aggregator::job_finally_failed(job)
}

/// Whether a Job has come to an end, so that it can be deleted before the next scan.
pub fn should_delete_job(job: &Job) -> (r: bool)
    ensures
        r == terminal(job.deep_view()),
{
    is_job_succeeded(job) || is_job_finally_failed(job)
}

/// The names of the Jobs that have come to an end, in the order of the Jobs. A Job without a name
/// is passed over.
pub open spec fn terminal_names(jobs: Seq<JobView>) -> Seq<Seq<char>>
    decreases jobs.len(),
{
    if jobs.len() == 0 {
        Seq::empty()
    } else {
        let front = terminal_names(jobs.drop_last());
        let job = jobs.last();
        if terminal(job) && job.metadata.name is Some {
            front.push(job.metadata.name->0)
        } else {
            front
        }
    }
}

/// The Jobs that are still to be deleted, and how many have been.
#[derive(Debug)]
pub struct Cleanup {
    names: Vec<String>,
    position: usize,
    deleted: usize,
}

/// The view of a [`Cleanup`].
#[verifier::ext_equal]
pub ghost struct CleanupView {
    /// The Jobs that are still to be deleted, in this order.
    pub pending: Seq<Seq<char>>,
    /// The number of Jobs that have been deleted.
    pub deleted: nat,
}

impl View for Cleanup {
    type V = CleanupView;

    closed spec fn view(&self) -> CleanupView {
        CleanupView {
            pending: self.names.deep_view().skip(self.position as int),
            deleted: self.deleted as nat,
        }
    }
}

/// How the cleanup goes on after a deletion. A Job that is not there any more is not counted; any
/// other failure ends the cleanup.
pub open spec fn after_deletion(state: CleanupView, result: Result<(), KubeError>) -> Result<
    CleanupView,
    KubeError,
> {
    match result {
        Ok(()) => Ok(
            CleanupView { pending: state.pending.drop_first(), deleted: state.deleted + 1 },
        ),
        Err(e) => if e.answered(404) {
            Ok(CleanupView { pending: state.pending.drop_first(), deleted: state.deleted })
        } else {
            Err(e)
        },
    }
}

impl Cleanup {
    #[verifier::type_invariant]
    spec fn inv(self) -> bool {
        self.deleted <= self.position <= self.names@.len()
    }

    /// A cleanup of the Jobs that have come to an end.
    pub fn new(owned: &[Job]) -> (r: Cleanup)
        ensures
            r@ == (CleanupView { pending: terminal_names(owned.deep_view()), deleted: 0 }),
    {
        let ghost views = owned.deep_view();
        let mut names: Vec<String> = Vec::new();
        let mut i: usize = 0;
        assert(names.deep_view() =~= terminal_names(views.take(0)));
        while i < owned.len()
            invariant
                i <= owned.len(),
                views == owned.deep_view(),
                names.deep_view() == terminal_names(views.take(i as int)),
            decreases owned.len() - i,
        {
            let ghost before = names.deep_view();
            proof {
                assert(views.take(i + 1).drop_last() =~= views.take(i as int));
                assert(views.take(i + 1).last() == owned@[i as int].deep_view());
            }
            if should_delete_job(&owned[i]) {
                if let Some(name) = &owned[i].metadata.name {
                    names.push(name.clone());
                    assert(names.deep_view() =~= before.push(name@));
                }
            }
            i += 1;
        }
        assert(views.take(i as int) =~= views);
        assert(names.deep_view().skip(0) =~= names.deep_view());
        Cleanup { names, position: 0, deleted: 0 }
    }

    /// The Job to delete next, with its pods, or nothing if all are gone.
    pub fn next_deletion(&self) -> (r: Option<&str>)
        ensures
            match r {
                Some(name) => self@.pending.len() > 0 && name@ == self@.pending.first(),
                None => self@.pending.len() == 0,
            },
    {
        proof {
            use_type_invariant(self);
        }
        if self.position < self.names.len() {
            Some(self.names[self.position].as_str())
        } else {
            None
        }
    }

    /// Takes note of how the deletion of the next Job went. A failure that ends the cleanup is
    /// handed back.
    pub fn record(self, result: Result<(), KubeError>) -> (r: Result<Cleanup, KubeError>)
        requires
            self@.pending.len() > 0,
        ensures
            match r {
                Ok(next) => after_deletion(self@, result) == Ok::<CleanupView, KubeError>(next@),
                Err(e) => after_deletion(self@, result) == Err::<CleanupView, KubeError>(e),
            },
    {
        proof {
            use_type_invariant(&self);
        }
        let ghost all = self.names.deep_view();
        assert(all.skip(self.position as int).drop_first() =~= all.skip(self.position + 1));
        assert(self.position < self.names.len());
        match result {
            Ok(()) => Ok(
                Cleanup {
                    names: self.names,
                    position: self.position + 1,
                    deleted: self.deleted + 1,
                },
            ),
            Err(e) => if e.has_code(404) {
                Ok(
                    Cleanup {
                        names: self.names,
                        position: self.position + 1,
                        deleted: self.deleted,
                    },
                )
            } else {
                Err(e)
            },
        }
    }

    /// The number of Jobs that have been deleted.
    pub fn deleted(&self) -> (r: usize)
        ensures
            r == self@.deleted,
    {
        self.deleted
    }
}

// ---------------------------------------------------------------------------------------------
// Laws.
// ---------------------------------------------------------------------------------------------

/// A schedule that can be followed is set in exactly one way.
pub proof fn exactly_one_way_is_set(spec: Schedule)
    ensures
        schedule_of(spec) is Ok ==> spec.cron is Some != spec.interval is Some,
        schedule_of(spec) == Err::<ScheduleSpecView, ScheduleErrorView>(ScheduleErrorView::BothSet)
            <==> spec.cron is Some && spec.interval is Some,
        schedule_of(spec) == Err::<ScheduleSpecView, ScheduleErrorView>(
            ScheduleErrorView::NeitherSet,
        ) <==> spec.cron is None && spec.interval is None,
{
}

/// An interval that is accepted is at least one minute long.
pub proof fn intervals_last_a_minute(spec: Schedule)
    ensures
        schedule_of(spec) matches Ok(ScheduleSpecView::Interval(seconds, _)) ==> seconds >= 60,
        schedule_of(spec) matches Ok(schedule) ==> moves_on(schedule),
{
}

/// A cron expression that is accepted was written with five fields, and is checked with the full
/// minute before it and every year behind it.
pub proof fn cron_has_five_fields(spec: Schedule)
    ensures
        schedule_of(spec) matches Ok(ScheduleSpecView::Cron(expression)) ==> {
            let written = text::trimmed(spec.cron->0@);
            &&& field_count(written) == 5
            &&& expression == "0 "@ + written + " *"@
            &&& cron_accepts(expression)
        },
{
}

/// With an interval, the next scan is due that interval and the jitter after the last one.
pub proof fn interval_is_added(seconds: u64, nanos: u32, anchor: Timestamp, jitter: Span)
    requires
        anchor.valid(),
        anchor.nanos() < NANOS_PER_SECOND,
        jitter.valid(),
        nanos < NANOS_PER_SECOND,
    ensures
        next_time(
            ScheduleSpecView::Interval(seconds, nanos),
            anchor.parts(),
            jitter.deep_view(),
        ) matches Some((s, n))
            ==> s * NANOS_PER_SECOND + n == (anchor.seconds() + seconds + jitter.seconds())
            * NANOS_PER_SECOND + anchor.nanos() + nanos + jitter.nanos(),
{
}

/// What is due stays due.
pub proof fn due_stays_due(next_scheduled: Timestamp, now: Timestamp, later: Timestamp)
    requires
        !now.before(next_scheduled),
        !later.before(now),
    ensures
        !later.before(next_scheduled),
{
}

/// Only Jobs that have come to an end are deleted: each name belongs to one of those.
pub proof fn only_terminal_jobs_are_deleted(jobs: Seq<JobView>, i: int)
    requires
        0 <= i < terminal_names(jobs).len(),
    ensures
        exists|j: int|
            0 <= j < jobs.len() && terminal(#[trigger] jobs[j]) && jobs[j].metadata.name == Some(
                terminal_names(jobs)[i],
            ),
    decreases jobs.len(),
{
    if jobs.len() > 0 {
        let front = terminal_names(jobs.drop_last());
        if i < front.len() {
            only_terminal_jobs_are_deleted(jobs.drop_last(), i);
            let j = choose|j: int|
                0 <= j < jobs.drop_last().len() && terminal(#[trigger] jobs.drop_last()[j])
                    && jobs.drop_last()[j].metadata.name == Some(front[i]);
            assert(jobs[j] == jobs.drop_last()[j]);
        } else {
            assert(jobs[jobs.len() - 1] == jobs.last());
        }
    }
}

/// Every Job that has come to an end and has a name is deleted.
pub proof fn every_terminal_job_is_deleted(jobs: Seq<JobView>, j: int)
    requires
        0 <= j < jobs.len(),
        terminal(jobs[j]),
        jobs[j].metadata.name is Some,
    ensures
        terminal_names(jobs).contains(jobs[j].metadata.name->0),
    decreases jobs.len(),
{
    let front = terminal_names(jobs.drop_last());
    if j < jobs.len() - 1 {
        every_terminal_job_is_deleted(jobs.drop_last(), j);
        let name = jobs[j].metadata.name->0;
        let i = front.index_of(name);
        assert(terminal_names(jobs)[i] == name);
    } else {
        let all = terminal_names(jobs);
        assert(all[all.len() - 1] == jobs[j].metadata.name->0);
    }
}

/// How a cleanup goes on after some deletions, until one of them ends it.
pub open spec fn after_deletions(state: CleanupView, results: Seq<Result<(), KubeError>>) -> Result<
    CleanupView,
    KubeError,
>
    decreases results.len(),
{
    if results.len() == 0 {
        Ok(state)
    } else {
        match after_deletions(state, results.drop_last()) {
            Ok(before) => after_deletion(before, results.last()),
            Err(e) => Err(e),
        }
    }
}

/// The number of deletions that went through.
pub open spec fn deletions_done(results: Seq<Result<(), KubeError>>) -> nat
    decreases results.len(),
{
    if results.len() == 0 {
        0
    } else {
        deletions_done(results.drop_last()) + if results.last() is Ok {
            1nat
        } else {
            0nat
        }
    }
}

/// A deletion after which the Job is gone: it went through, or there was no such Job.
pub open spec fn leaves_job_gone(result: Result<(), KubeError>) -> bool {
    match result {
        Ok(()) => true,
        Err(e) => e.answered(404),
    }
}

/// A cleanup goes through the Jobs one by one and counts those that it has deleted itself: a Job
/// that was gone before is not counted, and a cleanup comes to its end exactly if no deletion fails
/// in another way.
pub proof fn cleanup_counts_deletions(jobs: Seq<JobView>, results: Seq<Result<(), KubeError>>)
    requires
        results.len() <= terminal_names(jobs).len(),
    ensures
        ({
            let start = CleanupView { pending: terminal_names(jobs), deleted: 0 };
            let end = after_deletions(start, results);
            &&& end matches Ok(state) ==> state.pending == terminal_names(jobs).skip(
                results.len() as int,
            ) && state.deleted == deletions_done(results)
            &&& end is Ok <==> forall|i: int|
                0 <= i < results.len() ==> leaves_job_gone(#[trigger] results[i])
        }),
    decreases results.len(),
{
    let names = terminal_names(jobs);
    let start = CleanupView { pending: names, deleted: 0 };
    if results.len() == 0 {
        assert(names.skip(0) =~= names);
    } else {
        let front = results.drop_last();
        cleanup_counts_deletions(jobs, front);
        assert(names.skip(front.len() as int).drop_first() =~= names.skip(results.len() as int));
        assert(results[results.len() - 1] == results.last());
        if after_deletions(start, front) is Err {
            let i = choose|i: int|
                0 <= i < front.len() && !leaves_job_gone(#[trigger] front[i]);
            assert(!leaves_job_gone(results[i]));
        } else {
            assert forall|i: int| 0 <= i < front.len() implies leaves_job_gone(
                #[trigger] results[i],
            ) by {
                assert(leaves_job_gone(front[i]));
            }
        }
    }
}

} // verus!
