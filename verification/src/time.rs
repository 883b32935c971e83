//! Instants and spans of time, on the calendar of `chrono`.
use vstd::prelude::*;

verus! {

/// The first second that the calendar can name: January 1 of the year -262143.
pub const FIRST_SECOND: i64 = -8334601228800;

/// The last second that the calendar can name: the end of December 31 of the year 262142.
pub const LAST_SECOND: i64 = 8210266876799;

/// The first second of the year 0, the first that RFC 3339 can write.
pub const FIRST_RFC3339_SECOND: i64 = -62167219200;

/// The last second of the year 9999, the last that RFC 3339 can write.
pub const LAST_RFC3339_SECOND: i64 = 253402300799;

/// The nanoseconds of one second.
pub const NANOS_PER_SECOND: u32 = 1_000_000_000;

/// An instant in UTC that the calendar can name: whole seconds since the Unix epoch and
/// nanoseconds on top of them.
///
/// A leap second is written as the second before it, with `NANOS_PER_SECOND` or more nanoseconds.
#[derive(Debug, Clone, Copy, PartialEq, Eq, PartialOrd, Ord)]
pub struct Timestamp {
    seconds: i64,
    nanos: u32,
}

/// A span of time that is not negative: whole seconds and less than a second of nanoseconds.
#[derive(Debug, Clone, Copy, PartialEq, Eq, PartialOrd, Ord)]
pub struct Span {
    seconds: u64,
    nanos: u32,
}

/// Whether the calendar can name an instant of so many seconds and nanoseconds. Only the last
/// second of a minute can be a leap second.
pub open spec fn nameable(seconds: int, nanos: int) -> bool {
    &&& FIRST_SECOND <= seconds <= LAST_SECOND
    &&& 0 <= nanos < 2 * NANOS_PER_SECOND
    &&& nanos >= NANOS_PER_SECOND ==> seconds % 60 == 59
}

impl Timestamp {
    /// Seconds since the Unix epoch.
    pub closed spec fn seconds(self) -> i64 {
        self.seconds
    }

    /// Nanoseconds on top of the seconds.
    pub closed spec fn nanos(self) -> u32 {
        self.nanos
    }

    /// Seconds since the Unix epoch, and nanoseconds on top of them.
    pub open spec fn parts(self) -> (i64, u32) {
        (self.seconds(), self.nanos())
    }

    /// An instant that the calendar can name.
    #[verifier::type_invariant]
    pub open spec fn valid(self) -> bool {
        nameable(self.seconds() as int, self.nanos() as int)
    }

    /// An instant of the years 0 to 9999.
    pub open spec fn writable(self) -> bool {
        FIRST_RFC3339_SECOND <= self.seconds() <= LAST_RFC3339_SECOND
    }

    /// The order of instants.
    pub open spec fn before(self, other: Timestamp) -> bool {
        self.seconds() < other.seconds() || (self.seconds() == other.seconds() && self.nanos()
            < other.nanos())
    }

    /// The instant of so many seconds and nanoseconds, if the calendar can name it.
    pub fn new(seconds: i64, nanos: u32) -> (r: Option<Timestamp>)
        ensures
            match r {
                Some(t) => nameable(seconds as int, nanos as int) && t.seconds() == seconds
                    && t.nanos() == nanos,
                None => !nameable(seconds as int, nanos as int),
            },
    {
        if FIRST_SECOND <= seconds && seconds <= LAST_SECOND && nanos < 2 * NANOS_PER_SECOND && (
        nanos < NANOS_PER_SECOND || last_of_minute(seconds)) {
            Some(Timestamp { seconds, nanos })
        } else {
            None
        }
    }

    /// The instant of so many seconds without nanoseconds.
    pub(crate) fn from_secs(seconds: i64) -> (r: Timestamp)
        requires
            FIRST_SECOND <= seconds <= LAST_SECOND,
        ensures
            r.seconds() == seconds,
            r.nanos() == 0,
    {
        Timestamp { seconds, nanos: 0 }
    }

    /// Seconds since the Unix epoch.
    pub fn epoch_seconds(&self) -> (r: i64)
        ensures
            r == self.seconds(),
    {
        self.seconds
    }

    /// Nanoseconds on top of the seconds.
    pub fn subsec_nanos(&self) -> (r: u32)
        ensures
            r == self.nanos(),
    {
        self.nanos
    }

    /// Whether this instant comes before `other`.
    pub fn is_before(&self, other: &Timestamp) -> (r: bool)
        ensures
            r == self.before(*other),
    {
        self.seconds < other.seconds || (self.seconds == other.seconds && self.nanos < other.nanos)
    }
}

impl DeepView for Timestamp {
    type V = Timestamp;

    open spec fn deep_view(&self) -> Timestamp {
        *self
    }
}

impl DeepView for Span {
    type V = (u64, u32);

    open spec fn deep_view(&self) -> (u64, u32) {
        (self.seconds(), self.nanos())
    }
}

/// Two instants with the same seconds and nanoseconds are the same.
pub proof fn timestamps_are_equal(a: Timestamp, b: Timestamp)
    requires
        a.seconds() == b.seconds(),
        a.nanos() == b.nanos(),
    ensures
        a == b,
{
}

/// Whether a second since the epoch is the last of its minute.
fn last_of_minute(seconds: i64) -> (r: bool)
    requires
        FIRST_SECOND <= seconds <= LAST_SECOND,
    ensures
        r == (seconds as int % 60 == 59),
{
    // Shifted by whole minutes until it is not negative.
    let shifted: i64 = seconds + 60 * 1_000_000_000_000;
    shifted % 60 == 59
}

impl Span {
    /// Whole seconds.
    pub closed spec fn seconds(self) -> u64 {
        self.seconds
    }

    /// Nanoseconds on top of the seconds.
    pub closed spec fn nanos(self) -> u32 {
        self.nanos
    }

    /// A span whose nanoseconds are less than a second.
    #[verifier::type_invariant]
    pub open spec fn valid(self) -> bool {
        self.nanos() < NANOS_PER_SECOND
    }

    /// The order of spans.
    pub open spec fn shorter(self, other: Span) -> bool {
        self.seconds() < other.seconds() || (self.seconds() == other.seconds() && self.nanos()
            < other.nanos())
    }

    /// The span of so many seconds and nanoseconds.
    pub fn new(seconds: u64, nanos: u32) -> (r: Span)
        requires
            nanos < NANOS_PER_SECOND,
        ensures
            r.seconds() == seconds,
            r.nanos() == nanos,
    {
        Span { seconds, nanos }
    }

    /// A span of whole seconds.
    pub fn from_secs(seconds: u64) -> (r: Span)
        ensures
            r.seconds() == seconds,
            r.nanos() == 0,
    {
        Span { seconds, nanos: 0 }
    }

    /// Whole seconds.
    pub fn whole_seconds(&self) -> (r: u64)
        ensures
            r == self.seconds(),
    {
        self.seconds
    }

    /// Nanoseconds on top of the seconds.
    pub fn subsec_nanos(&self) -> (r: u32)
        ensures
            r == self.nanos(),
    {
        self.nanos
    }

    /// Whether this span is shorter than `other`.
    pub fn is_shorter(&self, other: &Span) -> (r: bool)
        ensures
            r == self.shorter(*other),
    {
        self.seconds < other.seconds || (self.seconds == other.seconds && self.nanos < other.nanos)
    }
}

/// The instant `span_seconds` and `span_nanos` after another, as seconds and nanoseconds, whether or
/// not the calendar can name it. A span that ends within the leap second in which it starts stays
/// in that leap second; one that leaves it does not count it.
pub open spec fn shifted(seconds: int, nanos: int, span_seconds: int, span_nanos: int) -> (
    int,
    int,
) {
    if nanos >= NANOS_PER_SECOND && span_seconds == 0 && nanos + span_nanos < 2
        * NANOS_PER_SECOND {
        (seconds, nanos + span_nanos)
    } else {
        let sum = nanos % NANOS_PER_SECOND as int + span_nanos;
        (
            seconds + span_seconds + sum / NANOS_PER_SECOND as int,
            sum % NANOS_PER_SECOND as int,
        )
    }
}

/// The instant `span` after `t`.
pub open spec fn after(t: Timestamp, span: Span) -> (int, int) {
    shifted(t.seconds() as int, t.nanos() as int, span.seconds() as int, span.nanos() as int)
}

/// The second that a leap second adds between two instants, given as seconds and nanoseconds, by
/// their times of day: one if the earlier time of day lies in a leap second of `from`, less one if
/// it lies in a leap second of `to`, and otherwise none.
pub open spec fn leap_adjustment(to: (i64, u32), from: (i64, u32)) -> int {
    let to_day = to.0 as int % 86400;
    let from_day = from.0 as int % 86400;
    if to_day > from_day && from.1 >= NANOS_PER_SECOND {
        1
    } else if to_day < from_day && to.1 >= NANOS_PER_SECOND {
        -1
    } else {
        0
    }
}

/// The nanoseconds from one instant to another, given as seconds and nanoseconds; negative if `to`
/// lies before `from`.
pub open spec fn nanos_between(to: (i64, u32), from: (i64, u32)) -> int {
    (to.0 - from.0 + leap_adjustment(to, from)) * NANOS_PER_SECOND + (to.1 - from.1)
}

/// `n / d`, rounded toward zero.
pub open spec fn toward_zero(n: int, d: int) -> int {
    if n >= 0 {
        n / d
    } else {
        -((-n) / d)
    }
}

/// What `chrono::DateTime::to_rfc3339` writes for an instant of so many seconds and nanoseconds.
pub uninterp spec fn rfc3339_text(seconds: i64, nanos: u32) -> Seq<char>;

/// What `chrono::DateTime::parse_from_rfc3339` reads from a text: the instant's seconds since the
/// epoch and its nanoseconds, or nothing if it rejects the text.
pub uninterp spec fn rfc3339_instant(text: Seq<char>) -> Option<(i64, u32)>;

/// The current time.
///
/// Calls `chrono::Utc::now`, of which it claims nothing but that it returns an instant. (It panics if
/// the clock of the machine is set to a time before the Unix epoch.)
#[verifier::external_body]
pub(crate) fn current_time() -> (r: Timestamp)
{
    let t = chrono::Utc::now();
    Timestamp { seconds: t.timestamp(), nanos: t.timestamp_subsec_nanos() }
}

/// The RFC 3339 form of an instant.
///
/// Calls `chrono::DateTime::to_rfc3339` and gives its result a name. It also claims that
/// `chrono::DateTime::parse_from_rfc3339` reads the same instant back, leap seconds and
/// nanoseconds included, if the year is one of 0 to 9999. (Other years are written with a sign,
/// which the parser rejects.)
#[verifier::external_body]
pub(crate) fn to_rfc3339(t: &Timestamp) -> (r: String)
    ensures
        r@ == rfc3339_text(t.seconds(), t.nanos()),
        t.writable() ==> rfc3339_instant(r@) == Some(t.parts()),
{
    chrono::DateTime::from_timestamp(t.seconds, t.nanos).unwrap().to_rfc3339()
}

/// The instant that an RFC 3339 text stands for.
///
/// Calls `chrono::DateTime::parse_from_rfc3339` and takes the result to UTC. It gives the result a
/// name, and claims that an accepted text stands for an instant at most one day outside of the
/// years 0 to 9999.
#[verifier::external_body]
pub(crate) fn parse_rfc3339(text: &str) -> (r: Option<Timestamp>)
    ensures
        match r {
            Some(t) => rfc3339_instant(text@) == Some(t.parts())
                && FIRST_RFC3339_SECOND - 86400 < t.seconds() < LAST_RFC3339_SECOND + 86400,
            None => rfc3339_instant(text@) is None,
        },
{
    match chrono::DateTime::parse_from_rfc3339(text) {
        Ok(t) => Some(Timestamp { seconds: t.timestamp(), nanos: t.timestamp_subsec_nanos() }),
        Err(_) => None,
    }
}

/// The instant `span` after `t`, if the calendar can name it.
///
/// Calls `chrono::DateTime::checked_add_signed` with the span as a `chrono::TimeDelta`, and states
/// its result in full. A span too long for `chrono::TimeDelta` leads out of the calendar from any
/// instant, so it gives nothing too.
#[verifier::external_body]
pub(crate) fn checked_add(t: &Timestamp, span: &Span) -> (r: Option<Timestamp>)
    ensures
        match r {
            Some(n) => (n.seconds() as int, n.nanos() as int) == after(*t, *span),
            None => after(*t, *span).0 > LAST_SECOND,
        },
{
    let start = chrono::DateTime::from_timestamp(t.seconds, t.nanos)?;
    let std_span = std::time::Duration::new(span.seconds, span.nanos);
    let delta = chrono::TimeDelta::from_std(std_span).ok()?;
    let end = start.checked_add_signed(delta)?;
    Some(Timestamp { seconds: end.timestamp(), nanos: end.timestamp_subsec_nanos() })
}

/// The time from `from` to `to`: whole seconds, rounded toward zero, and the nanoseconds left,
/// with the same sign.
///
/// Calls `chrono::DateTime::signed_duration_since` and states the duration in full.
#[verifier::external_body]
pub(crate) fn signed_duration_since(to: &Timestamp, from: &Timestamp) -> (r: (i64, i32))
    ensures
        r.0 == toward_zero(nanos_between(to.parts(), from.parts()), NANOS_PER_SECOND as int),
        r.1 == nanos_between(to.parts(), from.parts()) - r.0 * NANOS_PER_SECOND,
{
    let end = chrono::DateTime::from_timestamp(to.seconds, to.nanos).unwrap();
    let start = chrono::DateTime::from_timestamp(from.seconds, from.nanos).unwrap();
    let delta = end.signed_duration_since(start);
    (delta.num_seconds(), delta.subsec_nanos())
}

} // verus!
