//! Laws of instants and spans.
use crate::time::{self, Span, Timestamp};
use vstd::prelude::*;

verus! {

/// Instants are ordered by their seconds, and those of the same second by their nanoseconds.
pub proof fn order_of_instants(a: Timestamp, b: Timestamp)
    ensures
        a.before(b) <==> a.seconds() < b.seconds() || (a.seconds() == b.seconds() && a.nanos()
            < b.nanos()),
        a.parts() == (a.seconds(), a.nanos()),
        a.before(b) || b.before(a) || a == b,
        !(a.before(b) && b.before(a)),
{
    if a.seconds() == b.seconds() && a.nanos() == b.nanos() {
        time::timestamps_are_equal(a, b);
    }
}

/// The calendar names every second from January 1 of the year -262143 to December 31 of the year
/// 262142, each with any nanosecond; only the last second of a minute may last twice as long.
pub proof fn calendar_names_its_seconds(seconds: int, nanos: int)
    ensures
        ({
            let within = -8334601228800 <= seconds <= 8210266876799;
            &&& 0 <= nanos < 1_000_000_000 ==> (time::nameable(seconds, nanos) <==> within)
            &&& 1_000_000_000 <= nanos < 2_000_000_000 ==> (time::nameable(seconds, nanos)
                <==> within && (seconds + 1) % 60 == 0)
            &&& !(0 <= nanos < 2_000_000_000) ==> !time::nameable(seconds, nanos)
        }),
{
}

/// One span is shorter than another exactly if it has fewer nanoseconds in all.
pub proof fn order_of_spans(a: Span, b: Span)
    requires
        a.valid(),
        b.valid(),
    ensures
        a.shorter(b) <==> a.seconds() * 1_000_000_000 + a.nanos() < b.seconds() * 1_000_000_000
            + b.nanos(),
{
}

/// Outside of leap seconds, time adds up: the nanoseconds of an instant and of a span make those of
/// the later instant, less than a second of them beside whole seconds.
pub proof fn time_adds_up(seconds: int, nanos: int, span_seconds: int, span_nanos: int)
    requires
        0 <= nanos < 1_000_000_000,
        0 <= span_seconds,
        0 <= span_nanos < 1_000_000_000,
    ensures
        ({
            let (s, n) = time::shifted(seconds, nanos, span_seconds, span_nanos);
            &&& s * 1_000_000_000 + n == (seconds + span_seconds) * 1_000_000_000 + nanos
                + span_nanos
            &&& 0 <= n < 1_000_000_000
        }),
{
}

/// Outside of leap seconds, the time between two instants is the difference of their nanoseconds.
pub proof fn time_between_is_the_difference(to: (i64, u32), from: (i64, u32))
    requires
        to.1 < 1_000_000_000,
        from.1 < 1_000_000_000,
    ensures
        time::nanos_between(to, from) == (to.0 * 1_000_000_000 + to.1) - (from.0 * 1_000_000_000
            + from.1),
{
}

/// The way back takes as long, leap seconds or not.
pub proof fn time_between_is_antisymmetric(to: (i64, u32), from: (i64, u32))
    ensures
        time::nanos_between(to, from) == -time::nanos_between(from, to),
{
}

/// Rounding toward zero loses less than the divisor, and never changes the sign.
pub proof fn rounding_goes_toward_zero(n: int, d: int)
    requires
        d > 0,
    ensures
        n >= 0 ==> 0 <= n - time::toward_zero(n, d) * d < d && time::toward_zero(n, d) >= 0,
        n <= 0 ==> -d < n - time::toward_zero(n, d) * d <= 0 && time::toward_zero(n, d) <= 0,
{
    let m = if n >= 0 {
        n
    } else {
        -n
    };
    vstd::arithmetic::div_mod::lemma_fundamental_div_mod(m, d);
    let q = m / d;
    assert(d * q == q * d) by (nonlinear_arith);
    assert((-q) * d == -(q * d)) by (nonlinear_arith);
    assert(q >= 0) by (nonlinear_arith)
        requires
            m >= 0,
            d > 0,
            q == m / d,
    ;
    if n == 0 {
        assert(q == 0) by (nonlinear_arith)
            requires
                m == 0,
                d > 0,
                q == m / d,
        ;
    }
}

} // verus!
