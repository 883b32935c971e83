//! Laws of the terms of a duration.
use crate::laws::text as text_laws;
use crate::reconcile::scheduler;
use vstd::prelude::*;

verus! {

/// Every character is a decimal digit.
pub open spec fn all_digits(s: Seq<char>) -> bool {
    forall|i: int| 0 <= i < s.len() ==> '0' <= #[trigger] s[i] <= '9'
}

/// Every character is a letter of a unit of time.
pub open spec fn all_letters(s: Seq<char>) -> bool {
    forall|i: int| 0 <= i < s.len() ==> scheduler::unit_letter(#[trigger] s[i])
}

/// No character is a letter of a unit of time.
pub open spec fn no_letters(s: Seq<char>) -> bool {
    forall|i: int| 0 <= i < s.len() ==> !scheduler::unit_letter(#[trigger] s[i])
}

/// What a duration comes to, in nanoseconds.
pub open spec fn total(s: Seq<char>) -> nat {
    scheduler::total_nanos(s, s.len() as int)
}

/// The units of time are multiples of each other, under all of their names.
pub proof fn units_are_multiples()
    ensures
        ({
            let of = |unit: Seq<char>| scheduler::unit_nanos(unit) as int;
            &&& of("nanos"@) == 1 && of("nsec"@) == 1 && of("ns"@) == 1
            &&& of("usec"@) == 1000 && of("us"@) == 1000 && of("\u{b5}s"@) == 1000
            &&& of("millis"@) == 1000 * of("us"@) && of("msec"@) == of("millis"@)
            &&& of("ms"@) == of("millis"@)
            &&& of("s"@) == 1000 * of("ms"@) && of("seconds"@) == of("s"@)
            &&& of("second"@) == of("s"@) && of("secs"@) == of("s"@) && of("sec"@) == of("s"@)
            &&& of("m"@) == 60 * of("s"@) && of("minutes"@) == of("m"@)
            &&& of("minute"@) == of("m"@) && of("min"@) == of("m"@) && of("mins"@) == of("m"@)
            &&& of("h"@) == 60 * of("m"@) && of("hours"@) == of("h"@)
            &&& of("hour"@) == of("h"@) && of("hr"@) == of("h"@) && of("hrs"@) == of("h"@)
            &&& of("d"@) == 24 * of("h"@) && of("days"@) == of("d"@) && of("day"@) == of("d"@)
            &&& of("w"@) == 7 * of("d"@) && of("weeks"@) == of("w"@)
            &&& of("week"@) == of("w"@) && of("wk"@) == of("w"@) && of("wks"@) == of("w"@)
            &&& 100 * of("M"@) == 3044 * of("d"@) && of("months"@) == of("M"@)
            &&& of("month"@) == of("M"@)
            &&& 100 * of("y"@) == 36525 * of("d"@) && of("years"@) == of("y"@)
            &&& of("year"@) == of("y"@) && of("yr"@) == of("y"@) && of("yrs"@) == of("y"@)
        }),
{
    lemma_names_differ();
}

/// How long a text is, and what stands at its start, in its middle and at its end.
spec fn outline(s: Seq<char>) -> (int, char, char, char) {
    (s.len() as int, s[0], s[s.len() as int / 2], s[s.len() - 1])
}

/// The names of units are all different: no two have the same outline.
proof fn lemma_names_differ()
    ensures
        scheduler::unit_nanos("usec"@) == 1_000,
        scheduler::unit_nanos("us"@) == 1_000,
        scheduler::unit_nanos("\u{b5}s"@) == 1_000,
        scheduler::unit_nanos("millis"@) == 1_000_000,
        scheduler::unit_nanos("msec"@) == 1_000_000,
        scheduler::unit_nanos("ms"@) == 1_000_000,
        scheduler::unit_nanos("seconds"@) == 1_000_000_000,
        scheduler::unit_nanos("second"@) == 1_000_000_000,
        scheduler::unit_nanos("secs"@) == 1_000_000_000,
        scheduler::unit_nanos("sec"@) == 1_000_000_000,
        scheduler::unit_nanos("s"@) == 1_000_000_000,
        scheduler::unit_nanos("minutes"@) == 60_000_000_000,
        scheduler::unit_nanos("minute"@) == 60_000_000_000,
        scheduler::unit_nanos("min"@) == 60_000_000_000,
        scheduler::unit_nanos("mins"@) == 60_000_000_000,
        scheduler::unit_nanos("m"@) == 60_000_000_000,
        scheduler::unit_nanos("hours"@) == 3_600_000_000_000,
        scheduler::unit_nanos("hour"@) == 3_600_000_000_000,
        scheduler::unit_nanos("hr"@) == 3_600_000_000_000,
        scheduler::unit_nanos("hrs"@) == 3_600_000_000_000,
        scheduler::unit_nanos("h"@) == 3_600_000_000_000,
        scheduler::unit_nanos("days"@) == 86_400_000_000_000,
        scheduler::unit_nanos("day"@) == 86_400_000_000_000,
        scheduler::unit_nanos("d"@) == 86_400_000_000_000,
        scheduler::unit_nanos("weeks"@) == 604_800_000_000_000,
        scheduler::unit_nanos("week"@) == 604_800_000_000_000,
        scheduler::unit_nanos("wk"@) == 604_800_000_000_000,
        scheduler::unit_nanos("wks"@) == 604_800_000_000_000,
        scheduler::unit_nanos("w"@) == 604_800_000_000_000,
        scheduler::unit_nanos("months"@) == 2_630_016_000_000_000,
        scheduler::unit_nanos("month"@) == 2_630_016_000_000_000,
        scheduler::unit_nanos("M"@) == 2_630_016_000_000_000,
        scheduler::unit_nanos("years"@) == 31_557_600_000_000_000,
        scheduler::unit_nanos("year"@) == 31_557_600_000_000_000,
        scheduler::unit_nanos("yr"@) == 31_557_600_000_000_000,
        scheduler::unit_nanos("yrs"@) == 31_557_600_000_000_000,
        scheduler::unit_nanos("y"@) == 31_557_600_000_000_000,
{
    reveal_strlit("nanos");
    assert(outline("nanos"@) == (5int, 'n', 'n', 's'));
    reveal_strlit("nsec");
    assert(outline("nsec"@) == (4int, 'n', 'e', 'c'));
    reveal_strlit("ns");
    assert(outline("ns"@) == (2int, 'n', 's', 's'));
    reveal_strlit("usec");
    assert(outline("usec"@) == (4int, 'u', 'e', 'c'));
    reveal_strlit("us");
    assert(outline("us"@) == (2int, 'u', 's', 's'));
    reveal_strlit("\u{b5}s");
    assert(outline("\u{b5}s"@) == (2int, '\u{b5}', 's', 's'));
    reveal_strlit("millis");
    assert(outline("millis"@) == (6int, 'm', 'l', 's'));
    reveal_strlit("msec");
    assert(outline("msec"@) == (4int, 'm', 'e', 'c'));
    reveal_strlit("ms");
    assert(outline("ms"@) == (2int, 'm', 's', 's'));
    reveal_strlit("seconds");
    assert(outline("seconds"@) == (7int, 's', 'o', 's'));
    reveal_strlit("second");
    assert(outline("second"@) == (6int, 's', 'o', 'd'));
    reveal_strlit("secs");
    assert(outline("secs"@) == (4int, 's', 'c', 's'));
    reveal_strlit("sec");
    assert(outline("sec"@) == (3int, 's', 'e', 'c'));
    reveal_strlit("s");
    assert(outline("s"@) == (1int, 's', 's', 's'));
    reveal_strlit("minutes");
    assert(outline("minutes"@) == (7int, 'm', 'u', 's'));
    reveal_strlit("minute");
    assert(outline("minute"@) == (6int, 'm', 'u', 'e'));
    reveal_strlit("min");
    assert(outline("min"@) == (3int, 'm', 'i', 'n'));
    reveal_strlit("mins");
    assert(outline("mins"@) == (4int, 'm', 'n', 's'));
    reveal_strlit("m");
    assert(outline("m"@) == (1int, 'm', 'm', 'm'));
    reveal_strlit("hours");
    assert(outline("hours"@) == (5int, 'h', 'u', 's'));
    reveal_strlit("hour");
    assert(outline("hour"@) == (4int, 'h', 'u', 'r'));
    reveal_strlit("hr");
    assert(outline("hr"@) == (2int, 'h', 'r', 'r'));
    reveal_strlit("hrs");
    assert(outline("hrs"@) == (3int, 'h', 'r', 's'));
    reveal_strlit("h");
    assert(outline("h"@) == (1int, 'h', 'h', 'h'));
    reveal_strlit("days");
    assert(outline("days"@) == (4int, 'd', 'y', 's'));
    reveal_strlit("day");
    assert(outline("day"@) == (3int, 'd', 'a', 'y'));
    reveal_strlit("d");
    assert(outline("d"@) == (1int, 'd', 'd', 'd'));
    reveal_strlit("weeks");
    assert(outline("weeks"@) == (5int, 'w', 'e', 's'));
    reveal_strlit("week");
    assert(outline("week"@) == (4int, 'w', 'e', 'k'));
    reveal_strlit("wk");
    assert(outline("wk"@) == (2int, 'w', 'k', 'k'));
    reveal_strlit("wks");
    assert(outline("wks"@) == (3int, 'w', 'k', 's'));
    reveal_strlit("w");
    assert(outline("w"@) == (1int, 'w', 'w', 'w'));
    reveal_strlit("months");
    assert(outline("months"@) == (6int, 'm', 't', 's'));
    reveal_strlit("month");
    assert(outline("month"@) == (5int, 'm', 'n', 'h'));
    reveal_strlit("M");
    assert(outline("M"@) == (1int, 'M', 'M', 'M'));
    reveal_strlit("years");
    assert(outline("years"@) == (5int, 'y', 'a', 's'));
    reveal_strlit("year");
    assert(outline("year"@) == (4int, 'y', 'a', 'r'));
    reveal_strlit("yr");
    assert(outline("yr"@) == (2int, 'y', 'r', 'r'));
    reveal_strlit("yrs");
    assert(outline("yrs"@) == (3int, 'y', 'r', 's'));
    reveal_strlit("y");
    assert(outline("y"@) == (1int, 'y', 'y', 'y'));
}

/// A duration that comes to less than 2^64 seconds can be added up.
pub proof fn short_durations_are_safe(s: Seq<char>)
    requires
        total(s) < 18446744073709551616 * 1_000_000_000,
    ensures
        scheduler::sums_safely(s),
{
    assert forall|i: int| 0 <= i < s.len() && #[trigger] scheduler::completes_term(s, i) implies {
        &&& scheduler::total_nanos(s, i) + scheduler::whole_nanos(s, i)
            != scheduler::DURATION_LIMIT_NANOS
        &&& scheduler::total_nanos(s, i) + scheduler::whole_nanos(s, i)
            + scheduler::fraction_nanos(s, i) != scheduler::DURATION_LIMIT_NANOS
    } by {
        lemma_total_grows(s, i + 1, s.len() as int);
    }
}

proof fn lemma_total_grows(s: Seq<char>, m: int, n: int)
    requires
        0 <= m <= n,
    ensures
        scheduler::total_nanos(s, m) <= scheduler::total_nanos(s, n),
    decreases n,
{
    if m < n {
        lemma_total_grows(s, m, n - 1);
    }
}

/// A whole number and a unit come to that many of that unit. It can be added up unless it comes to
/// exactly 2^64 seconds.
pub proof fn terms_are_products(digits: Seq<char>, unit: Seq<char>)
    requires
        digits.len() > 0,
        all_digits(digits),
        unit.len() > 0,
        all_letters(unit),
    ensures
        ({
            let product = text_laws::number_of(digits) * scheduler::unit_nanos(unit);
            &&& total(digits + unit) == product
            &&& scheduler::unit_nanos(unit) > 0 ==> (scheduler::sums_safely(digits + unit)
                <==> product != 18446744073709551616 * 1_000_000_000)
        }),
{
    let s = digits + unit;
    let d = digits.len() as int;
    lemma_digits(digits);
    lemma_term(digits, unit);
    if scheduler::unit_nanos(unit) > 0 {
        assert(s.take(d) =~= digits);
        lemma_reading(digits, unit, d);
        assert(scheduler::unit_letter(s[d]));
        assert(scheduler::completes_term(s, d));
        assert forall|i: int| 0 <= i < s.len() && i != d implies !#[trigger]
            scheduler::completes_term(s, i) by {
            if i > d {
                assert(scheduler::unit_letter(s[i - 1]));
            } else {
                assert('0' <= s[i] <= '9');
            }
        }
        reveal_with_fuel(scheduler::ten_to, 1);
    }
}

proof fn lemma_reading(digits: Seq<char>, unit: Seq<char>, n: int)
    requires
        all_digits(digits),
        0 < n <= digits.len(),
    ensures
        scheduler::reading_of(digits + unit, n) is Whole,
    decreases n,
{
    let s = digits + unit;
    assert('0' <= s[n - 1] <= '9');
    if n > 1 {
        lemma_reading(digits, unit, n - 1);
    } else {
        assert(scheduler::reading_of(s, 0) is Start);
    }
}

proof fn lemma_digits(digits: Seq<char>)
    requires
        all_digits(digits),
    ensures
        no_letters(digits),
        scheduler::whole_part(digits) == text_laws::number_of(digits),
        scheduler::fraction_part(digits) == 0,
        scheduler::fraction_digits(digits) == 0,
        !scheduler::point_seen(digits),
    decreases digits.len(),
{
    if digits.len() > 0 {
        assert('0' <= digits[digits.len() - 1] <= '9');
        lemma_digits(digits.drop_last());
    }
}

/// What a number, with a fraction or without one, and a unit come to.
proof fn lemma_term(number: Seq<char>, unit: Seq<char>)
    requires
        number.len() > 0,
        no_letters(number),
        unit.len() > 0,
        all_letters(unit),
    ensures
        ({
            let s = number + unit;
            let i = number.len() as int;
            &&& scheduler::nanos_of_unit_at(s, i) == scheduler::unit_nanos(unit)
            &&& scheduler::letters_end(s, i) == s.len()
            &&& scheduler::unit_start(s, i)
            &&& scheduler::total_nanos(s, i) == 0
            &&& s.take(i) == number
            &&& total(s) == scheduler::whole_nanos(s, i) + scheduler::fraction_nanos(s, i)
        }),
{
    let s = number + unit;
    let i = number.len() as int;
    lemma_letters_end(number, unit, i);
    assert(s.subrange(i, s.len() as int) =~= unit);
    assert(s.take(i) =~= number);
    assert(scheduler::unit_letter(s[i]));
    assert(!scheduler::unit_letter(s[i - 1]));
    lemma_nothing_before(number, unit, i);
    lemma_nothing_behind(number, unit, s.len() as int);
}

proof fn lemma_letters_end(number: Seq<char>, unit: Seq<char>, i: int)
    requires
        all_letters(unit),
        number.len() <= i <= number.len() + unit.len(),
    ensures
        scheduler::letters_end(number + unit, i) == number.len() + unit.len(),
    decreases number.len() + unit.len() - i,
{
    if i < number.len() + unit.len() {
        assert((number + unit)[i] == unit[i - number.len()]);
        lemma_letters_end(number, unit, i + 1);
    }
}

proof fn lemma_nothing_before(number: Seq<char>, unit: Seq<char>, n: int)
    requires
        no_letters(number),
        0 <= n <= number.len(),
    ensures
        scheduler::total_nanos(number + unit, n) == 0,
    decreases n,
{
    if n > 0 {
        lemma_nothing_before(number, unit, n - 1);
        assert(!scheduler::unit_letter((number + unit)[n - 1]));
    }
}

proof fn lemma_nothing_behind(number: Seq<char>, unit: Seq<char>, n: int)
    requires
        all_letters(unit),
        number.len() < n <= number.len() + unit.len(),
    ensures
        scheduler::total_nanos(number + unit, n) == scheduler::total_nanos(
            number + unit,
            number.len() as int + 1,
        ),
    decreases n,
{
    if n > number.len() + 1 {
        lemma_nothing_behind(number, unit, n - 1);
        assert((number + unit)[n - 2] == unit[n - 2 - number.len()]);
    }
}

/// A fraction of fewer than twenty digits counts as that part of the unit, rounded down.
pub proof fn fractions_are_parts(digits: Seq<char>, fraction: Seq<char>, unit: Seq<char>)
    requires
        all_digits(digits),
        all_digits(fraction),
        fraction.len() < 20,
        unit.len() > 0,
        all_letters(unit),
    ensures
        ({
            let size = scheduler::unit_nanos(unit) as int;
            let part = total(digits + seq!['.'] + fraction + unit) - text_laws::number_of(digits)
                * size;
            let tens = vstd::arithmetic::power::pow(10, fraction.len());
            part == (text_laws::number_of(fraction) * size) / tens
        }),
{
    let number = digits + seq!['.'] + fraction;
    lemma_number(digits, fraction);
    lemma_term(number, unit);
    lemma_ten_to(fraction.len());
}

proof fn lemma_ten_to(n: nat)
    ensures
        scheduler::ten_to(n) == vstd::arithmetic::power::pow(10, n),
        scheduler::ten_to(n) > 0,
    decreases n,
{
    reveal(vstd::arithmetic::power::pow);
    if n > 0 {
        lemma_ten_to((n - 1) as nat);
    }
}

proof fn lemma_number(digits: Seq<char>, fraction: Seq<char>)
    requires
        all_digits(digits),
        all_digits(fraction),
    ensures
        ({
            let number = digits + seq!['.'] + fraction;
            &&& no_letters(number)
            &&& scheduler::point_seen(number)
            &&& scheduler::whole_part(number) == text_laws::number_of(digits)
            &&& scheduler::fraction_part(number) == text_laws::number_of(fraction)
            &&& scheduler::fraction_digits(number) == fraction.len()
        }),
    decreases fraction.len(),
{
    let number = digits + seq!['.'] + fraction;
    assert forall|i: int| 0 <= i < number.len() implies !scheduler::unit_letter(
        #[trigger] number[i],
    ) by {
        if i < digits.len() {
            assert(number[i] == digits[i]);
        } else if i > digits.len() {
            assert(number[i] == fraction[i - digits.len() - 1]);
        }
    }
    if fraction.len() == 0 {
        lemma_digits(digits);
        assert(number.drop_last() =~= digits);
        assert(number.last() == '.');
    } else {
        lemma_number(digits, fraction.drop_last());
        assert(number.drop_last() =~= digits + seq!['.'] + fraction.drop_last());
        assert(number.last() == fraction[fraction.len() - 1]);
    }
}

/// The terms of a duration add up, with white space between them or not.
pub proof fn terms_add_up(a: Seq<char>, b: Seq<char>)
    requires
        a.len() > 0,
        scheduler::unit_letter(a[a.len() - 1]),
        b.len() > 0,
        !scheduler::unit_letter(b[0]),
    ensures
        total(a + b) == total(a) + total(b),
{
    lemma_sum(a, b, b.len() as int);
}

proof fn lemma_sum(a: Seq<char>, b: Seq<char>, n: int)
    requires
        a.len() > 0,
        scheduler::unit_letter(a[a.len() - 1]),
        b.len() > 0,
        !scheduler::unit_letter(b[0]),
        0 <= n <= b.len(),
    ensures
        scheduler::total_nanos(a + b, a.len() + n) == total(a) + scheduler::total_nanos(b, n),
    decreases n,
{
    let s = a + b;
    if n == 0 {
        lemma_front(a, b, a.len() as int);
    } else {
        let i = n - 1;
        let at = a.len() + i;
        lemma_sum(a, b, i);
        assert(s[at] == b[i]);
        if i > 0 {
            assert(s[at - 1] == b[i - 1]);
        }
        if scheduler::unit_start(b, i) {
            assert(s.take(at) =~= a + b.take(i));
            lemma_number_behind(a, b.take(i));
            lemma_letters_behind(a, b, i);
            lemma_letters_bound(b, i);
            assert(s.subrange(at, scheduler::letters_end(s, at)) =~= b.subrange(
                i,
                scheduler::letters_end(b, i),
            ));
        }
    }
}

proof fn lemma_letters_bound(s: Seq<char>, i: int)
    requires
        0 <= i <= s.len(),
    ensures
        i <= scheduler::letters_end(s, i) <= s.len(),
    decreases s.len() - i,
{
    if i < s.len() && scheduler::unit_letter(s[i]) {
        lemma_letters_bound(s, i + 1);
    }
}

proof fn lemma_letters_behind(a: Seq<char>, b: Seq<char>, i: int)
    requires
        0 <= i <= b.len(),
    ensures
        scheduler::letters_end(a + b, a.len() + i) == a.len() + scheduler::letters_end(b, i),
    decreases b.len() - i,
{
    if i < b.len() {
        assert((a + b)[a.len() + i] == b[i]);
        if scheduler::unit_letter(b[i]) {
            lemma_letters_behind(a, b, i + 1);
        }
    }
}

proof fn lemma_letters_before(a: Seq<char>, b: Seq<char>, i: int)
    requires
        b.len() > 0,
        !scheduler::unit_letter(b[0]),
        0 <= i <= a.len(),
    ensures
        scheduler::letters_end(a + b, i) == scheduler::letters_end(a, i),
    decreases a.len() - i,
{
    if i < a.len() {
        assert((a + b)[i] == a[i]);
        if scheduler::unit_letter(a[i]) {
            lemma_letters_before(a, b, i + 1);
        }
    } else {
        assert((a + b)[i] == b[0]);
    }
}

proof fn lemma_front(a: Seq<char>, b: Seq<char>, n: int)
    requires
        b.len() > 0,
        !scheduler::unit_letter(b[0]),
        0 <= n <= a.len(),
    ensures
        scheduler::total_nanos(a + b, n) == scheduler::total_nanos(a, n),
    decreases n,
{
    if n > 0 {
        let s = a + b;
        let i = n - 1;
        lemma_front(a, b, i);
        assert(s[i] == a[i]);
        if i > 0 {
            assert(s[i - 1] == a[i - 1]);
        }
        if scheduler::unit_start(a, i) {
            assert(s.take(i) =~= a.take(i));
            lemma_letters_before(a, b, i);
            lemma_letters_bound(a, i);
            assert(s.subrange(i, scheduler::letters_end(s, i)) =~= a.subrange(
                i,
                scheduler::letters_end(a, i),
            ));
        }
    }
}

proof fn lemma_number_behind(a: Seq<char>, c: Seq<char>)
    requires
        a.len() > 0,
        scheduler::unit_letter(a[a.len() - 1]),
    ensures
        scheduler::whole_part(a + c) == scheduler::whole_part(c),
        scheduler::fraction_part(a + c) == scheduler::fraction_part(c),
        scheduler::fraction_digits(a + c) == scheduler::fraction_digits(c),
        scheduler::point_seen(a + c) == scheduler::point_seen(c),
    decreases c.len(),
{
    if c.len() == 0 {
        assert(a + c =~= a);
    } else {
        assert((a + c).drop_last() =~= a + c.drop_last());
        assert((a + c).last() == c.last());
        lemma_number_behind(a, c.drop_last());
    }
}

} // verus!
