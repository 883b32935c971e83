//! Laws of texts.
use crate::scan_job;
use crate::text;
use vstd::prelude::*;

verus! {

/// A text with a character that is not white space.
pub open spec fn has_ink(s: Seq<char>) -> bool {
    exists|k: int| 0 <= k < s.len() && !#[trigger] text::white_space(s[k])
}

/// Trimming takes white space from the two ends and nothing else: what is left lies between the two
/// positions that are returned.
pub proof fn trimming_takes_white_space_only(s: Seq<char>) -> (r: (int, int))
    ensures
        0 <= r.0 <= r.1 <= s.len(),
        text::trimmed(s) == s.subrange(r.0, r.1),
        forall|i: int| 0 <= i < r.0 ==> #[trigger] text::white_space(s[i]),
        forall|i: int| r.1 <= i < s.len() ==> #[trigger] text::white_space(s[i]),
        r.0 < r.1 ==> !text::white_space(s[r.0]) && !text::white_space(s[r.1 - 1]),
{
    let a = lemma_trimmed_start(s);
    let rest = s.skip(a);
    let n = lemma_trimmed_end(rest);
    assert(rest.take(n) =~= s.subrange(a, a + n));
    assert forall|i: int| a + n <= i < s.len() implies #[trigger] text::white_space(s[i]) by {
        assert(text::white_space(rest[i - a]));
    }
    if n > 0 {
        assert(rest[0] == s[a]);
        assert(rest[n - 1] == s[a + n - 1]);
    }
    (a, a + n)
}

proof fn lemma_trimmed_start(s: Seq<char>) -> (a: int)
    ensures
        0 <= a <= s.len(),
        text::trimmed_start(s) == s.skip(a),
        forall|i: int| 0 <= i < a ==> #[trigger] text::white_space(s[i]),
        a < s.len() ==> !text::white_space(s[a]),
    decreases s.len(),
{
    if s.len() > 0 && text::white_space(s.first()) {
        let rest = s.drop_first();
        let a = lemma_trimmed_start(rest);
        assert(rest.skip(a) =~= s.skip(a + 1));
        assert forall|i: int| 0 <= i < a + 1 implies #[trigger] text::white_space(s[i]) by {
            if i > 0 {
                assert(text::white_space(rest[i - 1]));
            }
        }
        a + 1
    } else {
        assert(s.skip(0) =~= s);
        0
    }
}

proof fn lemma_trimmed_end(s: Seq<char>) -> (n: int)
    ensures
        0 <= n <= s.len(),
        text::trimmed_end(s) == s.take(n),
        forall|i: int| n <= i < s.len() ==> #[trigger] text::white_space(s[i]),
        n > 0 ==> !text::white_space(s[n - 1]),
    decreases s.len(),
{
    if s.len() > 0 && text::white_space(s.last()) {
        let rest = s.drop_last();
        let n = lemma_trimmed_end(rest);
        assert(rest.take(n) =~= s.take(n));
        assert forall|i: int| n <= i < s.len() implies #[trigger] text::white_space(s[i]) by {
            if i < rest.len() {
                assert(text::white_space(rest[i]));
            }
        }
        n
    } else {
        assert(s.take(s.len() as int) =~= s);
        s.len() as int
    }
}

/// A text is blank exactly if every character of it is white space.
pub proof fn blank_texts_are_white_space(s: Seq<char>)
    ensures
        scan_job::blank(s) <==> !has_ink(s),
        (text::trimmed(s).len() == 0) <==> !has_ink(s),
{
    let (a, b) = trimming_takes_white_space_only(s);
    if a < b {
        assert(!text::white_space(s[a]));
    }
}

/// The white space of ASCII: the space, and the control characters from the tab to the carriage
/// return.
pub proof fn ascii_white_space(c: char)
    requires
        (c as int) < 128,
    ensures
        text::white_space(c) <==> c == ' ' || 9 <= c as int <= 13,
{
}

/// At this position two texts differ for the first time, and the first of them ends or has the
/// smaller character.
pub open spec fn first_is_smaller_at(a: Seq<char>, b: Seq<char>, k: int) -> bool {
    &&& 0 <= k <= a.len()
    &&& k < b.len()
    &&& forall|j: int| 0 <= j < k ==> #[trigger] a[j] == b[j]
    &&& k < a.len() ==> (a[k] as int) < (b[k] as int)
}

/// One text comes before another exactly if it is smaller where they differ for the first time.
pub proof fn order_goes_by_the_first_difference(a: Seq<char>, b: Seq<char>)
    ensures
        text::text_lt(a, b) <==> exists|k: int| first_is_smaller_at(a, b, k),
    decreases a.len(),
{
    if b.len() == 0 {
    } else if a.len() == 0 {
        assert(first_is_smaller_at(a, b, 0));
    } else if a.first() == b.first() {
        let x = a.drop_first();
        let y = b.drop_first();
        order_goes_by_the_first_difference(x, y);
        if text::text_lt(x, y) {
            let k = choose|k: int| first_is_smaller_at(x, y, k);
            assert forall|j: int| 0 <= j < k + 1 implies #[trigger] a[j] == b[j] by {
                if j > 0 {
                    assert(x[j - 1] == y[j - 1]);
                }
            }
            assert(first_is_smaller_at(a, b, k + 1));
        }
        if exists|k: int| first_is_smaller_at(a, b, k) {
            let k = choose|k: int| first_is_smaller_at(a, b, k);
            assert(k > 0);
            assert forall|j: int| 0 <= j < k - 1 implies #[trigger] x[j] == y[j] by {
                assert(a[j + 1] == b[j + 1]);
            }
            assert(first_is_smaller_at(x, y, k - 1));
        }
    } else {
        if (a.first() as int) < (b.first() as int) {
            assert(first_is_smaller_at(a, b, 0));
        }
        if exists|k: int| first_is_smaller_at(a, b, k) {
            let k = choose|k: int| first_is_smaller_at(a, b, k);
            assert(k == 0) by {
                if k > 0 {
                    assert(a[0] == b[0]);
                }
            }
        }
    }
}

/// The number that decimal digits make.
pub open spec fn number_of(s: Seq<char>) -> int
    decreases s.len(),
{
    if s.len() == 0 {
        0
    } else {
        number_of(s.drop_last()) * 10 + (s.last() as int - '0' as int)
    }
}

/// Decimal notation makes the number again, in digits, and without a zero in front.
pub proof fn decimal_notation_makes_the_number(n: nat)
    ensures
        number_of(text::decimal(n)) == n,
        text::decimal(n).len() > 0,
        forall|i: int| 0 <= i < text::decimal(n).len() ==> '0' <= #[trigger] text::decimal(n)[i] <= '9',
        n > 0 ==> text::decimal(n)[0] != '0',
        n == 0 ==> text::decimal(n).len() == 1,
    decreases n,
{
    let s = text::decimal(n);
    reveal_with_fuel(number_of, 2);
    if n < 10 {
        assert((48 + n) as char as int == 48 + n);
        assert(s.drop_last() =~= Seq::empty());
    } else {
        decimal_notation_makes_the_number(n / 10);
        let d = n % 10;
        assert((48 + d) as char as int == 48 + d);
        assert(s.drop_last() =~= text::decimal(n / 10));
    }
}

} // verus!
