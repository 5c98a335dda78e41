//! Whether the text of an integer literal denotes a 32-bit signed integer,
//! as parsing it into an `i32` decides: an optional `+` or `-`, then at least
//! one ASCII digit and nothing else, with a value in `i32`'s range.

use vstd::prelude::*;
use vstd::string::StrSliceExecFns;

verus! {

/// Whether `c` is an ASCII decimal digit.
pub open spec fn is_digit(c: char) -> bool {
    '0' <= c && c <= '9'
}

/// The value of a decimal digit.
pub open spec fn digit_value(c: char) -> int {
    (c as int) - ('0' as int)
}

/// The value of a sequence of decimal digits, most significant first.
pub open spec fn digits_value(d: Seq<char>) -> int
    decreases d.len(),
{
    if d.len() == 0 {
        0
    } else {
        digits_value(d.drop_last()) * 10 + digit_value(d.last())
    }
}

/// Whether every character of `d` is a decimal digit.
pub open spec fn all_digits(d: Seq<char>) -> bool {
    forall|i: int| 0 <= i < d.len() ==> is_digit(#[trigger] d[i])
}

/// Whether the literal starts with a minus sign.
pub open spec fn is_negative(s: Seq<char>) -> bool {
    s.len() > 0 && s[0] == '-'
}

/// The digits of a literal: what follows an optional leading sign.
pub open spec fn literal_digits(s: Seq<char>) -> Seq<char> {
    if s.len() > 0 && (s[0] == '-' || s[0] == '+') {
        s.skip(1)
    } else {
        s
    }
}

/// The integer that the text `s` denotes, if it is an optional sign followed
/// by one or more decimal digits.
pub open spec fn literal_value(s: Seq<char>) -> Option<int> {
    let d = literal_digits(s);
    if d.len() > 0 && all_digits(d) {
        Some(if is_negative(s) { -digits_value(d) } else { digits_value(d) })
    } else {
        None
    }
}

/// Whether `s` parses as an `i32`.
pub open spec fn parses_as_i32(s: Seq<char>) -> bool {
    match literal_value(s) {
        Some(v) => i32::MIN <= v <= i32::MAX,
        None => false,
    }
}

proof fn lemma_digits_value_nonneg(d: Seq<char>)
    requires
        all_digits(d),
    ensures
        digits_value(d) >= 0,
    decreases d.len(),
{
    if d.len() > 0 {
        lemma_digits_value_nonneg(d.drop_last());
    }
}

/// The value of a prefix of digits never exceeds the value of the whole.
proof fn lemma_digits_value_prefix(d: Seq<char>, k: int)
    requires
        all_digits(d),
        0 <= k <= d.len(),
    ensures
        digits_value(d.take(k)) <= digits_value(d),
    decreases d.len(),
{
    if k < d.len() {
        assert(d.take(k) =~= d.drop_last().take(k));
        lemma_digits_value_prefix(d.drop_last(), k);
        lemma_digits_value_nonneg(d.drop_last());
        assert(all_digits(d.drop_last()));
    } else {
        assert(d.take(k) =~= d);
    }
}

/// Whether the text `s` parses as an `i32`.
pub fn parses_as_i32_text(s: &str) -> (r: bool)
    ensures
        r == parses_as_i32(s@),
{
    let n = s.unicode_len();
    if n == 0 {
        return false;
    }
    let c0 = s.get_char(0);
    let start: usize = if c0 == '-' || c0 == '+' { 1 } else { 0 };
    let ghost d = literal_digits(s@);
    assert(d =~= s@.skip(start as int));
    if start == n {
        return false;
    }
    let mut acc: i64 = 0;
    let mut i: usize = start;
    while i < n
        invariant
            start <= i <= n,
            n == s@.len(),
            d =~= s@.skip(start as int),
            d == literal_digits(s@),
            d.len() > 0,
            all_digits(d.take(i - start)),
            acc == digits_value(d.take(i - start)),
            0 <= acc <= 2147483648,
        decreases n - i,
    {
        let c = s.get_char(i);
        if !('0' <= c && c <= '9') {
            assert(d[i - start] == c);
            assert(!is_digit(d[i - start]));
            assert(!all_digits(d));
            return false;
        }
        let dv: i64 = (c as u32 - '0' as u32) as i64;
        proof {
            let t = d.take(i - start + 1);
            assert(t.drop_last() =~= d.take(i - start));
            assert(t.last() == c);
        }
        acc = acc * 10 + dv;
        i = i + 1;
        assert(all_digits(d.take(i - start)));
        if acc > 2147483648 {
            proof {
                if all_digits(d) {
                    lemma_digits_value_prefix(d, i - start);
                }
            }
            return false;
        }
    }
    assert(d.take(n - start) =~= d);
    if c0 == '-' {
        acc <= 2147483648
    } else {
        acc <= 2147483647
    }
}

} // verus!
