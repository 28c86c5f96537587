//! Decimal text of integers, both ways (`i64`'s `Display` and `FromStr`).
use vstd::prelude::*;

use crate::text::{chars_of, has_prefix, is_digit, starts_with_str};

verus! {

/// The character of a decimal digit.
pub open spec fn digit_char(d: int) -> char {
    if d == 0 {
        '0'
    } else if d == 1 {
        '1'
    } else if d == 2 {
        '2'
    } else if d == 3 {
        '3'
    } else if d == 4 {
        '4'
    } else if d == 5 {
        '5'
    } else if d == 6 {
        '6'
    } else if d == 7 {
        '7'
    } else if d == 8 {
        '8'
    } else {
        '9'
    }
}

/// Decimal digits of `n`, without leading zeros.
pub open spec fn nat_text(n: nat) -> Seq<char>
    decreases n,
{
    if n < 10 {
        seq![digit_char(n as int)]
    } else {
        nat_text(n / 10).push(digit_char((n % 10) as int))
    }
}

/// Decimal text of `i`, with `-` before a negative number.
pub open spec fn int_text(i: int) -> Seq<char> {
    if i < 0 {
        "-"@ + nat_text((-i) as nat)
    } else {
        nat_text(i as nat)
    }
}

fn digit(d: u64) -> (c: char)
    requires
        d < 10,
    ensures
        c == digit_char(d as int),
{
    if d == 0 {
        '0'
    } else if d == 1 {
        '1'
    } else if d == 2 {
        '2'
    } else if d == 3 {
        '3'
    } else if d == 4 {
        '4'
    } else if d == 5 {
        '5'
    } else if d == 6 {
        '6'
    } else if d == 7 {
        '7'
    } else if d == 8 {
        '8'
    } else {
        '9'
    }
}

fn nat_digits(n: u64) -> (r: Vec<char>)
    ensures
        r@ == nat_text(n as nat),
    decreases n,
{
    if n < 10 {
        let mut v = Vec::new();
        v.push(digit(n));
        v
    } else {
        let mut v = nat_digits(n / 10);
        v.push(digit(n % 10));
        v
    }
}

/// Decimal text of a `u64`.
pub fn u64_text(n: u64) -> (r: Vec<char>)
    ensures
        r@ == nat_text(n as nat),
{
    nat_digits(n)
}

/// Decimal text of a `usize`.
pub fn usize_text(n: usize) -> (r: Vec<char>)
    ensures
        r@ == nat_text(n as nat),
{
    nat_digits(n as u64)
}

/// Decimal text of an `i64` (see [`int_text`]).
pub fn i64_text(i: i64) -> (r: Vec<char>)
    ensures
        r@ == int_text(i as int),
{
    if i < 0 {
        let m: u64 = if i == i64::MIN {
            0x8000_0000_0000_0000
        } else {
            (-i) as u64
        };
        let mut v = chars_of("-");
        let d = nat_digits(m);
        crate::text::extend_vec(&mut v, &d);
        v
    } else {
        nat_digits(i as u64)
    }
}

/// Value of a run of decimal digits.
pub open spec fn digits_value(s: Seq<char>) -> int
    decreases s.len(),
{
    if s.len() == 0 {
        0
    } else {
        digits_value(s.drop_last()) * 10 + (s.last() as u32 - '0' as u32)
    }
}

/// Only decimal digits.
pub open spec fn all_digits(s: Seq<char>) -> bool {
    forall|i: int| 0 <= i < s.len() ==> is_digit(#[trigger] s[i])
}

/// What `str::parse::<i64>` gives: an optional sign and at least one digit,
/// in range.
pub open spec fn parsed_i64(s: Seq<char>) -> Option<i64> {
    let neg = has_prefix(s, "-"@);
    let body = if has_prefix(s, "-"@) || has_prefix(s, "+"@) {
        s.skip(1)
    } else {
        s
    };
    if body.len() == 0 || !all_digits(body) {
        None
    } else {
        let v = if neg {
            -digits_value(body)
        } else {
            digits_value(body)
        };
        if i64::MIN <= v <= i64::MAX {
            Some(v as i64)
        } else {
            None
        }
    }
}

proof fn lemma_digits_grow(s: Seq<char>, k: int)
    requires
        all_digits(s),
        0 <= k <= s.len(),
    ensures
        0 <= digits_value(s.take(k)) <= digits_value(s),
    decreases s.len() - k,
{
    if k < s.len() {
        lemma_digits_grow(s, k + 1);
        assert(s.take(k + 1).drop_last() =~= s.take(k));
        assert(is_digit(s[k]));
        lemma_digits_nonneg(s.take(k));
    } else {
        assert(s.take(k) =~= s);
        lemma_digits_nonneg(s);
    }
}

proof fn lemma_digits_nonneg(s: Seq<char>)
    requires
        all_digits(s),
    ensures
        digits_value(s) >= 0,
    decreases s.len(),
{
    if s.len() > 0 {
        assert(is_digit(s[s.len() - 1]));
        assert forall|i: int| 0 <= i < s.drop_last().len() implies is_digit(#[trigger] s.drop_last()[i]) by {
            assert(s.drop_last()[i] == s[i]);
        }
        lemma_digits_nonneg(s.drop_last());
    }
}

/// Parses a decimal `i64` (see [`parsed_i64`]).
pub fn parse_i64(s: &str) -> (r: Option<i64>)
    ensures
        r == parsed_i64(s@),
{
    proof {
        reveal_strlit("-");
        reveal_strlit("+");
    }
    let v = chars_of(s);
    let neg = starts_with_str(&v, "-");
    let start: usize = if neg || starts_with_str(&v, "+") {
        1
    } else {
        0
    };
    let ghost body = if neg || has_prefix(s@, "+"@) {
        s@.skip(1)
    } else {
        s@
    };
    assert(body =~= v@.skip(start as int));
    if start >= v.len() {
        return None;
    }
    let mut acc: i128 = 0;
    let mut i = start;
    let bound: i128 = 0x8000_0000_0000_0000;
    while i < v.len()
        invariant
            start <= i <= v.len(),
            v@ == s@,
            neg == has_prefix(s@, "-"@),
            body == (if has_prefix(s@, "-"@) || has_prefix(s@, "+"@) {
                s@.skip(1)
            } else {
                s@
            }),
            body =~= v@.skip(start as int),
            forall|k: int| 0 <= k < i - start ==> is_digit(#[trigger] body[k]),
            acc == digits_value(body.take(i - start)),
            bound == 0x8000_0000_0000_0000,
            0 <= acc <= bound,
        decreases v.len() - i,
    {
        let c = v[i];
        assert(body[i - start] == v@[i as int]);
        if !('0' as u32 <= c as u32 && c as u32 <= '9' as u32) {
            assert(!is_digit(body[i - start]));
            assert(!all_digits(body));
            return None;
        }
        assert(body.take(i - start + 1).drop_last() =~= body.take(i - start));
        assert(body.take(i - start + 1).last() == c);
        let d = (c as u32 - '0' as u32) as i128;
        assert(acc * 10 <= 0x5_0000_0000_0000_0000) by (nonlinear_arith)
            requires
                0 <= acc <= 0x8000_0000_0000_0000,
        ;
        acc = acc * 10 + d;
        if acc > bound {
            // every further digit only grows the value
            let mut j = i + 1;
            while j < v.len()
                invariant
                    start <= i < j <= v.len(),
                    v@ == s@,
                    body == (if has_prefix(s@, "-"@) || has_prefix(s@, "+"@) {
                        s@.skip(1)
                    } else {
                        s@
                    }),
                    forall|k: int| 0 <= k < j - start ==> is_digit(#[trigger] body[k]),
                    body =~= v@.skip(start as int),
                decreases v.len() - j,
            {
                let c2 = v[j];
                assert(body[j - start] == v@[j as int]);
                if !('0' as u32 <= c2 as u32 && c2 as u32 <= '9' as u32) {
                    assert(!is_digit(body[j - start]));
                    assert(!all_digits(body));
                    return None;
                }
                j = j + 1;
            }
            proof {
                assert(all_digits(body));
                lemma_digits_grow(body, i - start + 1);
                assert(digits_value(body) > bound);
            }
            return None;
        }
        i = i + 1;
    }
    assert(body.take(i - start) =~= body);
    if neg {
        if acc > bound {
            None
        } else {
            Some((-acc) as i64)
        }
    } else {
        if acc >= bound {
            None
        } else {
            Some(acc as i64)
        }
    }
}

} // verus!
