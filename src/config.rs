//! The retention period, read from its textual configuration value.

use vstd::prelude::*;
use vstd::string::StringSliceAdditionalSpecFns;

verus! {

/// Retention period, in days, used when none is configured or the configured
/// value is not an integer.
pub const DEFAULT_PURGE_DAYS: i64 = 30;

/// An ASCII decimal digit.
pub open spec fn is_digit(b: u8) -> bool {
    48 <= b <= 57
}

pub open spec fn all_digits(d: Seq<u8>) -> bool {
    forall|i: int| 0 <= i < d.len() ==> is_digit(#[trigger] d[i])
}

/// The value of a run of decimal digits, most significant first.
pub open spec fn digits_value(d: Seq<u8>) -> int
    decreases d.len(),
{
    if d.len() == 0 {
        0
    } else {
        digits_value(d.drop_last()) * 10 + (d.last() - 48)
    }
}

/// Whether the text starts with a sign character.
pub open spec fn has_sign(s: Seq<u8>) -> bool {
    s.len() > 0 && (s[0] == 45 || s[0] == 43)
}

/// The digits of a decimal integer, after its optional sign.
pub open spec fn unsigned_part(s: Seq<u8>) -> Seq<u8> {
    if has_sign(s) {
        s.skip(1)
    } else {
        s
    }
}

/// The integer a text denotes: an optional `+` or `-`, then one or more
/// decimal digits, nothing else (no blanks).
pub open spec fn signed_decimal(s: Seq<u8>) -> Option<int> {
    let d = unsigned_part(s);
    if d.len() > 0 && all_digits(d) {
        if s[0] == 45 {
            Some(-digits_value(d))
        } else {
            Some(digits_value(d))
        }
    } else {
        None
    }
}

/// The text read as an `i64`: none when it is no integer or does not fit.
pub open spec fn decimal_i64(s: Seq<u8>) -> Option<i64> {
    match signed_decimal(s) {
        Some(v) => if i64::MIN <= v <= i64::MAX {
            Some(v as i64)
        } else {
            None
        },
        None => None,
    }
}

/// The retention period that a configuration value gives: the integer it
/// holds, or the default when it is absent or holds no `i64`.
pub open spec fn purge_days_spec(raw: Option<Seq<u8>>) -> i64 {
    match raw {
        Some(s) => match decimal_i64(s) {
            Some(v) => v,
            None => DEFAULT_PURGE_DAYS,
        },
        None => DEFAULT_PURGE_DAYS,
    }
}

proof fn lemma_digits_value_nonneg(d: Seq<u8>)
    requires
        all_digits(d),
    ensures
        digits_value(d) >= 0,
    decreases d.len(),
{
    if d.len() > 0 {
        lemma_digits_value_nonneg(d.drop_last());
    }
}

/// A longer prefix of a digit run never has a smaller value.
proof fn lemma_digits_value_grows(d: Seq<u8>, i: int, j: int)
    requires
        all_digits(d),
        0 <= i <= j <= d.len(),
    ensures
        digits_value(d.take(i)) <= digits_value(d.take(j)),
    decreases j - i,
{
    if i < j {
        lemma_digits_value_grows(d, i, j - 1);
        assert(d.take(j).drop_last() =~= d.take(j - 1));
        lemma_digits_value_nonneg(d.take(j - 1));
    }
}

/// Reads a decimal `i64` as `str::parse` does: an optional sign, then digits.
pub fn parse_i64(text: &str) -> (r: Option<i64>)
    ensures
        r == decimal_i64(text.spec_bytes()),
{
    let b = text.as_bytes();
    let ghost s = b@;
    let n = b.len();
    let negative = n > 0 && b[0] == 45u8;
    let start: usize = if n > 0 && (b[0] == 45u8 || b[0] == 43u8) { 1 } else { 0 };
    let ghost d = unsigned_part(s);
    assert(d =~= s.subrange(start as int, n as int));
    if start == n {
        return None;
    }
    let limit: u128 = 0x8000_0000_0000_0000;
    let mut mag: u128 = 0;
    let mut i: usize = start;
    while i < n
        invariant
            start < n,
            start <= i <= n,
            n == s.len(),
            s == text.spec_bytes(),
            d == unsigned_part(s),
            limit == 0x8000_0000_0000_0000u128,
            b@ == s,
            d =~= s.subrange(start as int, n as int),
            forall|k: int| 0 <= k < i - start ==> is_digit(#[trigger] d[k]),
            mag == digits_value(d.take(i - start)),
            mag <= limit,
        decreases n - i,
    {
        let c = b[i];
        if c < 48u8 || c > 57u8 {
            assert(d[i - start] == c);
            assert(!all_digits(d));
            return None;
        }
        proof {
            assert(d.take(i - start + 1).drop_last() =~= d.take(i - start));
        }
        assert(mag * 10 <= limit * 10);
        mag = mag * 10 + (c - 48u8) as u128;
        i = i + 1;
        if mag > limit {
            proof {
                if all_digits(d) {
                    lemma_digits_value_grows(d, i - start, d.len() as int);
                    assert(d.take(d.len() as int) =~= d);
                }
            }
            return None;
        }
    }
    proof {
        assert(d.take(i - start) =~= d);
        assert(all_digits(d));
    }
    if negative {
        Some((0 - (mag as i128)) as i64)
    } else if mag < limit {
        Some(mag as i64)
    } else {
        None
    }
}

/// The retention period for a configuration value: the integer it holds, or
/// `DEFAULT_PURGE_DAYS` when it is absent or does not parse as an `i64`.
pub fn purge_days_from(raw: Option<&str>) -> (r: i64)
    ensures
        r == purge_days_spec(
            match raw {
                Some(s) => Some(s.spec_bytes()),
                None => None,
            },
        ),
{
    match raw {
        Some(s) => match parse_i64(s) {
            Some(v) => v,
            None => DEFAULT_PURGE_DAYS,
        },
        None => DEFAULT_PURGE_DAYS,
    }
}

} // verus!
