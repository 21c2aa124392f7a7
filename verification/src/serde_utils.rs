//! Helpers for tolerant deserialization: the number-in-a-string form some
//! APIs emit, parsed exactly.

use vstd::prelude::*;
use vstd::string::StringSliceAdditionalSpecFns;

verus! {

/// Whether `b` is an ASCII decimal digit.
pub open spec fn is_digit_byte(b: u8) -> bool {
    48 <= b <= 57
}

/// The number a big-endian sequence of decimal digit bytes denotes.
pub open spec fn dec_value(s: Seq<u8>) -> int
    decreases s.len(),
{
    if s.len() == 0 {
        0
    } else {
        dec_value(s.drop_last()) * 10 + (s.last() - 48)
    }
}

/// The digit part of a decimal literal: everything after an optional
/// leading plus sign.
pub open spec fn dec_digits(s: Seq<u8>) -> Seq<u8> {
    if s.len() >= 1 && s[0] == 43 {
        s.skip(1)
    } else {
        s
    }
}

/// A well-formed `u64` literal: an optional plus sign, then at least one
/// digit, denoting a value that fits.
pub open spec fn is_u64_literal(s: Seq<u8>) -> bool {
    &&& dec_digits(s).len() >= 1
    &&& forall|i: int|
        0 <= i < dec_digits(s).len() ==> is_digit_byte(#[trigger] dec_digits(s)[i])
    &&& dec_value(dec_digits(s)) <= u64::MAX
}

/// Digit strings denote non-negative numbers, and every prefix denotes no
/// more than the whole.
proof fn lemma_dec_value_bounds(s: Seq<u8>)
    requires
        forall|i: int| 0 <= i < s.len() ==> is_digit_byte(#[trigger] s[i]),
    ensures
        dec_value(s) >= 0,
        forall|j: int| 0 <= j <= s.len() ==> #[trigger] dec_value(s.take(j)) <= dec_value(s),
    decreases s.len(),
{
    if s.len() > 0 {
        assert(forall|i: int|
            0 <= i < s.len() - 1 ==> is_digit_byte(#[trigger] s.drop_last()[i]));
        lemma_dec_value_bounds(s.drop_last());
        assert forall|j: int| 0 <= j <= s.len()
            implies #[trigger] dec_value(s.take(j)) <= dec_value(s) by {
            if j == s.len() {
                assert(s.take(j) =~= s);
            } else {
                assert(s.take(j) =~= s.drop_last().take(j));
                assert(dec_value(s.drop_last().take(j)) <= dec_value(s.drop_last()));
            }
        }
    }
}

/// Parses a decimal `u64` the way the standard library does for unsigned
/// integers: an optional leading `+`, then one or more digits, rejecting
/// anything else and anything that does not fit.
pub fn parse_u64(s: &str) -> (r: Option<u64>)
    ensures
        match r {
            Some(n) => is_u64_literal(s.spec_bytes()) && n == dec_value(
                dec_digits(s.spec_bytes()),
            ),
            None => !is_u64_literal(s.spec_bytes()),
        },
{
    let b = s.as_bytes();
    let ghost d = dec_digits(s.spec_bytes());
    let start: usize = if b.len() >= 1 && b[0] == 43 {
        1
    } else {
        0
    };
    proof {
        assert(d =~= b@.skip(start as int));
    }
    if b.len() == start {
        return None;
    }
    let mut acc: u64 = 0;
    let mut i: usize = start;
    while i < b.len()
        invariant
            start <= i <= b@.len(),
            b@ == s.spec_bytes(),
            d == dec_digits(s.spec_bytes()),
            d == b@.skip(start as int),
            d.len() == b@.len() - start,
            forall|j: int| start <= j < i ==> is_digit_byte(#[trigger] b@[j]),
            acc == dec_value(d.take(i - start)),
        decreases b@.len() - i,
    {
        let c = b[i];
        if c < 48 || c > 57 {
            proof {
                assert(d[i - start] == b@[i as int]);
            }
            return None;
        }
        proof {
            assert(d.take(i + 1 - start).drop_last() =~= d.take(i - start));
            assert(d.take(i + 1 - start).last() == b@[i as int]);
        }
        let shifted = match acc.checked_mul(10) {
            Some(x) => x,
            None => {
                proof {
                    lemma_overflow_means_no_literal(b@, d, start as int, i as int);
                }
                return None;
            },
        };
        acc = match shifted.checked_add((c - 48) as u64) {
            Some(x) => x,
            None => {
                proof {
                    lemma_overflow_means_no_literal(b@, d, start as int, i as int);
                }
                return None;
            },
        };
        i += 1;
    }
    proof {
        assert(d.take(d.len() as int) =~= d);
        assert(forall|j: int| 0 <= j < d.len() ==> is_digit_byte(#[trigger] d[j]));
    }
    Some(acc)
}

/// If the value up to and including digit `i` already exceeds `u64::MAX`,
/// the whole literal does too — provided the scanned part is all digits.
proof fn lemma_overflow_means_no_literal(b: Seq<u8>, d: Seq<u8>, start: int, i: int)
    requires
        0 <= start <= i < b.len(),
        d == dec_digits(b),
        d == b.skip(start),
        forall|j: int| start <= j <= i ==> is_digit_byte(#[trigger] b[j]),
        dec_value(d.take(i - start)) * 10 + (b[i] - 48) > u64::MAX,
    ensures
        !is_u64_literal(b),
{
    if is_u64_literal(b) {
        assert(dec_digits(b) == d);
        lemma_dec_value_bounds(d);
        assert(d.take(i + 1 - start).drop_last() =~= d.take(i - start));
        assert(d.take(i + 1 - start).last() == b[i]);
        assert(dec_value(d.take(i + 1 - start)) > u64::MAX);
        assert(dec_value(d.take(i + 1 - start)) <= dec_value(d));
        assert(false);
    }
}

} // verus!
