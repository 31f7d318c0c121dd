//! Decimal digit strings: rendering a byte length for `Content-Length`
//! headers, and parsing a `Content-Length` value with the permissive
//! fall-back to zero that the request parser uses.

use vstd::prelude::*;
use crate::scan::{is_ws, spec_trim, trim_ws};

verus! {

/// An ASCII decimal digit.
pub open spec fn is_digit(b: u8) -> bool {
    48 <= b <= 57
}

/// The decimal digit string of `n`, most significant digit first, with no
/// sign and no leading zeros (a single `0` for zero).
pub open spec fn spec_dec_digits(n: nat) -> Seq<u8>
    decreases n,
{
    if n < 10 {
        seq![(48 + n) as u8]
    } else {
        spec_dec_digits(n / 10).push((48 + n % 10) as u8)
    }
}

/// The decimal digit string of `n`.
pub fn usize_to_dec(n: usize) -> (r: Vec<u8>)
    ensures
        r@ == spec_dec_digits(n as nat),
    decreases n,
{
    if n < 10 {
        let mut v: Vec<u8> = Vec::new();
        v.push(48 + n as u8);
        proof {
            assert(v@ =~= spec_dec_digits(n as nat));
        }
        v
    } else {
        proof {
            assert(n / 10 < n) by (nonlinear_arith)
                requires
                    n >= 10,
            ;
        }
        let mut v = usize_to_dec(n / 10);
        v.push(48 + (n % 10) as u8);
        v
    }
}

/// The integer a digit string denotes, most significant digit first.
pub open spec fn spec_dec_value(s: Seq<u8>) -> int
    decreases s.len(),
{
    if s.len() == 0 {
        0
    } else {
        spec_dec_value(s.drop_last()) * 10 + (s.last() - 48)
    }
}

/// Every byte of `s` is a decimal digit.
pub open spec fn all_digits(s: Seq<u8>) -> bool {
    forall|i: int| 0 <= i < s.len() ==> is_digit(s[i])
}

/// A digit string denotes a non-negative value.
pub proof fn lemma_dec_value_nonneg(s: Seq<u8>)
    requires
        all_digits(s),
    ensures
        spec_dec_value(s) >= 0,
    decreases s.len(),
{
    if s.len() > 0 {
        assert(all_digits(s.drop_last()));
        lemma_dec_value_nonneg(s.drop_last());
    }
}

/// A prefix of a digit string denotes no more than the whole string.
pub proof fn lemma_dec_value_mono(s: Seq<u8>, i: int)
    requires
        all_digits(s),
        0 <= i <= s.len(),
    ensures
        spec_dec_value(s.take(i)) <= spec_dec_value(s),
    decreases s.len(),
{
    if i == s.len() {
        assert(s.take(i) =~= s);
    } else {
        assert(all_digits(s.drop_last()));
        assert(s.drop_last().take(i) =~= s.take(i));
        lemma_dec_value_mono(s.drop_last(), i);
        lemma_dec_value_nonneg(s.drop_last());
    }
}

/// The value the request parser assigns to a raw `Content-Length` header
/// value `s`: trim ASCII whitespace, allow one leading `+`, and read the
/// digits; anything else — empty, stray bytes, or a value that does not
/// fit in `usize` — falls back to zero.
pub open spec fn spec_parse_len(s: Seq<u8>) -> int {
    let t = spec_trim(s);
    let d = if t.len() > 0 && t[0] == 43 {
        t.skip(1)
    } else {
        t
    };
    if d.len() > 0 && all_digits(d) && spec_dec_value(d) <= usize::MAX {
        spec_dec_value(d)
    } else {
        0
    }
}

/// Parse a `Content-Length` value, falling back to zero as
/// `spec_parse_len` describes.
#[verifier::loop_isolation(false)]
pub fn parse_len_or_zero(s: &[u8]) -> (r: usize)
    ensures
        r == spec_parse_len(s@),
{
    let t = trim_ws(s);
    let ts = t.as_slice();
    let d: &[u8] = if ts.len() > 0 && ts[0] == 43 {
        let dd = vstd::slice::slice_subrange(ts, 1, ts.len());
        proof {
            assert(t@.skip(1) =~= t@.subrange(1, t@.len() as int));
        }
        dd
    } else {
        ts
    };
    let ghost spec_d: Seq<u8> = if t@.len() > 0 && t@[0] == 43 {
        t@.skip(1)
    } else {
        t@
    };
    assert(d@ == spec_d);
    if d.len() == 0 {
        return 0;
    }
    let mut acc: u128 = 0;
    let mut i: usize = 0;
    while i < d.len()
        invariant
            i <= d@.len(),
            forall|j: int| 0 <= j < i ==> is_digit(d@[j]),
            acc == spec_dec_value(d@.take(i as int)),
            acc <= usize::MAX,
        decreases d@.len() - i,
    {
        let b = d[i];
        if b < 48 || b > 57 {
            assert(!is_digit(d@[i as int]));
            assert(!all_digits(d@));
            return 0;
        }
        let next: u128 = acc * 10 + (b - 48) as u128;
        proof {
            assert(d@.take(i + 1).drop_last() =~= d@.take(i as int));
            assert(d@.take(i + 1).last() == d@[i as int]);
        }
        if next > usize::MAX as u128 {
            proof {
                if all_digits(d@) {
                    lemma_dec_value_mono(d@, i + 1);
                }
            }
            return 0;
        }
        acc = next;
        i = i + 1;
    }
    proof {
        assert(d@.take(d@.len() as int) =~= d@);
    }
    acc as usize
}

} // verus!
