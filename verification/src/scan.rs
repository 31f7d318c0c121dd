//! Byte-level scanning primitives: whitespace, prefix tests, line endings,
//! token splitting and trimming.
//!
//! Each executable scanner is specified against a recursive spec function,
//! so the higher request-parsing layers can state their contracts over a
//! single mathematical model of the raw bytes.

use vstd::prelude::*;

verus! {

/// ASCII whitespace as the request-line tokenizer and value trimming
/// understand it: space, tab, carriage return, line feed.
pub open spec fn is_ws(b: u8) -> bool {
    b == 32 || b == 9 || b == 13 || b == 10
}

/// The whitespace predicate as a first-class spec function.
pub open spec fn ws_pred() -> spec_fn(u8) -> bool {
    |b: u8| is_ws(b)
}

/// Predicate selecting the comma separator of header value lists.
pub open spec fn comma_pred() -> spec_fn(u8) -> bool {
    |b: u8| b == 44
}

/// Index of the first byte of `s` that satisfies `p`, if any.
pub open spec fn spec_find(s: Seq<u8>, p: spec_fn(u8) -> bool) -> Option<int>
    decreases s.len(),
{
    if s.len() == 0 {
        None
    } else if p(s[0]) {
        Some(0int)
    } else {
        match spec_find(s.skip(1), p) {
            Some(i) => Some(i + 1),
            None => None,
        }
    }
}

/// `spec_find` returns the least index satisfying `p`, or `None` when no
/// byte satisfies it.
pub proof fn lemma_spec_find(s: Seq<u8>, p: spec_fn(u8) -> bool)
    ensures
        match spec_find(s, p) {
            Some(i) => 0 <= i < s.len() && p(s[i]) && (forall|j: int|
                0 <= j < i ==> !p(s[j])),
            None => forall|j: int| 0 <= j < s.len() ==> !p(s[j]),
        },
    decreases s.len(),
{
    if s.len() == 0 {
    } else if p(s[0]) {
    } else {
        lemma_spec_find(s.skip(1), p);
        assert forall|j: int| 1 <= j < s.len() implies s.skip(1)[j - 1] == s[j] by {}
    }
}

/// When byte `i` satisfies `p` and no earlier byte does, `i` is what
/// `spec_find` returns.
pub proof fn lemma_find_unique(s: Seq<u8>, p: spec_fn(u8) -> bool, i: int)
    requires
        0 <= i < s.len(),
        p(s[i]),
        forall|j: int| 0 <= j < i ==> !p(s[j]),
    ensures
        spec_find(s, p) == Some(i),
{
    lemma_spec_find(s, p);
    match spec_find(s, p) {
        Some(k) => {
            if k < i {
                assert(!p(s[k]));
            } else if k > i {
                assert(!p(s[i]));
            }
        },
        None => {
            assert(!p(s[i]));
        },
    }
}

/// True when a CRLF pair stands at position `i` of `s`.
pub open spec fn crlf_at(s: Seq<u8>, i: int) -> bool {
    0 <= i && i + 2 <= s.len() && s[i] == 13 && s[i + 1] == 10
}

/// The position of the first CRLF pair in `s`, if any.
pub open spec fn spec_find_crlf(s: Seq<u8>) -> Option<int>
    decreases s.len(),
{
    if s.len() < 2 {
        None
    } else if s[0] == 13 && s[1] == 10 {
        Some(0int)
    } else {
        match spec_find_crlf(s.skip(1)) {
            Some(i) => Some(i + 1),
            None => None,
        }
    }
}

/// `spec_find_crlf` returns the least position of a CRLF pair, or `None`
/// when `s` holds no CRLF pair at all.
pub proof fn lemma_spec_find_crlf(s: Seq<u8>)
    ensures
        match spec_find_crlf(s) {
            Some(i) => crlf_at(s, i) && (forall|j: int| 0 <= j < i ==> !crlf_at(s, j)),
            None => forall|j: int| !crlf_at(s, j),
        },
    decreases s.len(),
{
    if s.len() < 2 {
    } else if s[0] == 13 && s[1] == 10 {
    } else {
        lemma_spec_find_crlf(s.skip(1));
        assert forall|j: int| #[trigger] crlf_at(s.skip(1), j - 1) == crlf_at(s, j) by {
            if 1 <= j && j + 2 <= s.len() {
                assert(s.skip(1)[j - 1] == s[j]);
                assert(s.skip(1)[j] == s[j + 1]);
            }
        }
        assert(!crlf_at(s, 0));
        assert forall|j: int| #[trigger] crlf_at(s, j) implies crlf_at(s.skip(1), j - 1) by {}
    }
}

/// When a CRLF pair stands at `i` and none stands before it, `i` is what
/// `spec_find_crlf` returns.
proof fn lemma_crlf_unique(s: Seq<u8>, i: int)
    requires
        crlf_at(s, i),
        forall|j: int| 0 <= j < i ==> !crlf_at(s, j),
    ensures
        spec_find_crlf(s) == Some(i),
{
    lemma_spec_find_crlf(s);
    match spec_find_crlf(s) {
        Some(k) => {
            if k < i {
                assert(!crlf_at(s, k));
            } else if k > i {
                assert(!crlf_at(s, i));
            }
        },
        None => {
            assert(!crlf_at(s, i));
        },
    }
}

/// Position of the first CRLF pair in `s`, if any.
pub fn find_crlf(s: &[u8]) -> (r: Option<usize>)
    ensures
        match r {
            Some(i) => spec_find_crlf(s@) == Some(i as int),
            None => spec_find_crlf(s@) == None::<int>,
        },
{
    proof {
        lemma_spec_find_crlf(s@);
    }
    let n = s.len();
    if n < 2 {
        return None;
    }
    let mut i: usize = 0;
    while i <= n - 2
        invariant
            n == s@.len(),
            2 <= n,
            i <= n - 1,
            forall|j: int| 0 <= j < i ==> !crlf_at(s@, j),
        decreases n - i,
    {
        if s[i] == 13 && s[i + 1] == 10 {
            proof {
                lemma_crlf_unique(s@, i as int);
            }
            return Some(i);
        }
        i = i + 1;
    }
    proof {
        lemma_spec_find_crlf(s@);
        match spec_find_crlf(s@) {
            Some(k) => {
                assert(!crlf_at(s@, k));
            },
            None => {},
        }
    }
    None
}

/// True when `p` is a prefix of `s`, byte for byte.
pub fn starts_with(s: &[u8], p: &[u8]) -> (r: bool)
    ensures
        r == p@.is_prefix_of(s@),
{
    if p.len() > s.len() {
        return false;
    }
    let mut i: usize = 0;
    while i < p.len()
        invariant
            p@.len() <= s@.len(),
            i <= p@.len(),
            forall|j: int| 0 <= j < i ==> s@[j] == p@[j],
        decreases p@.len() - i,
    {
        if s[i] != p[i] {
            assert(!p@.is_prefix_of(s@));
            return false;
        }
        i = i + 1;
    }
    assert(p@ =~= s@.take(p@.len() as int));
    true
}

/// True when the two byte strings are equal.
pub fn bytes_eq(a: &[u8], b: &[u8]) -> (r: bool)
    ensures
        r == (a@ == b@),
{
    if a.len() != b.len() {
        return false;
    }
    let mut i: usize = 0;
    while i < a.len()
        invariant
            a@.len() == b@.len(),
            i <= a@.len(),
            forall|j: int| 0 <= j < i ==> a@[j] == b@[j],
        decreases a@.len() - i,
    {
        if a[i] != b[i] {
            return false;
        }
        i = i + 1;
    }
    proof {
        assert(a@ =~= b@);
    }
    true
}

/// ASCII lower-casing of one byte: `A`..`Z` map to `a`..`z`, all other
/// bytes stay as they are.
pub open spec fn to_lower(b: u8) -> u8 {
    if 65 <= b <= 90 {
        (b + 32) as u8
    } else {
        b
    }
}

/// True when `s` begins with `p` up to ASCII case, where `p` itself is
/// taken literally.
pub open spec fn ci_prefix_of(p: Seq<u8>, s: Seq<u8>) -> bool {
    p.is_prefix_of(s.map_values(|b: u8| to_lower(b)))
}

/// Case-insensitive prefix test: `p` (given in lower case) against `s`.
pub fn ci_starts_with(s: &[u8], p: &[u8]) -> (r: bool)
    ensures
        r == ci_prefix_of(p@, s@),
{
    let ghost lowered = s@.map_values(|b: u8| to_lower(b));
    assert(lowered.len() == s@.len());
    if p.len() > s.len() {
        return false;
    }
    let mut i: usize = 0;
    while i < p.len()
        invariant
            lowered == s@.map_values(|b: u8| to_lower(b)),
            lowered.len() == s@.len(),
            p@.len() <= s@.len(),
            i <= p@.len(),
            forall|j: int| 0 <= j < i ==> lowered[j] == p@[j],
        decreases p@.len() - i,
    {
        let c = s[i];
        let folded: u8 = if 65 <= c && c <= 90 {
            c + 32
        } else {
            c
        };
        assert(folded == lowered[i as int]);
        if folded != p[i] {
            assert(!p@.is_prefix_of(lowered));
            return false;
        }
        i = i + 1;
    }
    assert(p@ =~= lowered.take(p@.len() as int));
    true
}

/// `s` with leading ASCII whitespace removed.
pub open spec fn spec_trim_start(s: Seq<u8>) -> Seq<u8>
    decreases s.len(),
{
    if s.len() > 0 && is_ws(s[0]) {
        spec_trim_start(s.skip(1))
    } else {
        s
    }
}

/// `s` with trailing ASCII whitespace removed.
pub open spec fn spec_trim_end(s: Seq<u8>) -> Seq<u8>
    decreases s.len(),
{
    if s.len() > 0 && is_ws(s[s.len() - 1]) {
        spec_trim_end(s.drop_last())
    } else {
        s
    }
}

/// `s` with whitespace removed from both ends.
pub open spec fn spec_trim(s: Seq<u8>) -> Seq<u8> {
    spec_trim_end(spec_trim_start(s))
}

/// When the first `a` bytes are whitespace and byte `a` (if present) is
/// not, trimming the start drops exactly those `a` bytes.
proof fn lemma_trim_start_at(s: Seq<u8>, a: int)
    requires
        0 <= a <= s.len(),
        forall|j: int| 0 <= j < a ==> is_ws(s[j]),
        a < s.len() ==> !is_ws(s[a]),
    ensures
        spec_trim_start(s) == s.skip(a),
    decreases a,
{
    if a == 0 {
        assert(s.skip(0) =~= s);
    } else {
        lemma_trim_start_at(s.skip(1), a - 1);
        assert(s.skip(1).skip(a - 1) =~= s.skip(a));
    }
}

/// When the bytes from `b` on are whitespace and byte `b - 1` (if present)
/// is not, trimming the end keeps exactly the first `b` bytes.
proof fn lemma_trim_end_at(s: Seq<u8>, b: int)
    requires
        0 <= b <= s.len(),
        forall|j: int| b <= j < s.len() ==> is_ws(s[j]),
        b > 0 ==> !is_ws(s[b - 1]),
    ensures
        spec_trim_end(s) == s.take(b),
    decreases s.len() - b,
{
    if b == s.len() {
        assert(s.take(b) =~= s);
    } else {
        lemma_trim_end_at(s.drop_last(), b);
        assert(s.drop_last().take(b) =~= s.take(b));
    }
}

/// The bytes of `s` with ASCII whitespace removed from both ends.
pub fn trim_ws(s: &[u8]) -> (r: Vec<u8>)
    ensures
        r@ == spec_trim(s@),
{
    let n = s.len();
    let mut a: usize = 0;
    while a < n && (s[a] == 32 || s[a] == 9 || s[a] == 13 || s[a] == 10)
        invariant
            n == s@.len(),
            a <= n,
            forall|j: int| 0 <= j < a ==> is_ws(s@[j]),
        decreases n - a,
    {
        a = a + 1;
    }
    proof {
        lemma_trim_start_at(s@, a as int);
    }
    let mut b: usize = n;
    while b > a && (s[b - 1] == 32 || s[b - 1] == 9 || s[b - 1] == 13 || s[b - 1] == 10)
        invariant
            n == s@.len(),
            a <= b <= n,
            forall|j: int| b <= j < n ==> is_ws(s@[j]),
        decreases b,
    {
        b = b - 1;
    }
    let ghost st = s@.skip(a as int);
    proof {
        assert(forall|j: int| 0 <= j < st.len() ==> st[j] == s@[j + a]);
        lemma_trim_end_at(st, b - a);
    }
    let r = vstd::slice::slice_to_vec(vstd::slice::slice_subrange(s, a, b));
    proof {
        assert(st.take(b - a) =~= s@.subrange(a as int, b as int));
    }
    r
}

/// The whitespace-separated tokens of `s`, in order.
pub open spec fn spec_tokens(s: Seq<u8>) -> Seq<Seq<u8>>
    decreases s.len(),
    via spec_tokens_decreases
{
    if s.len() == 0 {
        Seq::empty()
    } else if is_ws(s[0]) {
        spec_tokens(s.skip(1))
    } else {
        let end = match spec_find(s, ws_pred()) {
            Some(i) => i,
            None => s.len() as int,
        };
        seq![s.take(end)] + spec_tokens(s.skip(end))
    }
}

#[via_fn]
proof fn spec_tokens_decreases(s: Seq<u8>) {
    if s.len() > 0 && !is_ws(s[0]) {
        lemma_spec_find(s, ws_pred());
    }
}

/// The whitespace-separated tokens of `s`, each as its own vector.
pub fn split_tokens(s: &[u8]) -> (r: Vec<Vec<u8>>)
    ensures
        r@.map_values(|t: Vec<u8>| t@) == spec_tokens(s@),
{
    let n = s.len();
    let mut out: Vec<Vec<u8>> = Vec::new();
    let mut pos: usize = 0;
    proof {
        assert(s@.skip(0) =~= s@);
        assert(out@.map_values(|t: Vec<u8>| t@) =~= Seq::<Seq<u8>>::empty());
        assert(Seq::<Seq<u8>>::empty() + spec_tokens(s@) =~= spec_tokens(s@));
    }
    while pos < n
        invariant
            n == s@.len(),
            pos <= n,
            spec_tokens(s@) == out@.map_values(|t: Vec<u8>| t@) + spec_tokens(s@.skip(pos as int)),
        decreases n - pos,
    {
        if s[pos] == 32 || s[pos] == 9 || s[pos] == 13 || s[pos] == 10 {
            proof {
                assert(s@.skip(pos as int).skip(1) =~= s@.skip(pos + 1));
            }
            pos = pos + 1;
        } else {
            let mut end: usize = pos;
            while end < n && !(s[end] == 32 || s[end] == 9 || s[end] == 13 || s[end] == 10)
                invariant
                    n == s@.len(),
                    pos <= end <= n,
                    forall|j: int| pos <= j < end ==> !is_ws(s@[j]),
                decreases n - end,
            {
                end = end + 1;
            }
            let token = vstd::slice::slice_to_vec(vstd::slice::slice_subrange(s, pos, end));
            proof {
                let rest = s@.skip(pos as int);
                lemma_spec_find(rest, ws_pred());
                assert(forall|j: int| 0 <= j < rest.len() ==> rest[j] == s@[j + pos]);
                let found = spec_find(rest, ws_pred());
                if end < n {
                    assert(is_ws(rest[end - pos]));
                    match found {
                        Some(i) => {
                            assert(!is_ws(rest[i]) ==> false);
                            assert(i == end - pos);
                        },
                        None => {
                            assert(false);
                        },
                    }
                } else {
                    match found {
                        Some(i) => {
                            assert(is_ws(rest[i]));
                            assert(false);
                        },
                        None => {},
                    }
                }
                assert(rest.take(end - pos) =~= s@.subrange(pos as int, end as int));
                assert(rest.skip(end - pos) =~= s@.skip(end as int));
                let mapped = out@.map_values(|t: Vec<u8>| t@);
                assert((out@ + seq![token]).map_values(|t: Vec<u8>| t@) =~= mapped + seq![token@]);
                assert(mapped + (seq![rest.take(end - pos)] + spec_tokens(s@.skip(end as int)))
                    =~= (mapped + seq![token@]) + spec_tokens(s@.skip(end as int)));
            }
            out.push(token);
            pos = end;
        }
    }
    proof {
        assert(s@.skip(n as int) =~= Seq::<u8>::empty());
        assert(out@.map_values(|t: Vec<u8>| t@) + Seq::<Seq<u8>>::empty() =~= out@.map_values(
            |t: Vec<u8>| t@,
        ));
    }
    out
}

} // verus!
