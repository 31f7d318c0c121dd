//! Scanning the raw header block: looking up a header line by prefix,
//! reading the `Content-Length`, and splitting an `Accept-Encoding` value
//! into its comma-separated, whitespace-trimmed entries.
//!
//! The header block is the raw bytes of the request's header lines, each
//! line still carrying its CRLF terminator, exactly as they came off the
//! connection.

use vstd::prelude::*;
use vstd::string::StringSliceAdditionalSpecFns;
use crate::digits::{parse_len_or_zero, spec_parse_len};
use crate::scan::{
    ci_prefix_of, ci_starts_with, comma_pred, find_crlf, lemma_find_unique, lemma_spec_find,
    lemma_spec_find_crlf, spec_find, spec_find_crlf, spec_trim, starts_with, trim_ws,
};

verus! {

/// Whether `line` begins with `prefix`: literally, or up to ASCII case
/// when `ci` is set (the prefix itself is then given in lower case).
pub open spec fn spec_line_match(line: Seq<u8>, prefix: Seq<u8>, ci: bool) -> bool {
    if ci {
        ci_prefix_of(prefix, line)
    } else {
        prefix.is_prefix_of(line)
    }
}

/// The bytes after `prefix` on the first header line of `h` that begins
/// with `prefix`, or `None` when no line does.  The final segment without
/// a CRLF terminator counts as a line, as the reader may have stopped at
/// end of stream.
pub open spec fn spec_header_value(h: Seq<u8>, prefix: Seq<u8>, ci: bool) -> Option<Seq<u8>>
    decreases h.len(),
    via spec_header_value_decreases
{
    match spec_find_crlf(h) {
        Some(i) => if spec_line_match(h.take(i), prefix, ci) {
            Some(h.take(i).skip(prefix.len() as int))
        } else {
            spec_header_value(h.skip(i + 2), prefix, ci)
        },
        None => if spec_line_match(h, prefix, ci) {
            Some(h.skip(prefix.len() as int))
        } else {
            None
        },
    }
}

#[via_fn]
proof fn spec_header_value_decreases(h: Seq<u8>, prefix: Seq<u8>, ci: bool) {
    lemma_spec_find_crlf(h);
}

/// Find the value of the first header line beginning with `prefix`,
/// matched literally or (with `ci`) up to ASCII case.
#[verifier::loop_isolation(false)]
pub fn find_header_value(h: &[u8], prefix: &[u8], ci: bool) -> (r: Option<Vec<u8>>)
    ensures
        match r {
            Some(v) => spec_header_value(h@, prefix@, ci) == Some(v@),
            None => spec_header_value(h@, prefix@, ci) == None::<Seq<u8>>,
        },
{
    let n = h.len();
    let mut pos: usize = 0;
    proof {
        assert(h@.skip(0) =~= h@);
    }
    loop
        invariant
            pos <= n,
            spec_header_value(h@, prefix@, ci) == spec_header_value(
                h@.skip(pos as int),
                prefix@,
                ci,
            ),
        decreases n - pos,
    {
        let sub = vstd::slice::slice_subrange(h, pos, n);
        proof {
            assert(sub@ =~= h@.skip(pos as int));
        }
        match find_crlf(sub) {
            Some(i) => {
                proof {
                    lemma_spec_find_crlf(sub@);
                }
                let line = vstd::slice::slice_subrange(sub, 0, i);
                proof {
                    assert(line@ =~= sub@.take(i as int));
                }
                let matched = if ci {
                    ci_starts_with(line, prefix)
                } else {
                    starts_with(line, prefix)
                };
                if matched {
                    proof {
                        if ci {
                            assert(prefix@.len() <= line@.map_values(
                                |b: u8| crate::scan::to_lower(b),
                            ).len());
                        }
                    }
                    let v = vstd::slice::slice_to_vec(
                        vstd::slice::slice_subrange(sub, prefix.len(), i),
                    );
                    proof {
                        assert(sub@.take(i as int).skip(prefix@.len() as int) =~= sub@.subrange(
                            prefix@.len() as int,
                            i as int,
                        ));
                    }
                    return Some(v);
                } else {
                    proof {
                        assert(h@.skip(pos as int).skip(i + 2) =~= h@.skip(pos + i + 2));
                    }
                    pos = pos + i + 2;
                }
            },
            None => {
                let matched = if ci {
                    ci_starts_with(sub, prefix)
                } else {
                    starts_with(sub, prefix)
                };
                if matched {
                    proof {
                        if ci {
                            assert(prefix@.len() <= sub@.map_values(
                                |b: u8| crate::scan::to_lower(b),
                            ).len());
                        }
                    }
                    let v = vstd::slice::slice_to_vec(
                        vstd::slice::slice_subrange(sub, prefix.len(), sub.len()),
                    );
                    proof {
                        assert(sub@.skip(prefix@.len() as int) =~= sub@.subrange(
                            prefix@.len() as int,
                            sub@.len() as int,
                        ));
                    }
                    return Some(v);
                } else {
                    return None;
                }
            },
        }
    }
}

/// The body length the header block announces: the parsed value of the
/// first `content-length:` line (matched up to ASCII case), zero when the
/// line is absent or its value does not parse.
pub open spec fn spec_content_length(h: Seq<u8>) -> int {
    match spec_header_value(h, ("content-length:").spec_bytes(), true) {
        Some(v) => spec_parse_len(v),
        None => 0,
    }
}

/// Read the announced body length out of the raw header block.
pub fn content_length_of(header: &[u8]) -> (r: usize)
    ensures
        r == spec_content_length(header@),
{
    match find_header_value(header, "content-length:".as_bytes(), true) {
        Some(v) => parse_len_or_zero(v.as_slice()),
        None => 0,
    }
}

/// The comma-separated entries of a header value, each trimmed of ASCII
/// whitespace.  An empty value yields one empty entry.
pub open spec fn spec_csv(s: Seq<u8>) -> Seq<Seq<u8>>
    decreases s.len(),
    via spec_csv_decreases
{
    match spec_find(s, comma_pred()) {
        Some(i) => seq![spec_trim(s.take(i))] + spec_csv(s.skip(i + 1)),
        None => seq![spec_trim(s)],
    }
}

#[via_fn]
proof fn spec_csv_decreases(s: Seq<u8>) {
    lemma_spec_find(s, comma_pred());
}

/// Position of the first comma in `s`, if any.
fn find_comma(s: &[u8]) -> (r: Option<usize>)
    ensures
        match r {
            Some(i) => spec_find(s@, comma_pred()) == Some(i as int),
            None => spec_find(s@, comma_pred()) == None::<int>,
        },
{
    let mut i: usize = 0;
    while i < s.len()
        invariant
            i <= s@.len(),
            forall|j: int| 0 <= j < i ==> s@[j] != 44,
        decreases s@.len() - i,
    {
        if s[i] == 44 {
            proof {
                assert(comma_pred()(s@[i as int]));
                lemma_find_unique(s@, comma_pred(), i as int);
            }
            return Some(i);
        }
        i = i + 1;
    }
    proof {
        lemma_spec_find(s@, comma_pred());
        match spec_find(s@, comma_pred()) {
            Some(k) => {
                assert(comma_pred()(s@[k]));
                assert(false);
            },
            None => {},
        }
    }
    None
}

/// Split a header value on commas and trim each entry.
#[verifier::loop_isolation(false)]
pub fn split_commas(v: &[u8]) -> (r: Vec<Vec<u8>>)
    ensures
        r@.map_values(|t: Vec<u8>| t@) == spec_csv(v@),
{
    let n = v.len();
    let mut out: Vec<Vec<u8>> = Vec::new();
    let mut pos: usize = 0;
    proof {
        assert(v@.skip(0) =~= v@);
        assert(out@.map_values(|t: Vec<u8>| t@) =~= Seq::<Seq<u8>>::empty());
        assert(Seq::<Seq<u8>>::empty() + spec_csv(v@) =~= spec_csv(v@));
    }
    loop
        invariant
            pos <= n,
            spec_csv(v@) == out@.map_values(|t: Vec<u8>| t@) + spec_csv(v@.skip(pos as int)),
        decreases n - pos,
    {
        let sub = vstd::slice::slice_subrange(v, pos, n);
        proof {
            assert(sub@ =~= v@.skip(pos as int));
        }
        match find_comma(sub) {
            Some(i) => {
                proof {
                    lemma_spec_find(sub@, comma_pred());
                }
                let piece = trim_ws(vstd::slice::slice_subrange(sub, 0, i));
                proof {
                    assert(sub@.subrange(0, i as int) =~= sub@.take(i as int));
                    assert(sub@.skip(i + 1) =~= v@.skip(pos + i + 1));
                    let mapped = out@.map_values(|t: Vec<u8>| t@);
                    assert((out@ + seq![piece]).map_values(|t: Vec<u8>| t@) =~= mapped + seq![
                        piece@,
                    ]);
                    assert(mapped + (seq![spec_trim(sub@.take(i as int))] + spec_csv(
                        sub@.skip(i + 1),
                    )) =~= (mapped + seq![piece@]) + spec_csv(v@.skip(pos + i + 1)));
                }
                out.push(piece);
                pos = pos + i + 1;
            },
            None => {
                let piece = trim_ws(sub);
                proof {
                    let mapped = out@.map_values(|t: Vec<u8>| t@);
                    assert((out@ + seq![piece]).map_values(|t: Vec<u8>| t@) =~= mapped + seq![
                        piece@,
                    ]);
                    assert(mapped + seq![piece@] =~= spec_csv(v@));
                }
                out.push(piece);
                return out;
            },
        }
    }
}

/// The trimmed entries of the first `Accept-Encoding` line of `h`, or
/// `None` when the header is absent.
pub open spec fn spec_accepts_encoding(h: Seq<u8>) -> Option<Seq<Seq<u8>>> {
    match spec_header_value(h, ("Accept-Encoding: ").spec_bytes(), false) {
        Some(v) => Some(spec_csv(v)),
        None => None,
    }
}

/// The encodings the client offers, read from the first `Accept-Encoding`
/// line: comma-separated, each trimmed.  `None` when the header is absent.
pub fn accepts_encoding(header: &[u8]) -> (r: Option<Vec<Vec<u8>>>)
    ensures
        match r {
            Some(encs) => spec_accepts_encoding(header@) == Some(
                encs@.map_values(|t: Vec<u8>| t@),
            ),
            None => spec_accepts_encoding(header@) == None::<Seq<Seq<u8>>>,
        },
{
    match find_header_value(header, "Accept-Encoding: ".as_bytes(), false) {
        Some(v) => Some(split_commas(v.as_slice())),
        None => None,
    }
}

} // verus!
