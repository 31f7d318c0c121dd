//! Serializing a response: status line, fixed-order headers, raw body.
//!
//! The wire format is fixed: `<status line>\r\n`, then — only when the body
//! is non-empty — `Content-Encoding` (only when an encoding was set),
//! `Content-Type`, `Content-Length`, a blank line, and the body bytes
//! appended raw.  An empty body yields the bare status line and a blank
//! line with no headers at all.

use vstd::prelude::*;
use vstd::string::StringSliceAdditionalSpecFns;
use crate::digits::{spec_dec_digits, usize_to_dec};
use crate::status::{spec_status_line, StatusCode};

verus! {

/// The CRLF line terminator.
pub open spec fn crlf() -> Seq<u8> {
    seq![13u8, 10u8]
}

/// The exact bytes written to the socket for a response with the given
/// status, `Content-Type` value, `Content-Encoding` value (empty meaning
/// none), and body.
pub open spec fn spec_response_bytes(
    status: StatusCode,
    ctype: Seq<u8>,
    cenc: Seq<u8>,
    body: Seq<u8>,
) -> Seq<u8> {
    if body.len() == 0 {
        spec_status_line(status) + crlf() + crlf()
    } else if cenc.len() > 0 {
        spec_status_line(status) + crlf() + ("Content-Encoding: ").spec_bytes() + cenc + crlf()
            + ("Content-Type: ").spec_bytes() + ctype + crlf() + ("Content-Length: ").spec_bytes()
            + spec_dec_digits(body.len()) + crlf() + crlf() + body
    } else {
        spec_status_line(status) + crlf() + ("Content-Type: ").spec_bytes() + ctype + crlf()
            + ("Content-Length: ").spec_bytes() + spec_dec_digits(body.len()) + crlf() + crlf()
            + body
    }
}

/// Build the response bytes for one status, content type, content
/// encoding (empty meaning none) and body.
pub fn structure_response(
    status: StatusCode,
    content_type: &[u8],
    content_encoding: &[u8],
    response: &[u8],
) -> (r: Vec<u8>)
    ensures
        r@ == spec_response_bytes(status, content_type@, content_encoding@, response@),
{
    let mut out: Vec<u8> = Vec::new();
    out.extend_from_slice(status.text_value().as_bytes());
    out.push(13);
    out.push(10);
    if response.len() == 0 {
        out.push(13);
        out.push(10);
        proof {
            assert(out@ =~= spec_response_bytes(
                status,
                content_type@,
                content_encoding@,
                response@,
            ));
        }
        return out;
    }
    if content_encoding.len() > 0 {
        out.extend_from_slice("Content-Encoding: ".as_bytes());
        out.extend_from_slice(content_encoding);
        out.push(13);
        out.push(10);
    }
    out.extend_from_slice("Content-Type: ".as_bytes());
    out.extend_from_slice(content_type);
    out.push(13);
    out.push(10);
    out.extend_from_slice("Content-Length: ".as_bytes());
    let mut len_digits = usize_to_dec(response.len());
    out.append(&mut len_digits);
    out.push(13);
    out.push(10);
    out.push(13);
    out.push(10);
    out.extend_from_slice(response);
    proof {
        assert(out@ =~= spec_response_bytes(status, content_type@, content_encoding@, response@));
    }
    out
}

} // verus!
