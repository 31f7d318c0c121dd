//! Response status codes and their fixed status lines.

use vstd::prelude::*;
use vstd::string::StringSliceAdditionalSpecFns;

verus! {

/// The closed set of status codes the engine ever produces.
#[derive(Clone, Copy, PartialEq, Eq, Structural, Debug)]
pub enum StatusCode {
    BadRequest,
    Created,
    NotFound,
    Okay,
}

/// The UTF-8 bytes of the fixed status line for `code`, without the
/// trailing CRLF.
pub open spec fn spec_status_line(code: StatusCode) -> Seq<u8> {
    match code {
        StatusCode::BadRequest => ("HTTP/1.1 400 Bad Request").spec_bytes(),
        StatusCode::Created => ("HTTP/1.1 201 Created").spec_bytes(),
        StatusCode::NotFound => ("HTTP/1.1 404 Not Found").spec_bytes(),
        StatusCode::Okay => ("HTTP/1.1 200 OK").spec_bytes(),
    }
}

impl StatusCode {
    /// The status line for this code, e.g. `HTTP/1.1 200 OK`.
    pub fn text_value(&self) -> (r: &'static str)
        ensures
            r.spec_bytes() == spec_status_line(*self),
    {
        match self {
            StatusCode::BadRequest => "HTTP/1.1 400 Bad Request",
            StatusCode::Created => "HTTP/1.1 201 Created",
            StatusCode::NotFound => "HTTP/1.1 404 Not Found",
            StatusCode::Okay => "HTTP/1.1 200 OK",
        }
    }
}

} // verus!
