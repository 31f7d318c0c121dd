//! The request engine: one request in, one outcome out.
//!
//! `process_request` inspects the raw header block and body and either
//! produces the finished response bytes, or asks the caller to perform
//! the one filesystem step a file route needs.  The caller then feeds the
//! outcome of that step to `read_file_response` or `write_file_response`
//! to obtain the response bytes.  Every outcome is pinned, byte for byte,
//! by `spec_process`.

use vstd::prelude::*;
use vstd::string::StringSliceAdditionalSpecFns;
use crate::gzip::{gzip_compress, gzip_of};
use crate::headers::{accepts_encoding, find_header_value, spec_accepts_encoding, spec_header_value};
use crate::response::{spec_response_bytes, structure_response};
use crate::route::{parse_route, sanitise_filename, spec_route, Route, RouteModel};
use crate::scan::{bytes_eq, find_crlf, spec_find_crlf, spec_tokens, split_tokens};
use crate::status::StatusCode;

verus! {

/// One parsed request: the raw header lines (each still ending in CRLF)
/// and the length-delimited body.
pub struct HttpRequest {
    pub header: Vec<u8>,
    pub body: Vec<u8>,
}

/// What processing one request asks of the caller: write these response
/// bytes, or first read or create a file at the resolved path.
pub enum Outcome {
    /// The finished response bytes.
    Response(Vec<u8>),
    /// Read the file at this path, then build the response with
    /// `read_file_response`.
    ReadFile(Vec<u8>),
    /// Write this content to the file at this path, then build the
    /// response with `write_file_response`.
    WriteFile(Vec<u8>, Vec<u8>),
}

/// The spec-level shape of an `Outcome`.
pub enum OutcomeModel {
    Response(Seq<u8>),
    ReadFile(Seq<u8>),
    WriteFile(Seq<u8>, Seq<u8>),
}

impl View for Outcome {
    type V = OutcomeModel;

    open spec fn view(&self) -> OutcomeModel {
        match *self {
            Outcome::Response(ref b) => OutcomeModel::Response(b@),
            Outcome::ReadFile(ref p) => OutcomeModel::ReadFile(p@),
            Outcome::WriteFile(ref p, ref c) => OutcomeModel::WriteFile(p@, c@),
        }
    }
}

/// The first header line: everything before the first CRLF, or the whole
/// block when no CRLF is present.
pub open spec fn spec_first_line(h: Seq<u8>) -> Seq<u8> {
    match spec_find_crlf(h) {
        Some(i) => h.take(i),
        None => h,
    }
}

/// The fixed diagnostic response for a request line with fewer than three
/// whitespace-separated tokens.
pub open spec fn spec_malformed_response() -> Seq<u8> {
    spec_response_bytes(
        StatusCode::NotFound,
        ("text/plain").spec_bytes(),
        Seq::<u8>::empty(),
        ("Malformed Request Line in HTTP_Request!").spec_bytes(),
    )
}

/// The outcome of processing one request, as a function of the raw header
/// block, the body, and the configured root directory.
///
/// When `Accept-Encoding` is present but names no supported scheme, the
/// engine keeps the legacy behaviour of answering 200 with a plain-text
/// notice rather than falling back to the uncompressed payload.
pub open spec fn spec_process(header: Seq<u8>, body: Seq<u8>, directory: Seq<u8>) -> OutcomeModel {
    let toks = spec_tokens(spec_first_line(header));
    let tp = ("text/plain").spec_bytes();
    let none = Seq::<u8>::empty();
    if toks.len() < 3 {
        OutcomeModel::Response(spec_malformed_response())
    } else {
        match spec_route(toks[0], toks[1]) {
            RouteModel::Index => OutcomeModel::Response(
                spec_response_bytes(
                    StatusCode::Okay,
                    tp,
                    none,
                    ("Welcome to Neel's HTTP Server Project, built with Rust!").spec_bytes(),
                ),
            ),
            RouteModel::Echo(payload) => match spec_accepts_encoding(header) {
                Some(encodings) => if encodings.contains(("gzip").spec_bytes()) {
                    OutcomeModel::Response(
                        spec_response_bytes(
                            StatusCode::Okay,
                            tp,
                            ("gzip").spec_bytes(),
                            gzip_of(payload),
                        ),
                    )
                } else {
                    OutcomeModel::Response(
                        spec_response_bytes(
                            StatusCode::Okay,
                            tp,
                            none,
                            ("Invalid Encoding / Encoding Not supported by server!").spec_bytes(),
                        ),
                    )
                },
                None => OutcomeModel::Response(
                    spec_response_bytes(StatusCode::Okay, tp, none, payload),
                ),
            },
            RouteModel::UserAgent => match spec_header_value(
                header,
                ("User-Agent: ").spec_bytes(),
                false,
            ) {
                Some(agent) => OutcomeModel::Response(
                    spec_response_bytes(StatusCode::Okay, tp, none, agent),
                ),
                None => OutcomeModel::Response(
                    spec_response_bytes(
                        StatusCode::BadRequest,
                        tp,
                        none,
                        ("User Agent Not Found!").spec_bytes(),
                    ),
                ),
            },
            RouteModel::ReadFile(name) => OutcomeModel::ReadFile(directory + name),
            RouteModel::PostCreateFile(name) => if body.len() == 0 {
                OutcomeModel::Response(
                    spec_response_bytes(
                        StatusCode::BadRequest,
                        tp,
                        none,
                        ("CreateFile API failure due to HTTP Body not present:!").spec_bytes(),
                    ),
                )
            } else {
                OutcomeModel::WriteFile(directory + name, body)
            },
            RouteModel::NotFound => OutcomeModel::Response(
                spec_response_bytes(
                    StatusCode::NotFound,
                    tp,
                    none,
                    ("Page NOT found!").spec_bytes(),
                ),
            ),
        }
    }
}

/// True when some entry of `list` is exactly `needle`.
fn contains_bytes(list: &Vec<Vec<u8>>, needle: &[u8]) -> (r: bool)
    ensures
        r == list@.map_values(|t: Vec<u8>| t@).contains(needle@),
{
    let ghost mapped = list@.map_values(|t: Vec<u8>| t@);
    let mut i: usize = 0;
    while i < list.len()
        invariant
            mapped == list@.map_values(|t: Vec<u8>| t@),
            i <= list@.len(),
            forall|j: int| 0 <= j < i ==> mapped[j] != needle@,
        decreases list@.len() - i,
    {
        if bytes_eq(list[i].as_slice(), needle) {
            proof {
                assert(mapped[i as int] == needle@);
            }
            return true;
        }
        i = i + 1;
    }
    proof {
        if mapped.contains(needle@) {
            let k = choose|k: int| 0 <= k < mapped.len() && mapped[k] == needle@;
            assert(mapped[k] != needle@);
        }
    }
    false
}

/// Process one request against the fixed dispatch table, producing
/// response bytes or the file step the route calls for.
pub fn process_request(request: &HttpRequest, directory: &[u8]) -> (r: Outcome)
    ensures
        r@ == spec_process(request.header@, request.body@, directory@),
{
    let header = request.header.as_slice();
    let empty: Vec<u8> = Vec::new();
    let first: &[u8] = match find_crlf(header) {
        Some(i) => {
            proof {
                crate::scan::lemma_spec_find_crlf(header@);
            }
            let f = vstd::slice::slice_subrange(header, 0, i);
            proof {
                assert(f@ =~= spec_first_line(request.header@));
            }
            f
        },
        None => header,
    };
    let toks = split_tokens(first);
    proof {
        assert(toks@.map_values(|t: Vec<u8>| t@) == spec_tokens(spec_first_line(request.header@)));
    }
    if toks.len() < 3 {
        return Outcome::Response(
            structure_response(
                StatusCode::NotFound,
                "text/plain".as_bytes(),
                empty.as_slice(),
                "Malformed Request Line in HTTP_Request!".as_bytes(),
            ),
        );
    }
    proof {
        assert(toks@.map_values(|t: Vec<u8>| t@)[0] == toks@[0]@);
        assert(toks@.map_values(|t: Vec<u8>| t@)[1] == toks@[1]@);
    }
    match parse_route(toks[0].as_slice(), toks[1].as_slice()) {
        Route::Index => Outcome::Response(
            structure_response(
                StatusCode::Okay,
                "text/plain".as_bytes(),
                empty.as_slice(),
                "Welcome to Neel's HTTP Server Project, built with Rust!".as_bytes(),
            ),
        ),
        Route::Echo(payload) => match accepts_encoding(header) {
            Some(encodings) => {
                if contains_bytes(&encodings, "gzip".as_bytes()) {
                    let compressed = gzip_compress(payload);
                    Outcome::Response(
                        structure_response(
                            StatusCode::Okay,
                            "text/plain".as_bytes(),
                            "gzip".as_bytes(),
                            compressed.as_slice(),
                        ),
                    )
                } else {
                    Outcome::Response(
                        structure_response(
                            StatusCode::Okay,
                            "text/plain".as_bytes(),
                            empty.as_slice(),
                            "Invalid Encoding / Encoding Not supported by server!".as_bytes(),
                        ),
                    )
                }
            },
            None => Outcome::Response(
                structure_response(
                    StatusCode::Okay,
                    "text/plain".as_bytes(),
                    empty.as_slice(),
                    payload,
                ),
            ),
        },
        Route::UserAgent => match find_header_value(header, "User-Agent: ".as_bytes(), false) {
            Some(agent) => Outcome::Response(
                structure_response(
                    StatusCode::Okay,
                    "text/plain".as_bytes(),
                    empty.as_slice(),
                    agent.as_slice(),
                ),
            ),
            None => Outcome::Response(
                structure_response(
                    StatusCode::BadRequest,
                    "text/plain".as_bytes(),
                    empty.as_slice(),
                    "User Agent Not Found!".as_bytes(),
                ),
            ),
        },
        Route::ReadFile(name) => Outcome::ReadFile(sanitise_filename(name, directory)),
        Route::PostCreateFile(name) => {
            if request.body.len() == 0 {
                Outcome::Response(
                    structure_response(
                        StatusCode::BadRequest,
                        "text/plain".as_bytes(),
                        empty.as_slice(),
                        "CreateFile API failure due to HTTP Body not present:!".as_bytes(),
                    ),
                )
            } else {
                let content = vstd::slice::slice_to_vec(request.body.as_slice());
                Outcome::WriteFile(sanitise_filename(name, directory), content)
            }
        },
        Route::NotFound => Outcome::Response(
            structure_response(
                StatusCode::NotFound,
                "text/plain".as_bytes(),
                empty.as_slice(),
                "Page NOT found!".as_bytes(),
            ),
        ),
    }
}

/// The diagnostic body for a file that could not be read: the resolved
/// path and the underlying error text, embedded in a fixed message.
pub open spec fn spec_read_failure_body(path: Seq<u8>, err: Seq<u8>) -> Seq<u8> {
    ("File: ").spec_bytes() + path + (" NOT found: ").spec_bytes() + err + ("!").spec_bytes()
}

/// The response for a file read: the file bytes on success, a 404 with
/// the path and error text on failure.
pub open spec fn spec_read_file_response(path: Seq<u8>, content: Result<Seq<u8>, Seq<u8>>) -> Seq<
    u8,
> {
    match content {
        Ok(c) => spec_response_bytes(
            StatusCode::Okay,
            ("application/octet-stream").spec_bytes(),
            Seq::<u8>::empty(),
            c,
        ),
        Err(e) => spec_response_bytes(
            StatusCode::NotFound,
            ("text/plain").spec_bytes(),
            Seq::<u8>::empty(),
            spec_read_failure_body(path, e),
        ),
    }
}

/// Build the response for a completed file read: `content` is the file's
/// bytes, or the error text when the read failed.
pub fn read_file_response(path: &[u8], content: Result<&[u8], &[u8]>) -> (r: Vec<u8>)
    ensures
        r@ == spec_read_file_response(
            path@,
            match content {
                Ok(c) => Ok(c@),
                Err(e) => Err(e@),
            },
        ),
{
    let empty: Vec<u8> = Vec::new();
    match content {
        Ok(c) => structure_response(
            StatusCode::Okay,
            "application/octet-stream".as_bytes(),
            empty.as_slice(),
            c,
        ),
        Err(e) => {
            let mut body: Vec<u8> = Vec::new();
            body.extend_from_slice("File: ".as_bytes());
            body.extend_from_slice(path);
            body.extend_from_slice(" NOT found: ".as_bytes());
            body.extend_from_slice(e);
            body.extend_from_slice("!".as_bytes());
            proof {
                assert(body@ =~= spec_read_failure_body(path@, e@));
            }
            structure_response(
                StatusCode::NotFound,
                "text/plain".as_bytes(),
                empty.as_slice(),
                body.as_slice(),
            )
        },
    }
}

/// The diagnostic body for a file that could not be created.
pub open spec fn spec_write_failure_body(path: Seq<u8>, err: Seq<u8>) -> Seq<u8> {
    ("File: ").spec_bytes() + path + (" creation failed: ").spec_bytes() + err + (
    "!").spec_bytes()
}

/// The response for a file create: a bare 201 on success, a 404 with the
/// path and error text on failure.
pub open spec fn spec_write_file_response(path: Seq<u8>, result: Result<(), Seq<u8>>) -> Seq<u8> {
    match result {
        Ok(_) => spec_response_bytes(
            StatusCode::Created,
            Seq::<u8>::empty(),
            Seq::<u8>::empty(),
            Seq::<u8>::empty(),
        ),
        Err(e) => spec_response_bytes(
            StatusCode::NotFound,
            ("text/plain").spec_bytes(),
            Seq::<u8>::empty(),
            spec_write_failure_body(path, e),
        ),
    }
}

/// Build the response for a completed file create: `result` carries the
/// error text when the write failed.
pub fn write_file_response(path: &[u8], result: Result<(), &[u8]>) -> (r: Vec<u8>)
    ensures
        r@ == spec_write_file_response(
            path@,
            match result {
                Ok(_) => Ok(()),
                Err(e) => Err(e@),
            },
        ),
{
    let empty: Vec<u8> = Vec::new();
    match result {
        Ok(_) => structure_response(
            StatusCode::Created,
            empty.as_slice(),
            empty.as_slice(),
            empty.as_slice(),
        ),
        Err(e) => {
            let mut body: Vec<u8> = Vec::new();
            body.extend_from_slice("File: ".as_bytes());
            body.extend_from_slice(path);
            body.extend_from_slice(" creation failed: ".as_bytes());
            body.extend_from_slice(e);
            body.extend_from_slice("!".as_bytes());
            proof {
                assert(body@ =~= spec_write_failure_body(path@, e@));
            }
            structure_response(
                StatusCode::NotFound,
                "text/plain".as_bytes(),
                empty.as_slice(),
                body.as_slice(),
            )
        },
    }
}

/// Processing is a function of the raw request bytes and the directory
/// alone: repeating the same request, on this or any fresh connection,
/// yields a byte-identical outcome.
pub proof fn lemma_process_deterministic(
    header1: Seq<u8>,
    body1: Seq<u8>,
    header2: Seq<u8>,
    body2: Seq<u8>,
    directory: Seq<u8>,
)
    requires
        header1 == header2,
        body1 == body2,
    ensures
        spec_process(header1, body1, directory) == spec_process(header2, body2, directory),
{
}

/// A request line with fewer than three whitespace-separated tokens is
/// answered with the fixed malformed-request response, whatever else the
/// request holds.
pub proof fn lemma_malformed_request_line(header: Seq<u8>, body: Seq<u8>, directory: Seq<u8>)
    requires
        spec_tokens(spec_first_line(header)).len() < 3,
    ensures
        spec_process(header, body, directory) == OutcomeModel::Response(spec_malformed_response()),
{
}

/// A request that routes to the echo handler and offers no
/// `Accept-Encoding` header is answered 200 with the raw payload as body,
/// as the dispatch table prescribes.
pub proof fn lemma_echo_without_encoding(
    header: Seq<u8>,
    body: Seq<u8>,
    directory: Seq<u8>,
    payload: Seq<u8>,
)
    requires
        spec_tokens(spec_first_line(header)).len() >= 3,
        spec_route(
            spec_tokens(spec_first_line(header))[0],
            spec_tokens(spec_first_line(header))[1],
        ) == RouteModel::Echo(payload),
        spec_accepts_encoding(header) is None,
    ensures
        spec_process(header, body, directory) == OutcomeModel::Response(
            spec_response_bytes(
                StatusCode::Okay,
                ("text/plain").spec_bytes(),
                Seq::<u8>::empty(),
                payload,
            ),
        ),
{
}

/// The filesystem round trip: a file-create route stores the request body
/// at the resolved path, a file-read route for the same name resolves to
/// the same path, and serving back what was stored yields a 200 response
/// whose body is exactly the bytes first posted.
pub proof fn lemma_file_round_trip(
    post_header: Seq<u8>,
    post_body: Seq<u8>,
    get_header: Seq<u8>,
    directory: Seq<u8>,
    name: Seq<u8>,
)
    requires
        spec_tokens(spec_first_line(post_header)).len() >= 3,
        spec_route(
            spec_tokens(spec_first_line(post_header))[0],
            spec_tokens(spec_first_line(post_header))[1],
        ) == RouteModel::PostCreateFile(name),
        post_body.len() > 0,
        spec_tokens(spec_first_line(get_header)).len() >= 3,
        spec_route(
            spec_tokens(spec_first_line(get_header))[0],
            spec_tokens(spec_first_line(get_header))[1],
        ) == RouteModel::ReadFile(name),
    ensures
        spec_process(post_header, post_body, directory) == OutcomeModel::WriteFile(
            directory + name,
            post_body,
        ),
        spec_process(get_header, Seq::<u8>::empty(), directory) == OutcomeModel::ReadFile(
            directory + name,
        ),
        spec_read_file_response(directory + name, Ok(post_body)) == spec_response_bytes(
            StatusCode::Okay,
            ("application/octet-stream").spec_bytes(),
            Seq::<u8>::empty(),
            post_body,
        ),
{
}

} // verus!
