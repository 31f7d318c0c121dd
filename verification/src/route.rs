//! Route dispatch: the fixed (method, path) table, with path parameters
//! taken by prefix stripping, and the filename resolution for file routes.

use vstd::prelude::*;
use vstd::string::StringSliceAdditionalSpecFns;
use crate::scan::{bytes_eq, starts_with};

verus! {

/// The closed set of routes, with path parameters borrowed from the
/// request target.
pub enum Route<'a> {
    Index,
    Echo(&'a [u8]),
    UserAgent,
    ReadFile(&'a [u8]),
    PostCreateFile(&'a [u8]),
    NotFound,
}

/// The spec-level shape of a resolved route.
pub enum RouteModel {
    Index,
    Echo(Seq<u8>),
    UserAgent,
    ReadFile(Seq<u8>),
    PostCreateFile(Seq<u8>),
    NotFound,
}

impl<'a> View for Route<'a> {
    type V = RouteModel;

    open spec fn view(&self) -> RouteModel {
        match *self {
            Route::Index => RouteModel::Index,
            Route::Echo(p) => RouteModel::Echo(p@),
            Route::UserAgent => RouteModel::UserAgent,
            Route::ReadFile(p) => RouteModel::ReadFile(p@),
            Route::PostCreateFile(p) => RouteModel::PostCreateFile(p@),
            Route::NotFound => RouteModel::NotFound,
        }
    }
}

/// The dispatch table, first match wins: `GET /` and `GET /index.html`
/// give the greeting page; `GET /user-agent` reflects the client's agent;
/// `GET /echo/{text}` echoes; `GET /files/{name}` reads a file;
/// `POST /files/{name}` creates one; everything else is not found.
pub open spec fn spec_route(method: Seq<u8>, path: Seq<u8>) -> RouteModel {
    let get = ("GET").spec_bytes();
    let post = ("POST").spec_bytes();
    let echo_prefix = ("/echo/").spec_bytes();
    let files_prefix = ("/files/").spec_bytes();
    if method == get && (path == ("/").spec_bytes() || path == ("/index.html").spec_bytes()) {
        RouteModel::Index
    } else if method == get && path == ("/user-agent").spec_bytes() {
        RouteModel::UserAgent
    } else if method == get && echo_prefix.is_prefix_of(path) {
        RouteModel::Echo(path.skip(echo_prefix.len() as int))
    } else if method == get && files_prefix.is_prefix_of(path) {
        RouteModel::ReadFile(path.skip(files_prefix.len() as int))
    } else if method == post && files_prefix.is_prefix_of(path) {
        RouteModel::PostCreateFile(path.skip(files_prefix.len() as int))
    } else {
        RouteModel::NotFound
    }
}

/// Resolve (method, path) against the fixed dispatch table.
pub fn parse_route<'a>(method: &[u8], path: &'a [u8]) -> (r: Route<'a>)
    ensures
        r@ == spec_route(method@, path@),
{
    let get = "GET".as_bytes();
    let post = "POST".as_bytes();
    let echo_prefix = "/echo/".as_bytes();
    let files_prefix = "/files/".as_bytes();
    let is_get = bytes_eq(method, get);
    if is_get && (bytes_eq(path, "/".as_bytes()) || bytes_eq(path, "/index.html".as_bytes())) {
        Route::Index
    } else if is_get && bytes_eq(path, "/user-agent".as_bytes()) {
        Route::UserAgent
    } else if is_get && starts_with(path, echo_prefix) {
        let p = vstd::slice::slice_subrange(path, echo_prefix.len(), path.len());
        proof {
            assert(path@.skip(echo_prefix@.len() as int) =~= path@.subrange(
                echo_prefix@.len() as int,
                path@.len() as int,
            ));
        }
        Route::Echo(p)
    } else if is_get && starts_with(path, files_prefix) {
        let p = vstd::slice::slice_subrange(path, files_prefix.len(), path.len());
        proof {
            assert(path@.skip(files_prefix@.len() as int) =~= path@.subrange(
                files_prefix@.len() as int,
                path@.len() as int,
            ));
        }
        Route::ReadFile(p)
    } else if bytes_eq(method, post) && starts_with(path, files_prefix) {
        let p = vstd::slice::slice_subrange(path, files_prefix.len(), path.len());
        proof {
            assert(path@.skip(files_prefix@.len() as int) =~= path@.subrange(
                files_prefix@.len() as int,
                path@.len() as int,
            ));
        }
        Route::PostCreateFile(p)
    } else {
        Route::NotFound
    }
}

/// The path a file route resolves to: the configured root directory with
/// the route's filename appended, by plain concatenation.
pub fn sanitise_filename(filename: &[u8], directory: &[u8]) -> (r: Vec<u8>)
    ensures
        r@ == directory@ + filename@,
{
    let mut r: Vec<u8> = Vec::new();
    r.extend_from_slice(directory);
    r.extend_from_slice(filename);
    r
}

} // verus!
