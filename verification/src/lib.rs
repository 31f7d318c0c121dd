//! A small, verified HTTP/1.1 request engine.
//!
//! The library parses raw request bytes (request line, headers,
//! length-delimited body), routes the request to a fixed set of handlers
//! (greeting page, echo with optional gzip compression, user-agent
//! reflection, file read and file create), and builds the exact response
//! bytes to write back on the socket.  All socket and filesystem work is
//! left to the caller: file routes come back as explicit read/write plans,
//! and the caller feeds the outcome back in to obtain the response bytes.

pub mod digits;
pub mod engine;
pub mod gzip;
pub mod headers;
pub mod response;
pub mod route;
pub mod scan;
pub mod status;
