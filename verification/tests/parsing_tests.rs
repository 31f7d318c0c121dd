use http_server::digits::parse_len_or_zero;
use http_server::headers::{accepts_encoding, content_length_of, find_header_value, split_commas};
use http_server::response::structure_response;
use http_server::route::{parse_route, sanitise_filename, Route};
use http_server::scan::{bytes_eq, find_crlf, split_tokens, starts_with, trim_ws};
use http_server::status::StatusCode;

#[test]
fn status_lines_are_fixed() {
    assert_eq!(StatusCode::Okay.text_value(), "HTTP/1.1 200 OK");
    assert_eq!(StatusCode::Created.text_value(), "HTTP/1.1 201 Created");
    assert_eq!(StatusCode::BadRequest.text_value(), "HTTP/1.1 400 Bad Request");
    assert_eq!(StatusCode::NotFound.text_value(), "HTTP/1.1 404 Not Found");
}

#[test]
fn routes_follow_the_dispatch_table() {
    assert!(matches!(parse_route(b"GET", b"/"), Route::Index));
    assert!(matches!(parse_route(b"GET", b"/index.html"), Route::Index));
    assert!(matches!(parse_route(b"GET", b"/user-agent"), Route::UserAgent));
    match parse_route(b"GET", b"/echo/abc") {
        Route::Echo(p) => assert_eq!(p, b"abc"),
        _ => panic!("expected the echo route"),
    }
    match parse_route(b"GET", b"/files/a.txt") {
        Route::ReadFile(p) => assert_eq!(p, b"a.txt"),
        _ => panic!("expected the file-read route"),
    }
    match parse_route(b"POST", b"/files/a.txt") {
        Route::PostCreateFile(p) => assert_eq!(p, b"a.txt"),
        _ => panic!("expected the file-create route"),
    }
    assert!(matches!(parse_route(b"POST", b"/"), Route::NotFound));
    assert!(matches!(parse_route(b"PUT", b"/files/a.txt"), Route::NotFound));
    assert!(matches!(parse_route(b"GET", b"/echo"), Route::NotFound));
}

#[test]
fn sanitise_filename_concatenates() {
    assert_eq!(sanitise_filename(b"a.txt", b"/data/"), b"/data/a.txt".to_vec());
    assert_eq!(sanitise_filename(b"a.txt", b""), b"a.txt".to_vec());
}

#[test]
fn content_length_reads_the_header_case_insensitively() {
    assert_eq!(content_length_of(b"POST /x HTTP/1.1\r\nContent-Length: 42\r\n"), 42);
    assert_eq!(content_length_of(b"POST /x HTTP/1.1\r\ncontent-length:7\r\n"), 7);
    assert_eq!(content_length_of(b"POST /x HTTP/1.1\r\nCONTENT-LENGTH:  13 \r\n"), 13);
}

#[test]
fn content_length_falls_back_to_zero() {
    assert_eq!(content_length_of(b"GET /x HTTP/1.1\r\nHost: y\r\n"), 0);
    assert_eq!(content_length_of(b"GET /x HTTP/1.1\r\nContent-Length: abc\r\n"), 0);
    assert_eq!(content_length_of(b"GET /x HTTP/1.1\r\nContent-Length:\r\n"), 0);
    assert_eq!(
        content_length_of(b"GET /x HTTP/1.1\r\nContent-Length: 99999999999999999999999999\r\n"),
        0
    );
}

#[test]
fn length_values_parse_like_the_standard_parser() {
    assert_eq!(parse_len_or_zero(b" 42 "), 42);
    assert_eq!(parse_len_or_zero(b"+12"), 12);
    assert_eq!(parse_len_or_zero(b"0"), 0);
    assert_eq!(parse_len_or_zero(b""), 0);
    assert_eq!(parse_len_or_zero(b"+"), 0);
    assert_eq!(parse_len_or_zero(b"-3"), 0);
    assert_eq!(parse_len_or_zero(b"1 2"), 0);
    assert_eq!(parse_len_or_zero(b"18446744073709551615"), usize::MAX);
    assert_eq!(parse_len_or_zero(b"18446744073709551616"), 0);
}

#[test]
fn accept_encoding_entries_are_split_and_trimmed() {
    let encs = accepts_encoding(b"GET / HTTP/1.1\r\nAccept-Encoding: deflate ,  gzip, br\r\n")
        .expect("header is present");
    assert_eq!(encs, vec![b"deflate".to_vec(), b"gzip".to_vec(), b"br".to_vec()]);
    assert!(accepts_encoding(b"GET / HTTP/1.1\r\nHost: x\r\n").is_none());
}

#[test]
fn accept_encoding_prefix_is_case_sensitive() {
    assert!(accepts_encoding(b"GET / HTTP/1.1\r\naccept-encoding: gzip\r\n").is_none());
}

#[test]
fn header_lookup_returns_the_first_match() {
    let header = b"GET / HTTP/1.1\r\nUser-Agent: one\r\nUser-Agent: two\r\n";
    let got = find_header_value(header, b"User-Agent: ", false).expect("header is present");
    assert_eq!(got, b"one".to_vec());
    assert!(find_header_value(header, b"Host: ", false).is_none());
}

#[test]
fn a_final_line_without_crlf_still_counts() {
    let got = find_header_value(b"GET / HTTP/1.1\r\nUser-Agent: tail", b"User-Agent: ", false)
        .expect("header is present");
    assert_eq!(got, b"tail".to_vec());
}

#[test]
fn commas_split_with_trimming() {
    assert_eq!(split_commas(b"a, b ,c"), vec![b"a".to_vec(), b"b".to_vec(), b"c".to_vec()]);
    assert_eq!(split_commas(b""), vec![b"".to_vec()]);
    assert_eq!(split_commas(b" gzip "), vec![b"gzip".to_vec()]);
}

#[test]
fn responses_serialize_with_the_fixed_header_order() {
    let got = structure_response(StatusCode::Okay, b"text/plain", b"gzip", b"xyz");
    let expected = b"HTTP/1.1 200 OK\r\nContent-Encoding: gzip\r\nContent-Type: text/plain\r\nContent-Length: 3\r\n\r\nxyz";
    assert_eq!(got, expected.to_vec());
}

#[test]
fn empty_body_responses_are_a_bare_status_line() {
    let got = structure_response(StatusCode::Created, b"", b"", b"");
    assert_eq!(got, b"HTTP/1.1 201 Created\r\n\r\n".to_vec());
    let got = structure_response(StatusCode::Okay, b"text/plain", b"", b"");
    assert_eq!(got, b"HTTP/1.1 200 OK\r\n\r\n".to_vec());
}

#[test]
fn content_length_counts_bytes_in_decimal() {
    let body = vec![7u8; 12345];
    let got = structure_response(StatusCode::Okay, b"application/octet-stream", b"", &body);
    let head_end = got.windows(4).position(|w| w == b"\r\n\r\n").unwrap();
    let head = String::from_utf8(got[..head_end].to_vec()).unwrap();
    assert!(head.ends_with("Content-Length: 12345"));
    assert_eq!(&got[head_end + 4..], &body[..]);
}

#[test]
fn scanning_primitives_behave() {
    assert_eq!(find_crlf(b"ab\r\ncd\r\n"), Some(2));
    assert_eq!(find_crlf(b"abcd"), None);
    assert_eq!(find_crlf(b"\r\n"), Some(0));
    assert!(starts_with(b"/echo/abc", b"/echo/"));
    assert!(!starts_with(b"/echo", b"/echo/"));
    assert!(bytes_eq(b"gzip", b"gzip"));
    assert!(!bytes_eq(b"gzip", b"gzi"));
    assert_eq!(trim_ws(b"  a b \t"), b"a b".to_vec());
    assert_eq!(
        split_tokens(b"GET /a HTTP/1.1"),
        vec![b"GET".to_vec(), b"/a".to_vec(), b"HTTP/1.1".to_vec()]
    );
    assert_eq!(split_tokens(b"  \t "), Vec::<Vec<u8>>::new());
}
