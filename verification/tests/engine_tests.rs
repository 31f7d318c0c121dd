use http_server::engine::{process_request, read_file_response, write_file_response, HttpRequest, Outcome};

fn request(header: &str, body: &[u8]) -> HttpRequest {
    HttpRequest { header: header.as_bytes().to_vec(), body: body.to_vec() }
}

fn response_of(header: &str, body: &[u8], directory: &str) -> Vec<u8> {
    match process_request(&request(header, body), directory.as_bytes()) {
        Outcome::Response(bytes) => bytes,
        _ => panic!("expected a finished response"),
    }
}

/// Split a response into (head, body) at the blank line.
fn split_response(bytes: &[u8]) -> (String, Vec<u8>) {
    let sep = b"\r\n\r\n";
    let pos = bytes
        .windows(4)
        .position(|w| w == sep)
        .expect("response has no blank line");
    (
        String::from_utf8(bytes[..pos].to_vec()).expect("head is not UTF-8"),
        bytes[pos + 4..].to_vec(),
    )
}

#[test]
fn index_route_greets() {
    let body = "Welcome to Neel's HTTP Server Project, built with Rust!";
    let expected = format!(
        "HTTP/1.1 200 OK\r\nContent-Type: text/plain\r\nContent-Length: {}\r\n\r\n{}",
        body.len(),
        body
    );
    let got = response_of("GET / HTTP/1.1\r\nHost: localhost\r\n", b"", "");
    assert_eq!(got, expected.into_bytes());
}

#[test]
fn index_html_route_greets_too() {
    let got = response_of("GET /index.html HTTP/1.1\r\n", b"", "");
    let (head, body) = split_response(&got);
    assert!(head.starts_with("HTTP/1.1 200 OK\r\n"));
    assert_eq!(body, b"Welcome to Neel's HTTP Server Project, built with Rust!".to_vec());
}

#[test]
fn echo_without_accept_encoding_returns_raw_payload() {
    let got = response_of("GET /echo/abc HTTP/1.1\r\nHost: x\r\n", b"", "");
    let expected = b"HTTP/1.1 200 OK\r\nContent-Type: text/plain\r\nContent-Length: 3\r\n\r\nabc";
    assert_eq!(got, expected.to_vec());
}

#[test]
fn echo_with_gzip_round_trips() {
    let got = response_of(
        "GET /echo/hello HTTP/1.1\r\nAccept-Encoding: gzip\r\n",
        b"",
        "",
    );
    let (head, body) = split_response(&got);
    assert!(head.starts_with("HTTP/1.1 200 OK\r\n"));
    assert!(head.contains("Content-Encoding: gzip\r\n"));
    assert!(head.contains("Content-Type: text/plain\r\n"));
    assert!(head.contains(&format!("Content-Length: {}", body.len())));
    let mut decoder = flate2::read::GzDecoder::new(&body[..]);
    let mut plain = Vec::new();
    std::io::Read::read_to_end(&mut decoder, &mut plain).expect("body is not a gzip stream");
    assert_eq!(plain, b"hello".to_vec());
}

#[test]
fn echo_with_gzip_among_several_encodings() {
    let got = response_of(
        "GET /echo/xy HTTP/1.1\r\nAccept-Encoding: deflate, gzip , br\r\n",
        b"",
        "",
    );
    let (head, _) = split_response(&got);
    assert!(head.contains("Content-Encoding: gzip\r\n"));
}

#[test]
fn echo_with_unsupported_encoding_reports_it() {
    let got = response_of(
        "GET /echo/abc HTTP/1.1\r\nAccept-Encoding: br\r\n",
        b"",
        "",
    );
    let (head, body) = split_response(&got);
    assert!(head.starts_with("HTTP/1.1 200 OK\r\n"));
    assert_eq!(body, b"Invalid Encoding / Encoding Not supported by server!".to_vec());
}

#[test]
fn user_agent_is_reflected() {
    let got = response_of(
        "GET /user-agent HTTP/1.1\r\nUser-Agent: test-agent/1.0\r\n",
        b"",
        "",
    );
    let expected =
        b"HTTP/1.1 200 OK\r\nContent-Type: text/plain\r\nContent-Length: 14\r\n\r\ntest-agent/1.0";
    assert_eq!(got, expected.to_vec());
}

#[test]
fn missing_user_agent_is_a_bad_request() {
    let got = response_of("GET /user-agent HTTP/1.1\r\nHost: x\r\n", b"", "");
    let (head, body) = split_response(&got);
    assert!(head.starts_with("HTTP/1.1 400 Bad Request\r\n"));
    assert_eq!(body, b"User Agent Not Found!".to_vec());
}

#[test]
fn unknown_path_is_not_found() {
    let got = response_of("GET /nope HTTP/1.1\r\n", b"", "");
    let (head, body) = split_response(&got);
    assert!(head.starts_with("HTTP/1.1 404 Not Found\r\n"));
    assert_eq!(body, b"Page NOT found!".to_vec());
}

#[test]
fn unknown_method_is_not_found() {
    let got = response_of("PUT /user-agent HTTP/1.1\r\nUser-Agent: x\r\n", b"", "");
    let (_, body) = split_response(&got);
    assert_eq!(body, b"Page NOT found!".to_vec());
}

#[test]
fn short_request_line_gets_the_malformed_response() {
    let got = response_of("GET\r\n", b"", "");
    let (head, body) = split_response(&got);
    assert!(head.starts_with("HTTP/1.1 404 Not Found\r\n"));
    assert_eq!(body, b"Malformed Request Line in HTTP_Request!".to_vec());
}

#[test]
fn empty_header_block_gets_the_malformed_response() {
    let got = response_of("", b"", "");
    let (_, body) = split_response(&got);
    assert_eq!(body, b"Malformed Request Line in HTTP_Request!".to_vec());
}

#[test]
fn file_read_route_resolves_against_the_directory() {
    match process_request(&request("GET /files/foo.txt HTTP/1.1\r\n", b""), b"/data/") {
        Outcome::ReadFile(path) => assert_eq!(path, b"/data/foo.txt".to_vec()),
        _ => panic!("expected a file read"),
    }
}

#[test]
fn file_create_route_carries_the_body() {
    match process_request(
        &request("POST /files/foo.txt HTTP/1.1\r\nContent-Length: 5\r\n", b"hello"),
        b"/data/",
    ) {
        Outcome::WriteFile(path, content) => {
            assert_eq!(path, b"/data/foo.txt".to_vec());
            assert_eq!(content, b"hello".to_vec());
        },
        _ => panic!("expected a file create"),
    }
}

#[test]
fn file_round_trip_through_a_stored_file() {
    // POST the body, keep what the engine asks to store, then GET it back.
    let mut stored: Option<(Vec<u8>, Vec<u8>)> = None;
    match process_request(
        &request("POST /files/foo.txt HTTP/1.1\r\nContent-Length: 5\r\n", b"hello"),
        b"root/",
    ) {
        Outcome::WriteFile(path, content) => stored = Some((path, content)),
        _ => panic!("expected a file create"),
    }
    let (stored_path, stored_content) = stored.unwrap();
    let created = write_file_response(&stored_path, Ok(()));
    assert_eq!(created, b"HTTP/1.1 201 Created\r\n\r\n".to_vec());

    match process_request(&request("GET /files/foo.txt HTTP/1.1\r\n", b""), b"root/") {
        Outcome::ReadFile(path) => {
            assert_eq!(path, stored_path);
            let got = read_file_response(&path, Ok(&stored_content));
            let expected = b"HTTP/1.1 200 OK\r\nContent-Type: application/octet-stream\r\nContent-Length: 5\r\n\r\nhello";
            assert_eq!(got, expected.to_vec());
        },
        _ => panic!("expected a file read"),
    }
}

#[test]
fn missing_file_is_a_not_found_naming_the_file() {
    match process_request(&request("GET /files/missing.txt HTTP/1.1\r\n", b""), b"") {
        Outcome::ReadFile(path) => {
            assert_eq!(path, b"missing.txt".to_vec());
            let got = read_file_response(&path, Err(b"No such file or directory (os error 2)"));
            let (head, body) = split_response(&got);
            let text = String::from_utf8(body).unwrap();
            assert!(head.starts_with("HTTP/1.1 404 Not Found\r\n"));
            assert!(text.contains("missing.txt"));
            assert_eq!(
                text,
                "File: missing.txt NOT found: No such file or directory (os error 2)!"
            );
        },
        _ => panic!("expected a file read"),
    }
}

#[test]
fn failed_file_create_is_a_not_found_naming_the_file() {
    let got = write_file_response(b"root/foo.txt", Err(b"Permission denied (os error 13)"));
    let (head, body) = split_response(&got);
    assert!(head.starts_with("HTTP/1.1 404 Not Found\r\n"));
    assert_eq!(
        String::from_utf8(body).unwrap(),
        "File: root/foo.txt creation failed: Permission denied (os error 13)!"
    );
}

#[test]
fn empty_post_body_is_a_bad_request() {
    let got = response_of("POST /files/foo.txt HTTP/1.1\r\nContent-Length: 0\r\n", b"", "root/");
    let (head, body) = split_response(&got);
    assert!(head.starts_with("HTTP/1.1 400 Bad Request\r\n"));
    assert_eq!(body, b"CreateFile API failure due to HTTP Body not present:!".to_vec());
}

#[test]
fn repeated_echo_requests_are_byte_identical() {
    let first = response_of("GET /echo/x HTTP/1.1\r\nAccept-Encoding: gzip\r\n", b"", "");
    for _ in 0..4 {
        let again = response_of("GET /echo/x HTTP/1.1\r\nAccept-Encoding: gzip\r\n", b"", "");
        assert_eq!(again, first);
    }
}
