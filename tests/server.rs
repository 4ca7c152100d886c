use hello_server::request::{classify, new_request_buffer, Route, REQUEST_CAPACITY};
use hello_server::response::build_response;

/// Fills a fresh read buffer as one read of `sent` would: at most the capacity,
/// the rest left zero.
fn buffer_after_read(sent: &[u8]) -> Vec<u8> {
    let mut buffer = new_request_buffer();
    let n = sent.len().min(buffer.len());
    buffer[..n].copy_from_slice(&sent[..n]);
    buffer
}

/// Splits a response into its header block lines and its body.
fn split_response(response: &[u8]) -> (Vec<String>, Vec<u8>) {
    let end = response
        .windows(4)
        .position(|w| w == b"\r\n\r\n")
        .expect("blank line");
    let head = String::from_utf8(response[..end].to_vec()).unwrap();
    let lines = head.split("\r\n").map(|l| l.to_string()).collect();
    (lines, response[end + 4..].to_vec())
}

#[test]
fn scenario_root_request_with_host_header() {
    let buffer = buffer_after_read(b"GET / HTTP/1.1\r\nHost: x\r\n\r\n");
    let route = classify(&buffer);
    assert_eq!(route, Route::Root);
    assert_eq!(route.file_name(), "index.html");
    let body = b"<h1>Hello!</h1>";
    let response = build_response(route, body);
    assert_eq!(
        response,
        b"HTTP/1.1 200 OK\r\nContent-Length: 15\r\n\r\n<h1>Hello!</h1>".to_vec()
    );
}

#[test]
fn scenario_missing_path() {
    let buffer = buffer_after_read(b"GET /missing HTTP/1.1\r\n\r\n");
    let route = classify(&buffer);
    assert_eq!(route, Route::NotFound);
    assert_eq!(route.file_name(), "404.html");
    let response = build_response(route, b"Oops!");
    assert_eq!(
        response,
        b"HTTP/1.1 404 NOT FOUND\r\nContent-Length: 5\r\n\r\nOops!".to_vec()
    );
}

#[test]
fn scenario_zero_bytes_sent() {
    let buffer = buffer_after_read(b"");
    assert!(buffer.iter().all(|&b| b == 0));
    assert_eq!(classify(&buffer), Route::NotFound);
    assert_eq!(classify(b""), Route::NotFound);
}

#[test]
fn scenario_request_longer_than_capacity() {
    let mut sent = b"GET / HTTP/1.1\r\n".to_vec();
    sent.resize(REQUEST_CAPACITY + 500, b'a');
    let buffer = buffer_after_read(&sent);
    assert_eq!(buffer.len(), REQUEST_CAPACITY);
    assert_eq!(classify(&buffer), Route::Root);

    let mut late = vec![b'x'; REQUEST_CAPACITY];
    late.extend_from_slice(b"GET / HTTP/1.1\r\n");
    assert_eq!(classify(&buffer_after_read(&late)), Route::NotFound);
}

#[test]
fn new_buffer_is_zeroed_to_capacity() {
    let buffer = new_request_buffer();
    assert_eq!(buffer.len(), 1024);
    assert!(buffer.iter().all(|&b| b == 0));
}

#[test]
fn exact_root_line_alone_is_root() {
    assert_eq!(classify(b"GET / HTTP/1.1\r\n"), Route::Root);
}

#[test]
fn near_misses_are_not_found() {
    let cases: [&[u8]; 7] = [
        b"GET / HTTP/1.1\r",
        b"GET / HTTP/1.1\n\r\n",
        b"POST / HTTP/1.1\r\n",
        b"GET / HTTP/1.0\r\n",
        b"GET /index.html HTTP/1.1\r\n",
        b"get / HTTP/1.1\r\n",
        b" GET / HTTP/1.1\r\n",
    ];
    for case in cases.iter() {
        assert_eq!(classify(case), Route::NotFound, "{:?}", case);
        assert_eq!(classify(&buffer_after_read(case)), Route::NotFound, "{:?}", case);
    }
}

#[test]
fn status_lines() {
    assert_eq!(Route::Root.status_line(), b"HTTP/1.1 200 OK".to_vec());
    assert_eq!(Route::NotFound.status_line(), b"HTTP/1.1 404 NOT FOUND".to_vec());
}

#[test]
fn empty_body_announces_zero() {
    assert_eq!(
        build_response(Route::Root, b""),
        b"HTTP/1.1 200 OK\r\nContent-Length: 0\r\n\r\n".to_vec()
    );
}

#[test]
fn content_length_counts_bytes_not_characters() {
    let body = "caf\u{e9}".as_bytes();
    assert_eq!(body.len(), 5);
    let response = build_response(Route::NotFound, body);
    let (lines, rest) = split_response(&response);
    assert_eq!(lines[1], "Content-Length: 5");
    assert_eq!(rest, body.to_vec());
}

#[test]
fn content_length_of_multi_digit_lengths() {
    for &len in [9usize, 10, 99, 100, 1234, 70000].iter() {
        let body = vec![b'z'; len];
        let response = build_response(Route::Root, &body);
        let (lines, rest) = split_response(&response);
        assert_eq!(lines[1], format!("Content-Length: {}", len));
        assert_eq!(rest.len(), len);
    }
}

#[test]
fn only_content_length_header() {
    for route in [Route::Root, Route::NotFound].iter() {
        let response = build_response(*route, b"<p>\r\n\r\nbody with blank lines</p>");
        let (lines, _) = split_response(&response);
        assert_eq!(lines.len(), 2);
        assert!(lines[1].starts_with("Content-Length: "));
    }
}

#[test]
fn identical_requests_identical_responses() {
    let sent = b"GET / HTTP/1.1\r\nHost: x\r\n\r\n";
    let body = b"same page";
    let first = build_response(classify(&buffer_after_read(sent)), body);
    let second = build_response(classify(&buffer_after_read(sent)), body);
    assert_eq!(first, second);
}

#[test]
fn trailing_bytes_do_not_change_route() {
    assert_eq!(classify(b"GET / HTTP/1.1\r\nanything at all"), Route::Root);
    assert_eq!(classify(b"GET /x HTTP/1.1\r\nGET / HTTP/1.1\r\n"), Route::NotFound);
}
