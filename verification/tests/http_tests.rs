use sifs_brain::http::{http_response, request_body_start};

#[test]
fn body_starts_after_the_crlf_blank_line() {
    let req = b"POST /step HTTP/1.1\r\nHost: x\r\n\r\n{\"input\":[0.1]}";
    let start = request_body_start(req);
    assert_eq!(start, 30);
    assert_eq!(&req[start..], b"\r\n{\"input\":[0.1]}");
    assert_eq!(std::str::from_utf8(&req[start..]).unwrap().trim(), "{\"input\":[0.1]}");
}

#[test]
fn body_start_falls_back_to_a_bare_blank_line() {
    let req = b"POST /step\nA: b\n\n{}";
    assert_eq!(request_body_start(req), 17);
}

#[test]
fn crlf_blank_line_wins_over_an_earlier_bare_one() {
    let req = b"a\n\nb\r\n\r\nc";
    assert_eq!(request_body_start(req), 6);
}

#[test]
fn no_blank_line_means_no_body() {
    assert_eq!(request_body_start(b"GET / HTTP/1.1\r\nHost: x\r\n"), 0);
    assert_eq!(request_body_start(b""), 0);
    assert_eq!(request_body_start(b"\r\n\r"), 0);
}

#[test]
fn the_first_blank_line_counts() {
    assert_eq!(request_body_start(b"\r\n\r\n\r\n\r\n"), 2);
}

#[test]
fn response_ok_bytes() {
    let body = "{\"action\":1}";
    let got = http_response(200, body.as_bytes());
    let expected = "HTTP/1.1 200 OK\r\nContent-Type: application/json\r\nContent-Length: 12\r\nConnection: close\r\n\r\n{\"action\":1}";
    assert_eq!(got, expected.as_bytes());
}

#[test]
fn response_bad_request_bytes() {
    let body = r#"{"error":"bad request"}"#;
    let got = String::from_utf8(http_response(400, body.as_bytes())).unwrap();
    assert_eq!(
        got,
        "HTTP/1.1 400 Bad Request\r\nContent-Type: application/json\r\nContent-Length: 23\r\nConnection: close\r\n\r\n{\"error\":\"bad request\"}"
    );
    // Any status but 200 is a bad request.
    assert!(String::from_utf8(http_response(500, b"")).unwrap().starts_with("HTTP/1.1 400 Bad Request\r\n"));
}

#[test]
fn response_content_length_in_decimal() {
    let body = vec![b'x'; 1234];
    let got = String::from_utf8(http_response(200, &body)).unwrap();
    assert!(got.contains("\r\nContent-Length: 1234\r\n"));
    let empty = String::from_utf8(http_response(200, b"")).unwrap();
    assert!(empty.ends_with("Content-Length: 0\r\nConnection: close\r\n\r\n"));
}
