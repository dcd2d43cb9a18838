//! The HTTP wire codec: exact request serialization and response parsing.

use lightarti_rest::http::{
    prepare_send, raw_to_response, request_to_raw, Header, Method, Request, Version,
};

fn get_request() -> Request {
    Request::new(
        Method::Get,
        b"www.example.com".to_vec(),
        None,
        b"/index.html".to_vec(),
        vec![],
        vec![],
    )
}

#[test]
fn request_line_and_host_header() {
    let req = get_request();
    assert_eq!(req.port, 443);
    let raw = request_to_raw(&req);
    assert_eq!(
        raw,
        b"GET /index.html HTTP/1.0\nHost: www.example.com\n\n".to_vec()
    );
}

#[test]
fn request_with_headers_and_body() {
    let req = Request::new(
        Method::Post,
        b"httpbin.org".to_vec(),
        Some(8443),
        b"/post".to_vec(),
        vec![Header { name: b"Content-Type".to_vec(), value: b"text/plain".to_vec() }],
        b"key1=val1&key2=val2".to_vec(),
    );
    assert_eq!(req.port, 8443);
    let raw = request_to_raw(&req);
    assert_eq!(
        raw,
        b"POST /post HTTP/1.0\nHost: httpbin.org\nContent-Type: text/plain\n\nkey1=val1&key2=val2"
            .to_vec()
    );
}

#[test]
fn send_rejects_non_http10() {
    // The send contract refuses anything but HTTP/1.0, before any I/O.
    let mut req = get_request();
    req.version = Version::Http11;
    let err = prepare_send(&req).expect_err("");
    assert_eq!(err.describe(), "only supports HTTP version 1.0");
}

#[test]
fn send_serializes_http10() {
    let req = get_request();
    let raw = prepare_send(&req).expect("serializable");
    assert_eq!(raw, request_to_raw(&req));
}

#[test]
fn response_parses_status_headers_body() {
    let raw = b"HTTP/1.0 200 OK\r\nContent-Type: text/html\r\nX-More:   spaced\r\n\r\nhello body";
    let resp = raw_to_response(raw).expect("well-formed");
    assert_eq!(resp.status, 200);
    assert!(matches!(resp.version, Version::Http10));
    assert_eq!(resp.headers.len(), 2);
    assert_eq!(resp.headers[0].name, b"Content-Type".to_vec());
    assert_eq!(resp.headers[0].value, b"text/html".to_vec());
    assert_eq!(resp.headers[1].name, b"X-More".to_vec());
    assert_eq!(resp.headers[1].value, b"spaced".to_vec());
    assert_eq!(resp.body, b"hello body".to_vec());
}

#[test]
fn response_bare_lf_and_http11() {
    let raw = b"HTTP/1.1 404\nServer: none\n\n";
    let resp = raw_to_response(raw).expect("well-formed");
    assert_eq!(resp.status, 404);
    assert!(matches!(resp.version, Version::Http11));
    assert_eq!(resp.headers.len(), 1);
    assert!(resp.body.is_empty());
}

#[test]
fn response_caps_headers_at_sixteen() {
    // More than sixteen headers collapse into the cap without error.
    let mut raw = b"HTTP/1.0 200 OK\r\n".to_vec();
    for i in 0..20 {
        raw.extend_from_slice(format!("H{}: v{}\r\n", i, i).as_bytes());
    }
    raw.extend_from_slice(b"\r\nbody");
    let resp = raw_to_response(&raw).expect("well-formed");
    assert_eq!(resp.status, 200);
    assert_eq!(resp.headers.len(), 16);
    assert_eq!(resp.headers[15].name, b"H15".to_vec());
    assert_eq!(resp.body, b"body".to_vec());
}

#[test]
fn response_unfinished_is_rejected() {
    let err = raw_to_response(b"HTTP/1.0 200 OK\r\nContent-Type: text/html\r\n").expect_err("");
    assert_eq!(err.describe(), "invalid HTTP response: unfinished response");
    let err2 = raw_to_response(b"").expect_err("");
    assert_eq!(err2.describe(), "invalid HTTP response: unfinished response");
}

#[test]
fn response_bad_status_line_is_rejected() {
    let err = raw_to_response(b"ICY 200 OK\r\n\r\n").expect_err("");
    assert_eq!(err.describe(), "invalid HTTP response: unable to parse response");
    let err2 = raw_to_response(b"HTTP/2.0 200 OK\r\n\r\n").expect_err("");
    assert_eq!(err2.describe(), "invalid HTTP response: unable to parse response");
}

#[test]
fn response_header_without_colon_is_rejected() {
    let err = raw_to_response(b"HTTP/1.0 200 OK\r\nbogus line\r\n\r\n").expect_err("");
    assert_eq!(err.describe(), "invalid HTTP response: unable to parse response");
}

#[test]
fn method_names_serialize() {
    for (m, name) in [
        (Method::Get, "GET"),
        (Method::Head, "HEAD"),
        (Method::Post, "POST"),
        (Method::Put, "PUT"),
        (Method::Delete, "DELETE"),
        (Method::Options, "OPTIONS"),
        (Method::Trace, "TRACE"),
        (Method::Patch, "PATCH"),
    ] {
        let req = Request::new(m, b"h".to_vec(), None, b"/".to_vec(), vec![], vec![]);
        let raw = request_to_raw(&req);
        assert!(raw.starts_with(name.as_bytes()));
    }
}
