//! The send retry policy: up to five attempts on stream-level failures, no
//! retry after a TLS handshake failure, parsed delivery of read bytes.

use lightarti_rest::errors::Error;
use lightarti_rest::send::{SendEvent, SendSession, SendStep};

#[test]
fn five_stream_failures_give_no_response() {
    let mut s = SendSession::new();
    for _ in 0..4 {
        match s.on_event(SendEvent::StreamFailure) {
            SendStep::Retry => (),
            _ => panic!("expected a retry"),
        }
    }
    match s.on_event(SendEvent::StreamFailure) {
        SendStep::Fail(e) => assert!(matches!(e, Error::NoResponse)),
        _ => panic!("expected the retries to be exhausted"),
    }
}

#[test]
fn tls_failure_is_not_retried() {
    let mut s = SendSession::new();
    match s.on_event(SendEvent::TlsFailure) {
        SendStep::Fail(e) => assert!(matches!(e, Error::NetworkError)),
        _ => panic!("expected an immediate failure"),
    }
}

#[test]
fn response_bytes_are_delivered() {
    let mut s = SendSession::new();
    let raw = b"HTTP/1.0 200 OK\r\nServer: x\r\n\r\npayload".to_vec();
    match s.on_event(SendEvent::ResponseRead(raw)) {
        SendStep::Deliver(resp) => {
            assert_eq!(resp.status, 200);
            assert_eq!(resp.body, b"payload".to_vec());
        },
        _ => panic!("expected a delivery"),
    }
}

#[test]
fn malformed_response_fails_the_send() {
    let mut s = SendSession::new();
    match s.on_event(SendEvent::ResponseRead(b"garbage".to_vec())) {
        SendStep::Fail(e) => assert!(matches!(e, Error::InvalidResponse(_))),
        _ => panic!("expected a failure"),
    }
}

#[test]
fn failure_then_success() {
    let mut s = SendSession::new();
    assert!(matches!(s.on_event(SendEvent::StreamFailure), SendStep::Retry));
    let raw = b"HTTP/1.0 204\r\n\r\n".to_vec();
    assert!(matches!(
        s.on_event(SendEvent::ResponseRead(raw)),
        SendStep::Deliver(_)
    ));
}
