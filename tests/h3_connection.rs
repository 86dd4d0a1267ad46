use h123::convert::{Adapter, Header, Request, Response, Version};
use h123::h3::{
    self, connection_step, content_length_hint, logs_error, parse_decimal, BodyAdapter, ConnectionAction,
    ConnectionEnd, ConnectionEvent, ConnectionState, H3_NO_ERROR,
};

fn header(name: &str, value: &[u8]) -> Header {
    Header { name: name.to_string(), value: value.to_vec() }
}

#[test]
fn snapshot_then_overwrite_then_extract() {
    let mut adapter = BodyAdapter::new(b"request body".to_vec());
    assert_eq!(adapter.u_to_v(()).unwrap(), b"request body".to_vec());
    assert_eq!(adapter.u_to_v(()).unwrap(), b"request body".to_vec());
    adapter.v_to_u(b"response body".to_vec()).unwrap();
    assert_eq!(adapter.into_inner().unwrap(), b"response body".to_vec());
}

#[test]
fn extraction_fails_while_shared() {
    let mut adapter = BodyAdapter::new(b"x".to_vec());
    adapter.share();
    assert!(adapter.as_inner().is_err());
    adapter.unshare();
    assert_eq!(adapter.as_inner().unwrap(), b"x".to_vec());
    adapter.share();
    let err = adapter.into_inner().unwrap_err();
    assert_eq!(err.to_string(), "Mutex error.");
}

#[test]
fn second_extraction_fails() {
    let mut adapter = BodyAdapter::new(b"once".to_vec());
    assert_eq!(adapter.as_inner().unwrap(), b"once".to_vec());
    assert_eq!(adapter.as_inner().unwrap_err().to_string(), "Mutex error.");
    assert_eq!(adapter.into_inner().unwrap_err().to_string(), "Mutex error.");
}

#[test]
fn refused_extraction_keeps_buffer() {
    let mut adapter = BodyAdapter::new(b"kept".to_vec());
    adapter.share();
    assert_eq!(adapter.as_inner().unwrap_err().to_string(), "Mutex error.");
    assert_eq!(adapter.u_to_v(()).unwrap(), b"kept".to_vec());
    adapter.unshare();
    assert_eq!(adapter.into_inner().unwrap(), b"kept".to_vec());
}

#[test]
fn adapt_request_and_response() {
    let req = Request {
        method: "GET".to_string(),
        uri: "/index.html".to_string(),
        version: Version::Http3,
        headers: vec![header("content-length", b"3")],
        body: (),
    };
    let (adapter, out) = h3::adapt_request(req, b"abc".to_vec());
    assert_eq!(out.body, b"abc".to_vec());
    assert_eq!(out.uri, "/index.html");
    assert_eq!(out.headers.len(), 1);
    let resp = Response { status: 200, version: Version::Http3, headers: vec![header("x", b"y")], body: b"reply".to_vec() };
    let (head, body) = h3::adapt_response(adapter, resp).unwrap();
    assert_eq!(head.status, 200);
    assert_eq!(head.headers.len(), 1);
    assert_eq!(body, b"reply".to_vec());
}

#[test]
fn adapt_response_fails_with_another_holder() {
    let mut adapter = BodyAdapter::new(Vec::new());
    adapter.share();
    let resp = Response { status: 200, version: Version::Http3, headers: vec![], body: b"r".to_vec() };
    assert!(h3::adapt_response(adapter, resp).is_err());
}

#[test]
fn content_length_parsing() {
    assert_eq!(content_length_hint(&vec![header("content-length", b"42")]), 42);
    assert_eq!(content_length_hint(&vec![header("content-length", b"+7")]), 7);
    assert_eq!(content_length_hint(&vec![header("content-length", b"abc")]), 0);
    assert_eq!(content_length_hint(&vec![header("content-length", b"")]), 0);
    assert_eq!(content_length_hint(&vec![header("content-length", b"+")]), 0);
    assert_eq!(content_length_hint(&vec![header("content-length", b"-1")]), 0);
    assert_eq!(content_length_hint(&vec![header("content-length", b"99999999999999999999999")]), 0);
    assert_eq!(content_length_hint(&vec![header("accept", b"5")]), 0);
    assert_eq!(content_length_hint(&vec![]), 0);
    assert_eq!(
        content_length_hint(&vec![header("accept", b"1"), header("content-length", b"10"), header("content-length", b"20")]),
        10
    );
}

#[test]
fn parse_decimal_limits() {
    assert_eq!(parse_decimal(&b"0".to_vec()), Some(0));
    assert_eq!(parse_decimal(&usize::MAX.to_string().into_bytes()), Some(usize::MAX));
    assert_eq!(parse_decimal(&b"18446744073709551616".to_vec()), None);
    assert_eq!(parse_decimal(&b"1 2".to_vec()), None);
}

#[test]
fn quiet_and_reported_closes() {
    assert!(!logs_error(ConnectionEnd::Finished));
    assert!(!logs_error(ConnectionEnd::H3Error(Some(H3_NO_ERROR))));
    assert!(!logs_error(ConnectionEnd::H3Error(Some(0))));
    assert!(logs_error(ConnectionEnd::H3Error(None)));
    assert!(logs_error(ConnectionEnd::H3Error(Some(0x101))));
    assert!(logs_error(ConnectionEnd::HandshakeFailed));
    assert!(logs_error(ConnectionEnd::OtherError));
}

#[test]
fn connection_lifecycle() {
    let (s, a) = connection_step(ConnectionState::Handshaking, ConnectionEvent::Established);
    assert_eq!((s, a), (ConnectionState::Accepting, ConnectionAction::AcceptNext));
    let (s, a) = connection_step(s, ConnectionEvent::Accepted);
    assert_eq!((s, a), (ConnectionState::Accepting, ConnectionAction::Serve));
    let (s, a) = connection_step(s, ConnectionEvent::PeerClosed);
    assert_eq!((s, a), (ConnectionState::Closed, ConnectionAction::End(ConnectionEnd::Finished)));
    let (s, a) = connection_step(s, ConnectionEvent::Accepted);
    assert_eq!((s, a), (ConnectionState::Closed, ConnectionAction::End(ConnectionEnd::Finished)));
}

#[test]
fn handshake_failure_and_close_codes() {
    let (s, a) = connection_step(ConnectionState::Handshaking, ConnectionEvent::Failed(ConnectionEnd::OtherError));
    assert_eq!((s, a), (ConnectionState::Closed, ConnectionAction::End(ConnectionEnd::HandshakeFailed)));
    let end = ConnectionEnd::H3Error(Some(H3_NO_ERROR));
    let (_, a) = connection_step(ConnectionState::Accepting, ConnectionEvent::Failed(end));
    assert_eq!(a, ConnectionAction::End(end));
    assert!(!logs_error(end));
    let end = ConnectionEnd::H3Error(Some(0x10c));
    let (_, a) = connection_step(ConnectionState::Accepting, ConnectionEvent::Failed(end));
    assert_eq!(a, ConnectionAction::End(end));
    assert!(logs_error(end));
}
