use h123::convert::{transform_request, transform_response, Adapter, Error, Header, HttpAdapter, Request, Response, Version};
use h123::h12::{self, ChunkedBody};
use h123::h3;

fn header(name: &str, value: &[u8]) -> Header {
    Header { name: name.to_string(), value: value.to_vec() }
}

fn sample_request(body: ChunkedBody) -> Request<ChunkedBody> {
    Request {
        method: "POST".to_string(),
        uri: "https://example.org/upload?x=1".to_string(),
        version: Version::Http2,
        headers: vec![header("accept", b"*/*"), header("x-multi", b"a"), header("x-multi", b"b")],
        body,
    }
}

#[test]
fn request_envelope_is_copied_verbatim() {
    let adapter = h12::BodyAdapter::new(8443);
    let req = sample_request(ChunkedBody { chunks: vec![b"he".to_vec(), b"llo".to_vec()] });
    let out = transform_request(&adapter, req).unwrap();
    assert_eq!(out.method, "POST");
    assert_eq!(out.uri, "https://example.org/upload?x=1");
    assert_eq!(out.version, Version::Http2);
    let pairs: Vec<(String, Vec<u8>)> = out.headers.iter().map(|h| (h.name.clone(), h.value.clone())).collect();
    assert_eq!(
        pairs,
        vec![
            ("accept".to_string(), b"*/*".to_vec()),
            ("x-multi".to_string(), b"a".to_vec()),
            ("x-multi".to_string(), b"b".to_vec()),
        ]
    );
    assert_eq!(out.body, b"hello".to_vec());
}

#[test]
fn response_gets_alt_svc_after_its_own_headers() {
    let mut adapter = h12::BodyAdapter::new(443);
    let resp = Response { status: 201, version: Version::Http11, headers: vec![header("etag", b"\"v1\"")], body: b"done".to_vec() };
    let out = transform_response(&mut adapter, resp).unwrap();
    assert_eq!(out.status, 201);
    assert_eq!(out.version, Version::Http11);
    assert_eq!(out.headers.len(), 2);
    assert_eq!(out.headers[0].name, "etag");
    assert_eq!(out.headers[0].value, b"\"v1\"".to_vec());
    assert_eq!(out.headers[1].name, "alt-svc");
    assert_eq!(out.headers[1].value, b"h3=\":443\"; ma=86400, h3-29=\":443\"; ma=86400".to_vec());
    assert_eq!(out.body.chunks, vec![b"done".to_vec()]);
}

#[test]
fn round_trip_keeps_request_head() {
    let adapter = h12::BodyAdapter::new(1);
    let req = sample_request(ChunkedBody { chunks: vec![] });
    let out = transform_request(&adapter, req).unwrap();
    let h3_adapter = h3::BodyAdapter::new(Vec::new());
    let back = Request { method: out.method, uri: out.uri, version: out.version, headers: out.headers, body: () };
    let again = transform_request(&h3_adapter, back).unwrap();
    assert_eq!(again.method, "POST");
    assert_eq!(again.uri, "https://example.org/upload?x=1");
    assert_eq!(again.version, Version::Http2);
    assert_eq!(again.headers.len(), 3);
    assert_eq!(again.headers[2].value, b"b".to_vec());
}

#[test]
fn alt_svc_value_for_ports() {
    assert_eq!(h12::alt_svc(443), b"h3=\":443\"; ma=86400, h3-29=\":443\"; ma=86400".to_vec());
    assert_eq!(h12::alt_svc(0), b"h3=\":0\"; ma=86400, h3-29=\":0\"; ma=86400".to_vec());
    assert_eq!(h12::alt_svc(65535), b"h3=\":65535\"; ma=86400, h3-29=\":65535\"; ma=86400".to_vec());
}

#[test]
fn chunked_body_collects_byte_for_byte() {
    let adapter = h12::BodyAdapter::new(443);
    for n in [0usize, 1, 7, 4096] {
        let bytes: Vec<u8> = (0..n).map(|i| (i % 251) as u8).collect();
        let chunks: Vec<Vec<u8>> = bytes.chunks(3).map(|c| c.to_vec()).collect();
        let out = adapter.u_to_v(ChunkedBody { chunks }).unwrap();
        assert_eq!(out, bytes);
    }
}

#[test]
fn empty_chunks_add_nothing() {
    let adapter = h12::BodyAdapter::new(443);
    let out = adapter.u_to_v(ChunkedBody { chunks: vec![vec![], b"ab".to_vec(), vec![], b"c".to_vec()] }).unwrap();
    assert_eq!(out, b"abc".to_vec());
}

#[test]
fn buffer_wrapped_and_collected_is_unchanged() {
    let mut adapter = h12::BodyAdapter::new(443);
    let body = adapter.v_to_u(b"payload".to_vec()).unwrap();
    assert_eq!(adapter.u_to_v(body).unwrap(), b"payload".to_vec());
}

#[test]
fn h12_adapt_request_collects_body() {
    let req = sample_request(ChunkedBody { chunks: vec![b"a".to_vec(), b"bc".to_vec()] });
    let out = h12::adapt_request(req);
    assert_eq!(out.body, b"abc".to_vec());
    assert_eq!(out.method, "POST");
}

#[test]
fn h12_failure_becomes_500() {
    let out = h12::adapt_response(443, Err(Error::boxed("handler failed".to_string())));
    assert_eq!(out.status, 500);
    assert!(out.headers.is_empty());
    assert!(out.body.chunks.iter().all(|c| c.is_empty()));
}

#[test]
fn h12_success_keeps_handler_response() {
    let resp = Response { status: 200, version: Version::Http11, headers: vec![], body: b"hi".to_vec() };
    let out = h12::adapt_response(8443, Ok(resp));
    assert_eq!(out.status, 200);
    assert_eq!(out.headers.len(), 1);
    assert_eq!(out.headers[0].name, "alt-svc");
    assert_eq!(out.body.chunks.concat(), b"hi".to_vec());
}

#[test]
fn error_keeps_its_message() {
    let e = Error::boxed("boom".to_string());
    assert_eq!(e.to_string(), "boom");
}

#[test]
fn http_adapter_converts_whole_messages() {
    let mut adapter = h3::BodyAdapter::new(b"in".to_vec());
    let req = Request { method: "GET".to_string(), uri: "/".to_string(), version: Version::Http3, headers: vec![header("a", b"1")], body: () };
    let out = adapter.request_u_to_v(req).unwrap();
    assert_eq!(out.body, b"in".to_vec());
    assert_eq!(out.headers[0].name, "a");
    let resp = Response { status: 404, version: Version::Http3, headers: vec![], body: b"out".to_vec() };
    let head = adapter.response_v_to_u(resp).unwrap();
    assert_eq!(head.status, 404);
    assert!(head.headers.is_empty());
    assert_eq!(adapter.into_inner().unwrap(), b"out".to_vec());
}
