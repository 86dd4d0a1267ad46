use h123::convert::Error;
use h123::server::{h12_alpn_protocols, h3_alpn_protocols, EndpointPhase, Side, Supervision, H3_MAX_EARLY_DATA};
use h123::{JoinError, Server};

#[test]
fn h3_bind_failure_stops_server_and_abandons_h12() {
    let mut server = Server::new();
    match server.ended(Side::H3, Err(Error::boxed("address in use".to_string()))) {
        Supervision::Stop(Err(JoinError::H3(e))) => assert_eq!(e.to_string(), "address in use"),
        other => panic!("unexpected {:?}", other),
    }
    assert!(server.stopped);
    assert_eq!(server.h12, EndpointPhase::Running);
}

#[test]
fn h12_failure_after_h3_finished() {
    let mut server = Server::new();
    assert!(matches!(server.ended(Side::H3, Ok(())), Supervision::Wait));
    assert!(!server.stopped);
    assert!(matches!(server.ended(Side::H12, Err(Error::boxed("tls".to_string()))), Supervision::Stop(Err(JoinError::H12(_)))));
}

#[test]
fn both_succeed() {
    let mut server = Server::new();
    assert!(matches!(server.ended(Side::H12, Ok(())), Supervision::Wait));
    assert!(matches!(server.ended(Side::H3, Ok(())), Supervision::Stop(Ok(()))));
    assert!(server.stopped);
}

#[test]
fn alpn_lists() {
    assert_eq!(h12_alpn_protocols(), vec![b"h2".to_vec(), b"http/1.1".to_vec()]);
    assert_eq!(h3_alpn_protocols(), vec![b"h3".to_vec()]);
    assert_eq!(H3_MAX_EARLY_DATA, u32::MAX);
}
