use wsrpc::endpoint::{next_stage, plan_transport, resolve, Endpoint, Ipv4, Route, Stage, FALLBACK_PORT};
use wsrpc::error::SessionError;

fn pin() -> Ipv4 {
    Ipv4 { a: 10, b: 0, c: 0, d: 7 }
}

#[test]
fn reads_a_secure_endpoint() {
    let e = Endpoint::parse("wss://node.example/ws", None).unwrap();
    assert_eq!(e.text, "wss://node.example/ws");
    assert_eq!(e.scheme, "wss");
    assert_eq!(e.host, Some("node.example".to_string()));
    assert_eq!(e.port, Some(443));
    assert_eq!(e.pin, None);
    assert!(e.needs_tls());
}

#[test]
fn reads_a_plain_endpoint_with_port() {
    let e = Endpoint::parse("ws://Node.Example:9944", Some(pin())).unwrap();
    assert_eq!(e.scheme, "ws");
    assert_eq!(e.host, Some("node.example".to_string()));
    assert_eq!(e.port, Some(9944));
    assert_eq!(e.pin, Some(pin()));
    assert!(!e.needs_tls());
}

#[test]
fn known_ports_of_schemes() {
    assert_eq!(Endpoint::parse("ws://h/", None).unwrap().port, Some(80));
    assert_eq!(Endpoint::parse("https://h/", None).unwrap().port, Some(443));
    assert_eq!(Endpoint::parse("foo://h/", None).unwrap().port, None);
}

#[test]
fn text_that_is_no_url() {
    assert!(matches!(Endpoint::parse("node.example", None), Err(SessionError::AddressError)));
    assert!(matches!(Endpoint::parse("", Some(pin())), Err(SessionError::AddressError)));
}

#[test]
fn pinned_route_never_looks_up() {
    let e = Endpoint::parse("wss://node.example/ws", Some(pin())).unwrap();
    match e.route() {
        Ok(Route::Pinned { ip, port }) => {
            assert_eq!(ip, pin());
            assert_eq!(port, 443);
        }
        other => panic!("{:?}", other),
    }
}

#[test]
fn pinned_route_needs_a_port() {
    let e = Endpoint::parse("foo://node.example/ws", Some(pin())).unwrap();
    assert!(matches!(e.route(), Err(SessionError::AddressError)));
}

#[test]
fn unpinned_route_looks_up_the_host() {
    let e = Endpoint::parse("ws://node.example:9944/", None).unwrap();
    match e.route() {
        Ok(Route::Lookup { host, port }) => {
            assert_eq!(host, "node.example");
            assert_eq!(port, 9944);
        }
        other => panic!("{:?}", other),
    }
}

#[test]
fn unpinned_route_falls_back_to_443() {
    assert_eq!(FALLBACK_PORT, 443);
    let e = Endpoint::parse("foo://node.example/", None).unwrap();
    assert!(matches!(e.route(), Ok(Route::Lookup { port: 443, .. })));
}

#[test]
fn unpinned_route_needs_a_host() {
    let e = Endpoint::parse("data:text/plain,hello", None).unwrap();
    assert_eq!(e.host, None);
    assert!(matches!(e.route(), Err(SessionError::AddressError)));
    assert!(matches!(plan_transport(&e, false), Err(SessionError::AddressError)));
}

#[test]
fn plan_names_the_peer_by_its_host() {
    let e = Endpoint::parse("wss://node.example/ws", Some(pin())).unwrap();
    let p = plan_transport(&e, false).unwrap();
    assert_eq!(p.server_name, "node.example");
    assert_eq!(p.host_header, "node.example");
    assert!(p.secure);
    assert!(!p.verify_certificates);
    assert!(matches!(p.route, Route::Pinned { port: 443, .. }));
    let q = plan_transport(&Endpoint::parse("ws://node.example/ws", None).unwrap(), true).unwrap();
    assert!(!q.secure);
    assert!(q.verify_certificates);
    assert!(matches!(q.route, Route::Lookup { port: 80, .. }));
}

#[test]
fn stages_of_a_secure_stream() {
    assert_eq!(next_stage(Stage::Connect, true, true), Ok(Stage::Handshake));
    assert_eq!(next_stage(Stage::Handshake, true, true), Ok(Stage::Upgrade));
    assert_eq!(next_stage(Stage::Upgrade, true, true), Ok(Stage::Ready));
    assert_eq!(next_stage(Stage::Ready, true, false), Ok(Stage::Ready));
}

#[test]
fn stages_of_a_plain_stream() {
    assert_eq!(next_stage(Stage::Connect, false, true), Ok(Stage::Upgrade));
    assert_eq!(next_stage(Stage::Upgrade, false, true), Ok(Stage::Ready));
}

#[test]
fn each_step_fails_with_its_own_error() {
    assert_eq!(next_stage(Stage::Connect, true, false), Err(SessionError::ConnectError));
    assert_eq!(next_stage(Stage::Handshake, true, false), Err(SessionError::TlsError));
    assert_eq!(next_stage(Stage::Upgrade, false, false), Err(SessionError::UpgradeError));
}

#[test]
fn resolves_text_to_a_route() {
    assert!(matches!(
        resolve("wss://node.example/ws", Some(pin())),
        Ok(Route::Pinned { ip, port: 443 }) if ip == pin()
    ));
    assert!(matches!(
        resolve("wss://node.example:8443/ws", None),
        Ok(Route::Lookup { ref host, port: 8443 }) if host == "node.example"
    ));
    assert!(matches!(resolve("foo://node.example/", Some(pin())), Err(SessionError::AddressError)));
    assert!(matches!(resolve("unix:/run/foo.socket", None), Err(SessionError::AddressError)));
    assert!(matches!(resolve("not a url", None), Err(SessionError::AddressError)));
}

#[test]
fn port_given_or_implied_by_the_scheme() {
    assert_eq!(Endpoint::parse("wss://h/", None).unwrap().port, Some(443));
    assert_eq!(Endpoint::parse("wss://h:443/", None).unwrap().port, Some(443));
    assert_eq!(Endpoint::parse("wss://h:80/", None).unwrap().port, Some(80));
    assert_eq!(Endpoint::parse("ws://h:443/", None).unwrap().port, Some(443));
    assert_eq!(Endpoint::parse("http://h/", None).unwrap().port, Some(80));
    assert_eq!(Endpoint::parse("ftp://h/", None).unwrap().port, Some(21));
    assert_eq!(Endpoint::parse("foo://h:7/", None).unwrap().port, Some(7));
    assert_eq!(Endpoint::parse("foo://h/", None).unwrap().port, None);
}
