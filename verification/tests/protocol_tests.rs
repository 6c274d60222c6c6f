use localshare::error::{ProtocolError, RelayError};
use localshare::protocol::{
    parse_relay, Message, Payload, RejectReason, RelayEndpoint, WsFrame, PROTOCOL_VERSION,
};

// ── parse_relay URL normalization ─────────────────────────────────────────

#[test]
fn parse_bare_hostname() {
    let ep = parse_relay("relay.example.com").unwrap();
    assert_eq!(ep.scheme, "ws");
    assert_eq!(ep.host, "relay.example.com");
    assert_eq!(ep.port, 80);
    assert_eq!(ep.path, "/");
}

#[test]
fn parse_bare_hostname_with_port() {
    let ep = parse_relay("relay.example.com:4433").unwrap();
    assert_eq!(ep.scheme, "ws");
    assert_eq!(ep.port, 4433);
}

#[test]
fn parse_ws_url() {
    let ep = parse_relay("ws://relay.example.com/ws/v1").unwrap();
    assert_eq!(ep.scheme, "ws");
    assert_eq!(ep.path, "/ws/v1");
}

#[test]
fn parse_wss_url_default_port() {
    let ep = parse_relay("wss://secure.relay.io").unwrap();
    assert_eq!(ep.scheme, "wss");
    assert_eq!(ep.port, 443);
}

#[test]
fn parse_wss_url_custom_port() {
    let ep = parse_relay("wss://secure.relay.io:8443/v2").unwrap();
    assert_eq!(ep.port, 8443);
    assert_eq!(ep.path, "/v2");
}

#[test]
fn parse_with_query_string() {
    let ep = parse_relay("ws://relay.example.com/path?token=abc").unwrap();
    assert_eq!(ep.path, "/path?token=abc");
}

#[test]
fn parse_localhost_with_port() {
    let ep = parse_relay("localhost:9000").unwrap();
    assert_eq!(ep.host, "localhost");
    assert_eq!(ep.port, 9000);
}

#[test]
fn parse_empty_input_errors() {
    assert!(parse_relay("").is_err());
}

#[test]
fn parse_unsupported_scheme_errors() {
    assert!(parse_relay("http://example.com").is_err());
}

#[test]
fn relay_endpoint_ws_url() {
    let ep = RelayEndpoint {
        scheme: "wss".into(),
        host: "relay.example.com".into(),
        port: 443,
        path: "/ws".into(),
    };
    assert_eq!(ep.ws_url(), "wss://relay.example.com:443/ws");
}

#[test]
fn relay_errors_are_invalid_url() {
    match parse_relay("   ") {
        Err(RelayError::InvalidUrl(u, why)) => {
            assert_eq!(u, "");
            assert_eq!(why, "relay address cannot be empty");
        }
        other => panic!("unexpected: {:?}", other),
    }
    match parse_relay("http://example.com") {
        Err(RelayError::InvalidUrl(u, why)) => {
            assert_eq!(u, "http://example.com");
            assert_eq!(why, "unsupported scheme 'http', use 'ws' or 'wss'");
        }
        other => panic!("unexpected: {:?}", other),
    }
}

#[test]
fn relay_endpoint_label_and_trimming() {
    let ep = parse_relay("  ws://127.0.0.1:1 ").unwrap();
    assert_eq!(ep.display_string(), "ws://127.0.0.1:1");
    assert_eq!(ep.ws_url(), "ws://127.0.0.1:1/");
    let ep = parse_relay("ws://h/?").unwrap();
    assert_eq!(ep.path, "/");
}

#[test]
fn relay_error_message() {
    let e = RelayError::InvalidUrl("x".into(), "bad".into());
    assert_eq!(e.message(), "invalid relay URL 'x': bad");
    let e = RelayError::RegistrationRejected(RejectReason::ServerFull);
    assert_eq!(e.message(), "registration rejected by relay: ServerFull");
    let e = RelayError::HandshakeTimeout(
        "ws://r:80".into(),
        localshare::time::Duration::from_millis(1500),
    );
    assert_eq!(
        e.message(),
        "handshake with relay ws://r:80 timed out after 1.5s"
    );
}

#[test]
fn duration_debug_text_matches_std() {
    for (secs, nanos) in [
        (0u64, 0u32),
        (0, 7),
        (0, 1_500),
        (0, 12_345),
        (0, 250_000_000),
        (0, 1_000_001),
        (1, 500_000_000),
        (5, 0),
        (3, 1),
        (u64::MAX, 999_999_999),
    ] {
        let ours = localshare::time::Duration::new(secs, nanos).debug_string();
        let std = format!("{:?}", std::time::Duration::new(secs, nanos));
        assert_eq!(ours, std, "for {}s {}ns", secs, nanos);
    }
    let d = localshare::time::Duration::new(2, 1_500_000_000);
    assert_eq!((d.as_secs(), d.subsec_nanos(), d.as_millis()), (3, 500_000_000, 3500));
    assert_eq!(localshare::time::Duration::from_secs(u64::MAX).as_secs(), u64::MAX);
}

// ── messages and frames ───────────────────────────────────────────────────

#[test]
fn version_mismatch_returns_error() {
    let msg = Message {
        version: 99,
        payload: Payload::ClientPing,
    };
    match msg.accept_version() {
        Err(ProtocolError::VersionMismatch { expected, got }) => {
            assert_eq!(expected, PROTOCOL_VERSION);
            assert_eq!(got, 99);
        }
        other => panic!("expected VersionMismatch, got {:?}", other),
    }
}

#[test]
fn current_version_is_accepted() {
    let msg = Message::new(Payload::RelayPong);
    assert_eq!(msg.version, 1);
    assert_eq!(msg.clone().accept_version().unwrap(), msg);
    let e = ProtocolError::VersionMismatch {
        expected: 1,
        got: 99,
    };
    assert_eq!(
        e.message(),
        "protocol version mismatch: expected 1, got 99"
    );
}

#[test]
fn frames_carry_bytes_or_errors() {
    assert_eq!(
        Message::frame_bytes(&WsFrame::Text("{}".into())).unwrap(),
        b"{}".to_vec()
    );
    assert_eq!(
        Message::frame_bytes(&WsFrame::Binary(vec![0, 255])).unwrap(),
        vec![0, 255]
    );
    match Message::frame_bytes(&WsFrame::Ping(vec![])) {
        Err(ProtocolError::InvalidFrame(why)) => {
            assert_eq!(why, "expected text or binary frame, got control frame")
        }
        other => panic!("unexpected: {:?}", other),
    }
    match Message::frame_bytes(&WsFrame::Frame) {
        Err(ProtocolError::InvalidFrame(why)) => assert_eq!(why, "raw frame not supported"),
        other => panic!("unexpected: {:?}", other),
    }
}

#[test]
fn reject_reason_descriptions() {
    assert_eq!(
        RejectReason::SubdomainTaken.description(),
        "subdomain already taken"
    );
    assert_eq!(RejectReason::Other.description(), "registration denied by relay");
}

#[test]
fn relay_url_parses_back() {
    for input in [
        "relay.example.com",
        "relay.example.com:8080",
        "wss://relay.example.com",
        "ws://192.168.1.10:8080/tunnel?key=abc",
        "  wss://r.example:4433/a/b  ",
    ] {
        let ep = parse_relay(input).unwrap();
        assert!(ep.scheme == "ws" || ep.scheme == "wss");
        assert!(ep.path.starts_with('/'));
        assert_eq!(parse_relay(&ep.ws_url()).unwrap(), ep);
    }
}
