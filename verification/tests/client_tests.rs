use localshare::cli::LocalTarget;
use localshare::client::{
    dispatch_action, frame_step, handshake_reply, is_graceful_close, register_message,
    shutdown_event, ActiveStreams, DispatchAction, FrameStep, PongWatch, ReconnectAction,
    ReconnectState, RequestTracker, SessionEnd, TunnelConfig, TunnelEvent, REGISTER_HEARTBEAT_MS,
};
use localshare::error::{ProtocolError, RelayError};
use localshare::protocol::{Message, Payload, RejectReason, ResponseErrorCode, WsFrame};
use localshare::time::Duration;

fn config() -> TunnelConfig {
    TunnelConfig {
        relay: "ws://127.0.0.1:1".into(),
        client_name: "test".into(),
        client_version: "0.0.1".into(),
        target: LocalTarget {
            host: "127.0.0.1".into(),
            port: 9999,
        },
        ..Default::default()
    }
}

#[test]
fn default_config() {
    let c = TunnelConfig::default();
    assert_eq!(c.relay, "relay.localshare.dev");
    assert_eq!(c.client_name, "localshare");
    assert_eq!(c.target.port, 3000);
    assert_eq!(c.handshake_timeout.as_millis(), 5000);
    assert_eq!(c.pong_timeout.as_secs(), 30);
}

#[test]
fn successful_registration_emits_connected_event() {
    let reply = handshake_reply(Ok(Message::new(Payload::Registered {
        subdomain: "test-sub".into(),
        public_url: "https://test-sub.relay.localshare.dev".into(),
        heartbeat_interval_ms: 30_000,
    })));
    match reply {
        Some(Ok(session)) => {
            assert_eq!(session.subdomain, "test-sub");
            assert_eq!(session.public_url, "https://test-sub.relay.localshare.dev");
            assert_eq!(session.heartbeat_interval_ms, 30_000);
        }
        other => panic!("expected a session, got {:?}", other),
    }
    assert!(handshake_reply(Ok(Message::new(Payload::RelayPong))).is_none());
    assert!(handshake_reply(Err(ProtocolError::InvalidFrame("x".into()))).is_none());
}

#[test]
fn registration_rejection_emits_disconnected() {
    let reply = handshake_reply(Ok(Message::new(Payload::RegisterRejected {
        reason: RejectReason::SubdomainTaken,
    })));
    let err = match reply {
        Some(Err(e)) => e,
        other => panic!("expected rejection, got {:?}", other),
    };
    // A rejection before any session is fatal: the loop stops with a
    // non-graceful Disconnected event.
    let mut state = ReconnectState::new(&config());
    match state.after_session(SessionEnd::Failed(err), false) {
        ReconnectAction::Stop(Some(TunnelEvent::Disconnected { reason, graceful, error })) => {
            assert_eq!(reason, "registration rejected by relay: SubdomainTaken");
            assert!(!graceful);
            assert!(matches!(
                error,
                Some(RelayError::RegistrationRejected(RejectReason::SubdomainTaken))
            ));
        }
        _ => panic!("expected Disconnected event after rejection"),
    }
}

#[test]
fn register_message_fields() {
    let m = register_message(&config(), &Some("my-app".into()));
    assert_eq!(
        m.payload,
        Payload::Register {
            requested_subdomain: Some("my-app".into()),
            client_name: "test".into(),
            client_version: "0.0.1".into(),
            heartbeat_interval_ms: REGISTER_HEARTBEAT_MS,
        }
    );
}

#[test]
fn reconnect_backoff_counts_and_resets() {
    let mut state = ReconnectState::new(&config());
    assert!(matches!(
        state.after_session(SessionEnd::Finished("sub".into()), false),
        ReconnectAction::Retry
    ));
    assert_eq!(state.last_subdomain.as_deref(), Some("sub"));
    for expected in 1..=3u32 {
        match state.after_session(
            SessionEnd::Failed(RelayError::Connect("u".into(), "x".into())),
            false,
        ) {
            ReconnectAction::Backoff { exponent, attempt } => {
                assert_eq!(exponent, expected - 1);
                assert_eq!(attempt, expected);
            }
            _ => panic!("expected backoff"),
        }
    }
    assert!(matches!(
        state.after_session(SessionEnd::Finished("sub2".into()), true),
        ReconnectAction::Stop(None)
    ));
    assert_eq!(state.attempt, 0);
    assert_eq!(state.last_subdomain.as_deref(), Some("sub2"));
}

#[test]
fn relay_close_is_graceful_and_cancel_is_silent() {
    let mut state = ReconnectState::new(&config());
    state.after_session(SessionEnd::Finished("s".into()), false);
    match state.after_session(
        SessionEnd::Failed(RelayError::UnexpectedClose("bye".into())),
        false,
    ) {
        ReconnectAction::Stop(Some(TunnelEvent::Disconnected { reason, graceful, .. })) => {
            assert_eq!(reason, "The relay closed the connection.");
            assert!(graceful);
        }
        _ => panic!("expected graceful stop"),
    }
    assert!(matches!(
        state.after_session(SessionEnd::Failed(RelayError::Io("x".into())), true),
        ReconnectAction::Stop(None)
    ));
    assert!(is_graceful_close(&RelayError::UnexpectedClose(String::new())));
    assert!(!is_graceful_close(&RelayError::Io(String::new())));
    match shutdown_event(true) {
        Some(TunnelEvent::Disconnected { reason, graceful, .. }) => {
            assert_eq!(reason, "cancelled");
            assert!(graceful);
        }
        _ => panic!("expected cancelled event"),
    }
    assert!(shutdown_event(false).is_none());
}

#[test]
fn request_reported_once_with_status() {
    let target = LocalTarget {
        host: "127.0.0.1".into(),
        port: 3000,
    };
    let mut t = RequestTracker::new(1, "GET".into(), "/".into(), &target);
    assert!(t
        .observe(&Payload::ResponseStart {
            stream_id: 1,
            status_code: 404,
            headers: vec![]
        })
        .is_none());
    assert!(t
        .observe(&Payload::ResponseChunk {
            stream_id: 1,
            data: vec![1]
        })
        .is_none());
    assert_eq!(
        t.observe(&Payload::ResponseEnd { stream_id: 1 }),
        Some((404, None))
    );
    assert!(t.observe(&Payload::ResponseEnd { stream_id: 1 }).is_none());

    let mut t = RequestTracker::new(2, "POST".into(), "/x".into(), &target);
    assert_eq!(
        t.observe(&Payload::ResponseError {
            stream_id: 2,
            code: ResponseErrorCode::TargetConnectionRefused,
            message: "refused".into()
        }),
        Some((
            502,
            Some("Is your local server running on 127.0.0.1:3000?".into())
        ))
    );
    assert!(t.observe(&Payload::ResponseEnd { stream_id: 2 }).is_none());
    match t.handled_event(502, None, Duration::from_millis(5)) {
        TunnelEvent::RequestHandled {
            stream_id, method, ..
        } => {
            assert_eq!(stream_id, 2);
            assert_eq!(method, "POST");
        }
        _ => panic!("expected RequestHandled"),
    }

    let mut t = RequestTracker::new(3, "GET".into(), "/".into(), &target);
    assert_eq!(
        t.observe(&Payload::ResponseError {
            stream_id: 3,
            code: ResponseErrorCode::TargetTimeout,
            message: String::new()
        }),
        Some((504, None))
    );
    let mut t = RequestTracker::new(4, "GET".into(), "/".into(), &target);
    assert_eq!(
        t.observe(&Payload::ResponseEnd { stream_id: 4 }),
        Some((200, None))
    );
}

#[test]
fn dispatch_and_stream_table() {
    assert!(matches!(
        dispatch_action(Payload::RequestStart {
            stream_id: 5,
            method: "GET".into(),
            path: "/".into(),
            headers: vec![]
        }),
        DispatchAction::Open { stream_id: 5, .. }
    ));
    assert!(matches!(
        dispatch_action(Payload::RequestEnd { stream_id: 5 }),
        DispatchAction::Forward { stream_id: 5, .. }
    ));
    assert!(matches!(
        dispatch_action(Payload::StreamReset { stream_id: 5 }),
        DispatchAction::Reset { stream_id: 5 }
    ));
    assert!(matches!(dispatch_action(Payload::RelayPong), DispatchAction::Pong));
    assert!(matches!(
        dispatch_action(Payload::ClientPing),
        DispatchAction::Ignore
    ));

    let mut streams: ActiveStreams<&str> = ActiveStreams::new();
    assert!(streams.is_empty());
    streams.open(1, "a");
    streams.open(2, "b");
    assert_eq!(streams.get(1), Some(&"a"));
    assert_eq!(streams.close(1), Some("a"));
    assert_eq!(streams.close(1), None);
    assert_eq!(streams.get(1), None);
    let mut all = streams.close_all();
    all.sort();
    assert_eq!(all, vec![(2, "b")]);
    assert!(streams.is_empty());
}

#[test]
fn frames_and_heartbeat() {
    assert!(matches!(frame_step(&WsFrame::Ping(vec![])), FrameStep::Skip));
    assert!(matches!(frame_step(&WsFrame::Close), FrameStep::Skip));
    assert!(matches!(frame_step(&WsFrame::Pong(vec![])), FrameStep::Pong));
    assert!(matches!(
        frame_step(&WsFrame::Text("{}".into())),
        FrameStep::Decode
    ));
    let timeout = Duration::from_millis(30);
    let mut w = PongWatch::start(0, &timeout);
    assert_eq!(w.deadline_ns, 30_000_000);
    assert!(!w.is_dead(60_000_000, &timeout));
    assert!(w.is_dead(60_000_001, &timeout));
    w.refresh(50_000_000, &timeout);
    assert!(!w.is_dead(60_000_001, &timeout));
}

#[test]
fn dropped_session_backs_off_and_keeps_subdomain() {
    let mut state = ReconnectState::new(&config());
    // The session registered as "assigned" and then the network failed.
    match state.after_session(
        SessionEnd::Dropped(
            "assigned".into(),
            RelayError::Connect("ws://r:80/".into(), "reset".into()),
        ),
        false,
    ) {
        ReconnectAction::Backoff { exponent, attempt } => {
            assert_eq!(exponent, 0);
            assert_eq!(attempt, 1);
        }
        _ => panic!("expected backoff after a dropped session"),
    }
    assert!(state.ever_connected);
    assert_eq!(state.last_subdomain.as_deref(), Some("assigned"));
    // The relay is unreachable for a while: back-off keeps growing.
    match state.after_session(
        SessionEnd::Failed(RelayError::Connect("ws://r:80/".into(), "refused".into())),
        false,
    ) {
        ReconnectAction::Backoff { exponent, attempt } => {
            assert_eq!(exponent, 1);
            assert_eq!(attempt, 2);
        }
        _ => panic!("expected backoff"),
    }
    let m = register_message(&config(), &state.last_subdomain);
    match m.payload {
        Payload::Register {
            requested_subdomain,
            ..
        } => assert_eq!(requested_subdomain.as_deref(), Some("assigned")),
        _ => panic!("expected Register"),
    }
    // A drop by a clean relay close ends the tunnel gracefully.
    let mut state = ReconnectState::new(&config());
    match state.after_session(
        SessionEnd::Dropped("s".into(), RelayError::UnexpectedClose("bye".into())),
        false,
    ) {
        ReconnectAction::Stop(Some(TunnelEvent::Disconnected { graceful, error, .. })) => {
            assert!(graceful);
            assert!(error.is_none());
        }
        _ => panic!("expected graceful stop"),
    }
}
