use localshare::cli::LocalTarget;
use localshare::client::{TunnelEvent, TunnelSession};
use localshare::error::RelayError;
use localshare::time::Duration;
use localshare::ui::{
    demo_session, exit_after, json_fields, log_level, output_mode, quiet_step, InteractiveState,
    JsonValue, OutputMode, UiExit, UiLine,
};

fn texts(ls: &[UiLine]) -> Vec<(bool, String)> {
    ls.iter()
        .map(|l| match l {
            UiLine::Stdout(s) => (true, s.clone()),
            UiLine::Stderr(s) => (false, s.clone()),
        })
        .collect()
}

fn target() -> LocalTarget {
    LocalTarget {
        host: "127.0.0.1".into(),
        port: 3000,
    }
}

#[test]
fn modes_and_levels() {
    assert_eq!(output_mode(true, true), OutputMode::Json);
    assert_eq!(output_mode(false, true), OutputMode::Quiet);
    assert_eq!(output_mode(false, false), OutputMode::Interactive);
    assert_eq!(log_level(0), "error");
    assert_eq!(log_level(1), "info");
    assert_eq!(log_level(2), "debug");
    assert_eq!(log_level(7), "trace");
}

#[test]
fn disconnects_end_the_program() {
    let fatal = TunnelEvent::Disconnected {
        reason: "x".into(),
        graceful: false,
        error: None,
    };
    assert_eq!(exit_after(&fatal), Some(UiExit::Fatal));
    let ok = TunnelEvent::Disconnected {
        reason: "cancelled".into(),
        graceful: true,
        error: None,
    };
    assert_eq!(exit_after(&ok), Some(UiExit::Graceful));
    assert_eq!(
        exit_after(&TunnelEvent::Connecting {
            endpoint: "e".into()
        }),
        None
    );
}

#[test]
fn quiet_mode_lines() {
    let ls = quiet_step(&TunnelEvent::Connecting {
        endpoint: "ws://h:1".into(),
    });
    assert_eq!(texts(&ls), vec![(false, "Connecting to ws://h:1...".to_string())]);
    let ls = quiet_step(&TunnelEvent::Disconnected {
        reason: String::new(),
        graceful: true,
        error: None,
    });
    assert!(ls.is_empty());
    let ls = quiet_step(&TunnelEvent::Reconnecting {
        attempt: 1,
        delay: Duration::from_millis(10),
    });
    assert!(ls.is_empty());
}

#[test]
fn interactive_mode_lines() {
    let mut st = InteractiveState::new();
    let ls = st.step(
        &TunnelEvent::Connecting {
            endpoint: "ws://h:1".into(),
        },
        "r",
        &target(),
        false,
    );
    assert_eq!(
        texts(&ls),
        vec![(false, "  \x1b[1m\x1b[36m◌ CONNECTING...\x1b[0m (ws://h:1)".to_string())]
    );
    let session = TunnelSession {
        subdomain: "s".into(),
        public_url: "https://s.example".into(),
        heartbeat_interval_ms: 1,
    };
    let ls = st.step(&TunnelEvent::Connected { session }, "r", &target(), false);
    assert_eq!(ls.len(), 3);
    assert!(st.banner_printed);
    let ls = st.step(
        &TunnelEvent::Connecting {
            endpoint: "ws://h:1".into(),
        },
        "r",
        &target(),
        false,
    );
    assert!(ls.is_empty());
    let ls = st.step(
        &TunnelEvent::Reconnecting {
            attempt: 2,
            delay: Duration::from_millis(750),
        },
        "r",
        &target(),
        false,
    );
    assert_eq!(
        texts(&ls),
        vec![(
            false,
            "  \x1b[1m\x1b[33m▲ RECONNECTING (Attempt 2)...\x1b[0m in 750ms".to_string()
        )]
    );
    let ls = st.step(
        &TunnelEvent::Disconnected {
            reason: "boom".into(),
            graceful: false,
            error: None,
        },
        "r",
        &target(),
        false,
    );
    assert_eq!(
        texts(&ls),
        vec![(false, "✗ Tunnel disconnected\n    boom\n".to_string())]
    );
    assert_eq!(
        texts(&st.closing()),
        vec![(false, "Stopping localshare...".to_string())]
    );
}

#[test]
fn interactive_connected_with_qr() {
    let mut st = InteractiveState::new();
    let session = TunnelSession {
        subdomain: "s".into(),
        public_url: "https://s.example".into(),
        heartbeat_interval_ms: 1,
    };
    let ls = texts(&st.step(&TunnelEvent::Connected { session }, "relay", &target(), true));
    assert_eq!(ls.len(), 5);
    assert!(ls[0].0 && ls[0].1.contains("https://s.example"));
    assert!(ls[0].1.contains("Forwarding :\x1b[0m  http://127.0.0.1:3000"));
    assert_eq!(ls[1], (false, "Scan with your phone:\n".to_string()));
    assert!(ls[2].0 && ls[2].1.contains('▀'));
    assert_eq!(ls[4], (false, "Recent Requests:".to_string()));
}

#[test]
fn demo_session_defaults() {
    let s = demo_session(&None);
    assert_eq!(s.subdomain, "demo");
    assert_eq!(s.public_url, "https://demo.relay.localshare.dev");
    let s = demo_session(&Some("x".into()));
    assert_eq!(s.public_url, "https://x.relay.localshare.dev");
}

#[test]
fn fatal_relay_error_shows_title_and_hint() {
    let mut st = InteractiveState::new();
    let e = RelayError::Connect("ws://127.0.0.1:1/".into(), "refused".into());
    let ls = st.step(
        &TunnelEvent::Disconnected {
            reason: e.message(),
            graceful: false,
            error: Some(e),
        },
        "ws://127.0.0.1:1",
        &target(),
        false,
    );
    let ls = texts(&ls);
    assert_eq!(ls.len(), 1);
    assert!(!ls[0].0);
    assert_eq!(
        ls[0].1,
        "✗ Could not reach relay\n    connection to relay ws://127.0.0.1:1/ failed: refused\n    → Check the relay address and your network connection\n"
    );
}

#[test]
fn banner_forwarding_line_shows_local_target() {
    let mut st = InteractiveState::new();
    let session = TunnelSession {
        subdomain: "a1b2c3".into(),
        public_url: "https://a1b2c3.relay.localshare.dev".into(),
        heartbeat_interval_ms: 15000,
    };
    let ls = texts(&st.step(
        &TunnelEvent::Connected { session },
        "relay.localshare.dev",
        &target(),
        false,
    ));
    let banner = &ls[0].1;
    assert!(banner.contains("Public URL :\x1b[0m  https://a1b2c3.relay.localshare.dev"));
    assert!(banner.contains("Forwarding :\x1b[0m  http://127.0.0.1:3000"));
    assert!(banner.contains("relay.localshare.dev"));
}

#[test]
fn json_fields_of_events() {
    let e = RelayError::Connect("u".into(), "x".into());
    let fs = json_fields(&TunnelEvent::Disconnected {
        reason: e.message(),
        graceful: false,
        error: Some(e),
    });
    let keys: Vec<&str> = fs.iter().map(|f| f.key).collect();
    assert_eq!(keys, vec!["event", "reason"]);
    assert!(matches!(&fs[0].value, JsonValue::Text(s) if s == "disconnected"));
    assert!(
        matches!(&fs[1].value, JsonValue::Text(s) if s == "connection to relay u failed: x")
    );
    let fs = json_fields(&TunnelEvent::Reconnecting {
        attempt: 3,
        delay: Duration::from_millis(1125),
    });
    assert!(matches!(fs[1].value, JsonValue::Number(3)));
    assert!(matches!(fs[2].value, JsonValue::Number(1125)));
}
