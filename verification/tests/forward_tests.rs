use localshare::cli::LocalTarget;
use localshare::error::LocalForwardError;
use localshare::forward::{
    body_step, build_request_head, error_response, find_head_end, find_header_end, head_step,
    parse_response_head, response_opening, stops_response, BodyStep, MAX_HEADER_BUF,
};
use localshare::protocol::{Header, Payload, ResponseErrorCode, StreamMessage};

fn make_target(port: u16) -> LocalTarget {
    LocalTarget {
        host: "127.0.0.1".into(),
        port,
    }
}

// ── build_request_head ────────────────────────────────────────────────────

#[test]
fn request_head_strips_hop_by_hop() {
    let headers = vec![
        Header {
            name: "Host".into(),
            value: "example.com".into(),
        },
        Header {
            name: "Connection".into(),
            value: "keep-alive".into(),
        },
        Header {
            name: "Accept".into(),
            value: "*/*".into(),
        },
        Header {
            name: "Upgrade".into(),
            value: "websocket".into(),
        },
    ];
    let head = build_request_head("GET", "/", &headers, &make_target(3000));
    assert!(
        head.contains("Accept: */*\r\n"),
        "Accept header should be preserved"
    );
    assert!(
        !head.contains("Connection: keep-alive"),
        "Connection hop-by-hop must be stripped"
    );
    assert!(
        !head.contains("Upgrade:"),
        "Upgrade hop-by-hop must be stripped"
    );
    assert!(head.contains("Connection: close\r\n"));
}

#[test]
fn request_head_injects_host_when_missing() {
    let head = build_request_head("POST", "/data", &[], &make_target(8080));
    assert!(head.contains("Host: 127.0.0.1:8080\r\n"));
}

#[test]
fn request_head_preserves_existing_host() {
    let headers = vec![Header {
        name: "Host".into(),
        value: "myapp.example.com".into(),
    }];
    let head = build_request_head("GET", "/", &headers, &make_target(3000));
    assert!(head.contains("Host: myapp.example.com\r\n"));
    let host_header_lines: Vec<&str> = head
        .lines()
        .filter(|l| l.to_ascii_lowercase().starts_with("host:"))
        .collect();
    assert_eq!(
        host_header_lines.len(),
        1,
        "Host header should appear exactly once"
    );
}

#[test]
fn request_head_injects_forwarding_headers() {
    let head = build_request_head("GET", "/", &[], &make_target(5000));
    assert!(head.contains("X-Forwarded-Proto: http\r\n"));
    assert!(head.contains("X-Forwarded-Host: 127.0.0.1:5000\r\n"));
}

#[test]
fn request_head_request_line_format() {
    let head = build_request_head("DELETE", "/items/1", &[], &make_target(80));
    assert!(head.starts_with("DELETE /items/1 HTTP/1.1\r\n"));
}

#[test]
fn request_head_exact_text() {
    let headers = vec![
        Header {
            name: "accept".into(),
            value: "text/html".into(),
        },
        Header {
            name: "TRANSFER-ENCODING".into(),
            value: "chunked".into(),
        },
        Header {
            name: "hOsT".into(),
            value: "a.example".into(),
        },
        Header {
            name: "Sec-WebSocket-Key".into(),
            value: "x".into(),
        },
    ];
    let head = build_request_head("GET", "/x", &headers, &make_target(9000));
    assert_eq!(
        head,
        "GET /x HTTP/1.1\r\naccept: text/html\r\nhOsT: a.example\r\nX-Forwarded-For: unknown\r\nX-Forwarded-Proto: http\r\nX-Forwarded-Host: 127.0.0.1:9000\r\nConnection: close\r\n\r\n"
    );
    let bare = build_request_head("HEAD", "/", &[], &make_target(1));
    assert_eq!(
        bare,
        "HEAD / HTTP/1.1\r\nHost: 127.0.0.1:1\r\nX-Forwarded-For: unknown\r\nX-Forwarded-Proto: http\r\nX-Forwarded-Host: 127.0.0.1:1\r\nConnection: close\r\n\r\n"
    );
}

// ── find_header_end ───────────────────────────────────────────────────────

#[test]
fn find_header_end_found() {
    let buf = b"HTTP/1.1 200 OK\r\nContent-Length: 5\r\n\r\nhello";
    let pos = find_header_end(buf).unwrap();
    assert_eq!(&buf[pos..pos + 4], b"\r\n\r\n");
}

#[test]
fn find_header_end_not_found() {
    let buf = b"HTTP/1.1 200 OK\r\nContent-Length: 5\r\n";
    assert!(find_header_end(buf).is_none());
}

#[test]
fn find_header_end_first_and_short() {
    assert_eq!(find_header_end(b"\r\n\r\n\r\n\r\n"), Some(0));
    assert_eq!(find_header_end(b"ab\r\n\r\n"), Some(2));
    assert_eq!(find_header_end(b"\r\n\r"), None);
    assert_eq!(find_header_end(b""), None);
}

// ── response head ─────────────────────────────────────────────────────────

#[test]
fn head_step_accumulates_until_blank_line() {
    let target = make_target(3000);
    let mut raw = Vec::new();
    assert!(matches!(
        head_step(&mut raw, b"HTTP/1.1 200 OK\r\n", &target),
        Ok(None)
    ));
    assert!(matches!(
        head_step(&mut raw, b"A: b\r\n\r\nbody", &target),
        Ok(Some(25))
    ));
    assert_eq!(raw, b"HTTP/1.1 200 OK\r\nA: b\r\n\r\nbody".to_vec());
}

#[test]
fn head_step_reports_end_and_limit() {
    let target = make_target(3000);
    let mut raw = Vec::new();
    match head_step(&mut raw, b"", &target) {
        Err(LocalForwardError::StreamEnded(t)) => assert_eq!(t, "127.0.0.1:3000"),
        other => panic!("expected StreamEnded, got {:?}", other),
    }
    let big = vec![b'x'; MAX_HEADER_BUF + 1];
    match head_step(&mut raw, &big, &target) {
        Err(LocalForwardError::ResponseParse(_, why)) => {
            assert_eq!(why, "HTTP response headers exceed 8 KiB limit")
        }
        other => panic!("expected ResponseParse, got {:?}", other),
    }
}

#[test]
fn parse_response_head_ok() {
    let raw = b"HTTP/1.1 200 OK\r\nContent-Length: 5\r\nX-Empty: \r\n\r\nhello";
    let end = find_head_end(raw).unwrap();
    let (status, headers, body) = parse_response_head(raw, end, &make_target(3000)).unwrap();
    assert_eq!(status, 200);
    assert_eq!(
        headers,
        vec![
            Header {
                name: "Content-Length".into(),
                value: "5".into()
            },
            Header {
                name: "X-Empty".into(),
                value: "".into()
            },
        ]
    );
    assert_eq!(body, b"hello".to_vec());
}

#[test]
fn parse_response_head_malformed() {
    let raw = b"THIS IS NOT AN HTTP RESPONSE\r\n\r\n";
    let end = find_head_end(raw).unwrap();
    match parse_response_head(raw, end, &make_target(3000)) {
        Err(LocalForwardError::ResponseParse(t, why)) => {
            assert_eq!(t, "127.0.0.1:3000");
            assert!(why.starts_with("httparse error: "), "{}", why);
        }
        other => panic!("expected ResponseParse, got {:?}", other),
    }
}

#[test]
fn parse_response_head_lossy_values() {
    let raw = b"HTTP/1.1 404 Not Found\r\nX-Bin: a\xffb\r\n\r\n";
    let end = find_head_end(raw).unwrap();
    let (status, headers, body) = parse_response_head(raw, end, &make_target(1)).unwrap();
    assert_eq!(status, 404);
    assert_eq!(headers[0].value, "a\u{fffd}b");
    assert!(body.is_empty());
}

// ── stream decisions ──────────────────────────────────────────────────────

#[test]
fn body_phase_decisions() {
    assert!(matches!(
        body_step(Some(StreamMessage::Payload(Payload::RequestChunk {
            stream_id: 1,
            data: vec![1, 2]
        }))),
        BodyStep::Write(d) if d == vec![1, 2]
    ));
    assert!(matches!(
        body_step(Some(StreamMessage::Payload(Payload::RequestEnd { stream_id: 1 }))),
        BodyStep::Finish
    ));
    assert!(matches!(
        body_step(Some(StreamMessage::Payload(Payload::StreamReset { stream_id: 1 }))),
        BodyStep::Abort
    ));
    assert!(matches!(body_step(Some(StreamMessage::Cancel)), BodyStep::Abort));
    assert!(matches!(body_step(None), BodyStep::Abort));
    assert!(matches!(
        body_step(Some(StreamMessage::Payload(Payload::RelayPong))),
        BodyStep::Skip
    ));
    assert!(stops_response(&StreamMessage::Cancel));
    assert!(stops_response(&StreamMessage::Payload(Payload::StreamReset {
        stream_id: 3
    })));
    assert!(!stops_response(&StreamMessage::Payload(Payload::RequestEnd {
        stream_id: 3
    })));
}

#[test]
fn connection_refused_sends_response_error() {
    let err = LocalForwardError::target_connection_refused("127.0.0.1", 3000);
    let msg = error_response(1, &err);
    match msg.payload {
        Payload::ResponseError {
            stream_id: 1,
            code: ResponseErrorCode::TargetConnectionRefused,
            message,
        } => assert_eq!(
            message,
            "Connection refused to 127.0.0.1:3000 — is your local server running?"
        ),
        other => panic!(
            "expected ResponseError(TargetConnectionRefused), got {:?}",
            other
        ),
    }
}

#[test]
fn other_failures_send_local_io_error() {
    let err = LocalForwardError::stream_ended("127.0.0.1", 4000);
    match error_response(7, &err).payload {
        Payload::ResponseError {
            stream_id: 7,
            code: ResponseErrorCode::LocalIoError,
            message,
        } => assert_eq!(message, "unexpected local stream end on 127.0.0.1:4000"),
        other => panic!("expected ResponseError(LocalIoError), got {:?}", other),
    }
}

#[test]
fn response_opening_messages() {
    let ms = response_opening(2, 200, vec![], b"hello".to_vec());
    assert_eq!(ms.len(), 2);
    assert!(matches!(
        &ms[0].payload,
        Payload::ResponseStart {
            stream_id: 2,
            status_code: 200,
            ..
        }
    ));
    assert!(matches!(&ms[1].payload, Payload::ResponseChunk { data, .. } if data == b"hello"));
    assert_eq!(response_opening(2, 204, vec![], vec![]).len(), 1);
}

#[test]
fn request_head_keeps_every_relay_host_and_adds_none() {
    let headers = vec![
        Header {
            name: "HOST".into(),
            value: "a.example".into(),
        },
        Header {
            name: "host".into(),
            value: "b.example".into(),
        },
    ];
    let head = build_request_head("GET", "/", &headers, &make_target(3000));
    let hosts: Vec<&str> = head
        .lines()
        .filter(|l| l.to_ascii_lowercase().starts_with("host:"))
        .collect();
    assert_eq!(hosts, vec!["HOST: a.example", "host: b.example"]);
}

#[test]
fn request_head_passes_no_hop_by_hop_header() {
    let names = [
        "Connection",
        "UPGRADE",
        "Sec-WebSocket-Key",
        "sec-websocket-version",
        "Sec-WebSocket-Extensions",
        "Sec-WebSocket-Protocol",
        "Sec-WebSocket-Accept",
        "SEC-WEBSOCKET-ANYTHING",
        "TE",
        "Trailer",
        "Transfer-Encoding",
    ];
    let headers: Vec<Header> = names
        .iter()
        .map(|n| Header {
            name: n.to_string(),
            value: "x".into(),
        })
        .collect();
    let head = build_request_head("GET", "/", &headers, &make_target(9000));
    assert_eq!(
        head,
        "GET / HTTP/1.1\r\nHost: 127.0.0.1:9000\r\nX-Forwarded-For: unknown\r\nX-Forwarded-Proto: http\r\nX-Forwarded-Host: 127.0.0.1:9000\r\nConnection: close\r\n\r\n"
    );
}

#[test]
fn request_head_injects_forwarded_for_unless_sent() {
    let head = build_request_head("GET", "/", &[], &make_target(5000));
    assert!(head.contains("X-Forwarded-For: unknown\r\n"));
    let headers = vec![Header {
        name: "x-forwarded-for".into(),
        value: "203.0.113.7".into(),
    }];
    let head = build_request_head("GET", "/", &headers, &make_target(5000));
    assert!(head.contains("x-forwarded-for: 203.0.113.7\r\n"));
    assert!(!head.contains("unknown"));
}

#[test]
fn head_end_accepts_crlf_and_lf_blank_lines() {
    assert_eq!(find_head_end(b"HTTP/1.1 204 No Content\n\n"), Some(25));
    assert_eq!(find_head_end(b"HTTP/1.1 200 OK\r\n\r\nbody"), Some(19));
    assert_eq!(find_head_end(b"HTTP/1.1 200 OK\r\n"), None);
    assert_eq!(find_head_end(b"\n"), None);
    assert_eq!(find_head_end(b""), None);
    let target = make_target(3000);
    let mut raw = Vec::new();
    let end = head_step(&mut raw, b"HTTP/1.1 204 No Content\n\n", &target)
        .unwrap()
        .unwrap();
    assert_eq!(end, 25);
    let (status, headers, body) = parse_response_head(&raw, end, &target).unwrap();
    assert_eq!(status, 204);
    assert!(headers.is_empty());
    assert!(body.is_empty());
}
