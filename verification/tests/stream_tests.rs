use localshare::cli::LocalTarget;
use localshare::error::LocalForwardError;
use localshare::protocol::{Payload, ResponseErrorCode, StreamMessage};
use localshare::stream::{ForwardEvent, ForwardPhase, StreamForwarder};

fn target() -> LocalTarget {
    LocalTarget {
        host: "127.0.0.1".into(),
        port: 3000,
    }
}

fn kinds(ps: &[localshare::protocol::Message]) -> Vec<&'static str> {
    ps.iter()
        .map(|m| match &m.payload {
            Payload::ResponseStart { .. } => "start",
            Payload::ResponseChunk { .. } => "chunk",
            Payload::ResponseEnd { .. } => "end",
            Payload::ResponseError { .. } => "error",
            _ => "other",
        })
        .collect()
}

#[test]
fn stream_full_reply_in_order() {
    let mut f = StreamForwarder::new(7, target());
    let s = f.step(ForwardEvent::Relay(Some(StreamMessage::Payload(
        Payload::RequestChunk {
            stream_id: 7,
            data: b"abc".to_vec(),
        },
    ))));
    assert_eq!(s.write, Some(b"abc".to_vec()));
    assert!(s.send.is_empty() && !s.close_write);
    let s = f.step(ForwardEvent::Relay(Some(StreamMessage::Payload(
        Payload::RequestEnd { stream_id: 7 },
    ))));
    assert!(s.close_write && s.write.is_none());
    assert_eq!(f.phase, ForwardPhase::ReadingHead);
    let s = f.step(ForwardEvent::Read(b"HTTP/1.1 200 OK\r\nContent-Length: 4\r\n".to_vec()));
    assert!(s.send.is_empty());
    let s = f.step(ForwardEvent::Read(b"\r\nhi".to_vec()));
    assert_eq!(kinds(&s.send), vec!["start", "chunk"]);
    match &s.send[0].payload {
        Payload::ResponseStart {
            stream_id,
            status_code,
            headers,
        } => {
            assert_eq!((*stream_id, *status_code), (7, 200));
            assert_eq!(headers[0].name, "Content-Length");
        }
        _ => unreachable!(),
    }
    let s = f.step(ForwardEvent::Read(b"!!".to_vec()));
    assert_eq!(kinds(&s.send), vec!["chunk"]);
    let s = f.step(ForwardEvent::Read(Vec::new()));
    assert_eq!(kinds(&s.send), vec!["end"]);
    assert_eq!(f.phase, ForwardPhase::Finished);
    let s = f.step(ForwardEvent::Failed(LocalForwardError::stream_ended("h", 1)));
    assert!(s.send.is_empty());
}

#[test]
fn stream_failures_send_one_error() {
    let mut f = StreamForwarder::new(1, target());
    let s = f.step(ForwardEvent::Failed(
        LocalForwardError::target_connection_refused("127.0.0.1", 3000),
    ));
    assert_eq!(kinds(&s.send), vec!["error"]);
    match &s.send[0].payload {
        Payload::ResponseError { code, message, .. } => {
            assert_eq!(*code, ResponseErrorCode::TargetConnectionRefused);
            assert_eq!(
                message,
                "Connection refused to 127.0.0.1:3000 — is your local server running?"
            );
        }
        _ => unreachable!(),
    }
    assert!(f.step(ForwardEvent::Read(Vec::new())).send.is_empty());

    // The local server closes before the head is complete.
    let mut f = StreamForwarder::new(2, target());
    f.step(ForwardEvent::Relay(Some(StreamMessage::Payload(
        Payload::RequestEnd { stream_id: 2 },
    ))));
    let s = f.step(ForwardEvent::Read(Vec::new()));
    match &s.send[0].payload {
        Payload::ResponseError { code, message, .. } => {
            assert_eq!(*code, ResponseErrorCode::LocalIoError);
            assert_eq!(message, "unexpected local stream end on 127.0.0.1:3000");
        }
        _ => panic!("expected error"),
    }

    // A malformed head.
    let mut f = StreamForwarder::new(3, target());
    f.step(ForwardEvent::Relay(Some(StreamMessage::Payload(
        Payload::RequestEnd { stream_id: 3 },
    ))));
    let s = f.step(ForwardEvent::Read(b"NOT HTTP\r\n\r\n".to_vec()));
    assert_eq!(kinds(&s.send), vec!["error"]);
    assert_eq!(f.phase, ForwardPhase::Finished);
}

#[test]
fn stream_cancel_sends_nothing() {
    let mut f = StreamForwarder::new(4, target());
    let s = f.step(ForwardEvent::Relay(Some(StreamMessage::Cancel)));
    assert!(s.send.is_empty());
    assert_eq!(f.phase, ForwardPhase::Finished);

    let mut f = StreamForwarder::new(5, target());
    let s = f.step(ForwardEvent::Relay(None));
    assert!(s.send.is_empty());
    assert_eq!(f.phase, ForwardPhase::Finished);

    // A reset while the body streams stops without ResponseEnd.
    let mut f = StreamForwarder::new(6, target());
    f.step(ForwardEvent::Relay(Some(StreamMessage::Payload(
        Payload::RequestEnd { stream_id: 6 },
    ))));
    f.step(ForwardEvent::Read(b"HTTP/1.1 204 No Content\n\n".to_vec()));
    assert_eq!(f.phase, ForwardPhase::StreamingBody);
    let s = f.step(ForwardEvent::Relay(Some(StreamMessage::Payload(
        Payload::StreamReset { stream_id: 6 },
    ))));
    assert!(s.send.is_empty());
    assert_eq!(f.phase, ForwardPhase::Finished);
}
