//! Error types of the relay connection, the local forwarding and the wire
//! protocol, with the messages that users see.

use vstd::prelude::*;

use crate::cli::host_port_text;
use crate::protocol::{reject_debug_text, RejectReason};
use crate::text::{concat2, concat3, decimal, push_decimal};
use crate::time::{duration_debug_text, Duration};

verus! {

// ── Relay-level errors ────────────────────────────────────────────────────────
/// Failures of the connection to the relay. Errors that come from I/O or
/// decoding carry the text of the underlying error.
#[derive(Debug, Clone)]
pub enum RelayError {
    Connect(String, String),
    HandshakeTimeout(String, Duration),
    RegistrationRejected(RejectReason),
    UnexpectedClose(String),
    InvalidUrl(String, String),
    Io(String),
    Serialization(String),
}

/// The message of a relay error.
pub open spec fn relay_error_text(e: RelayError) -> Seq<char> {
    match e {
        RelayError::Connect(relay, why) => "connection to relay "@ + relay@ + " failed: "@ + why@,
        RelayError::HandshakeTimeout(relay, d) => "handshake with relay "@ + relay@
            + " timed out after "@ + duration_debug_text(d@),
        RelayError::RegistrationRejected(r) => "registration rejected by relay: "@
            + reject_debug_text(r),
        RelayError::UnexpectedClose(why) => "unexpected relay WebSocket close: "@ + why@,
        RelayError::InvalidUrl(url, why) => "invalid relay URL '"@ + url@ + "': "@ + why@,
        RelayError::Io(why) => "relay WebSocket I/O error: "@ + why@,
        RelayError::Serialization(why) => "relay message serialization error: "@ + why@,
    }
}

impl RelayError {
    /// The error's message.
    pub fn message(&self) -> (m: String)
        ensures
            m@ == relay_error_text(*self),
    {
        match self {
            RelayError::Connect(relay, why) => {
                let mut m = concat3("connection to relay ", relay.as_str(), " failed: ");
                m.append(why.as_str());
                m
            },
            RelayError::HandshakeTimeout(relay, d) => {
                let mut m = concat3("handshake with relay ", relay.as_str(), " timed out after ");
                let t = d.debug_string();
                m.append(t.as_str());
                m
            },
            RelayError::RegistrationRejected(r) => {
                let mut m = "registration rejected by relay: ".to_owned();
                m.append(r.debug_name());
                m
            },
            RelayError::UnexpectedClose(why) => concat2("unexpected relay WebSocket close: ", why.as_str()),
            RelayError::InvalidUrl(url, why) => {
                let mut m = concat3("invalid relay URL '", url.as_str(), "': ");
                m.append(why.as_str());
                m
            },
            RelayError::Io(why) => concat2("relay WebSocket I/O error: ", why.as_str()),
            RelayError::Serialization(why) => concat2("relay message serialization error: ", why.as_str()),
        }
    }
}

/// The headline shown for a fatal relay error.
pub open spec fn relay_error_title(e: RelayError) -> Seq<char> {
    match e {
        RelayError::Connect(..) => "Could not reach relay"@,
        RelayError::HandshakeTimeout(..) => "Relay did not answer"@,
        RelayError::RegistrationRejected(_) => "Relay refused the tunnel"@,
        RelayError::UnexpectedClose(_) => "Relay closed the connection"@,
        RelayError::InvalidUrl(..) => "Invalid relay address"@,
        RelayError::Io(_) => "Relay connection failed"@,
        RelayError::Serialization(_) => "Relay sent an unreadable message"@,
    }
}

/// The fix-it hint shown under a fatal relay error.
pub open spec fn relay_error_hint(e: RelayError) -> Seq<char> {
    match e {
        RelayError::Connect(..) => "Check the relay address and your network connection"@,
        RelayError::HandshakeTimeout(..) => "Check the relay address; the relay may be overloaded"@,
        RelayError::RegistrationRejected(r) => match r {
            RejectReason::SubdomainTaken => "Choose another subdomain with -s"@,
            RejectReason::UnsupportedClient => "Update localshare to a newer version"@,
            _ => "Try again later or use another relay with -r"@,
        },
        RelayError::UnexpectedClose(_) => "Check the relay address and try again"@,
        RelayError::InvalidUrl(..) => "Use host, host:port, or a ws:// or wss:// URL"@,
        RelayError::Io(_) => "Check your network connection"@,
        RelayError::Serialization(_) => "Make sure the relay speaks the localshare protocol"@,
    }
}

impl RelayError {
    /// The headline shown when this error ends the tunnel.
    pub fn title(&self) -> (t: &'static str)
        ensures
            t@ == relay_error_title(*self),
    {
        match self {
            RelayError::Connect(..) => "Could not reach relay",
            RelayError::HandshakeTimeout(..) => "Relay did not answer",
            RelayError::RegistrationRejected(_) => "Relay refused the tunnel",
            RelayError::UnexpectedClose(_) => "Relay closed the connection",
            RelayError::InvalidUrl(..) => "Invalid relay address",
            RelayError::Io(_) => "Relay connection failed",
            RelayError::Serialization(_) => "Relay sent an unreadable message",
        }
    }

    /// A fix-it hint for the user.
    pub fn actionable_hint(&self) -> (h: &'static str)
        ensures
            h@ == relay_error_hint(*self),
    {
        match self {
            RelayError::Connect(..) => "Check the relay address and your network connection",
            RelayError::HandshakeTimeout(..) => "Check the relay address; the relay may be overloaded",
            RelayError::RegistrationRejected(r) => match r {
                RejectReason::SubdomainTaken => "Choose another subdomain with -s",
                RejectReason::UnsupportedClient => "Update localshare to a newer version",
                _ => "Try again later or use another relay with -r",
            },
            RelayError::UnexpectedClose(_) => "Check the relay address and try again",
            RelayError::InvalidUrl(..) => "Use host, host:port, or a ws:// or wss:// URL",
            RelayError::Io(_) => "Check your network connection",
            RelayError::Serialization(_) => "Make sure the relay speaks the localshare protocol",
        }
    }
}

// ── Local forwarding errors ───────────────────────────────────────────────────
/// Failures while forwarding one request to the local target. The first field
/// is always the target as `host:port`.
#[derive(Debug, Clone)]
pub enum LocalForwardError {
    TargetConnectionRefused(String),
    /// The target and the text of the I/O error.
    TcpIo(String, String),
    ResponseParse(String, String),
    StreamEnded(String),
}

/// The message of a forwarding error.
pub open spec fn forward_error_text(e: LocalForwardError) -> Seq<char> {
    match e {
        LocalForwardError::TargetConnectionRefused(t) => "connection refused to local target "@
            + t@,
        LocalForwardError::TcpIo(t, why) => "local TCP I/O error while forwarding to "@ + t@
            + ": "@ + why@,
        LocalForwardError::ResponseParse(t, why) => "failed to parse local HTTP response from "@
            + t@ + ": "@ + why@,
        LocalForwardError::StreamEnded(t) => "unexpected local stream end on "@ + t@,
    }
}

/// The fix-it hint shown under a forwarding error.
pub open spec fn forward_error_hint(e: LocalForwardError) -> Seq<char> {
    match e {
        LocalForwardError::TargetConnectionRefused(t) => "Is your local server running on "@ + t@
            + "?"@,
        LocalForwardError::TcpIo(t, _) => "Check that the local server on "@ + t@
            + " accepts connections"@,
        LocalForwardError::ResponseParse(t, _) => "Make sure "@ + t@ + " answers with HTTP/1.1"@,
        LocalForwardError::StreamEnded(t) => "The local server on "@ + t@
            + " closed the connection before responding"@,
    }
}

fn host_port(host: &str, port: u16) -> (s: String)
    ensures
        s@ == host_port_text(host@, port),
{
    let mut s = host.to_owned();
    s.append(":");
    push_decimal(&mut s, port as u64);
    s
}

impl LocalForwardError {
    // ── Constructor helpers ───────────────────────────────────────────────────
    pub fn target_connection_refused(host: &str, port: u16) -> (e: Self)
        ensures
            e matches LocalForwardError::TargetConnectionRefused(t) && t@ == host_port_text(
                host@,
                port,
            ),
    {
        LocalForwardError::TargetConnectionRefused(host_port(host, port))
    }

    /// `source` is the text of the I/O error.
    pub fn tcp_io(host: &str, port: u16, source: &str) -> (e: Self)
        ensures
            e matches LocalForwardError::TcpIo(t, why) && t@ == host_port_text(host@, port)
                && why@ == source@,
    {
        LocalForwardError::TcpIo(host_port(host, port), source.to_owned())
    }

    pub fn response_parse(host: &str, port: u16, reason: &str) -> (e: Self)
        ensures
            e matches LocalForwardError::ResponseParse(t, why) && t@ == host_port_text(host@, port)
                && why@ == reason@,
    {
        LocalForwardError::ResponseParse(host_port(host, port), reason.to_owned())
    }

    pub fn stream_ended(host: &str, port: u16) -> (e: Self)
        ensures
            e matches LocalForwardError::StreamEnded(t) && t@ == host_port_text(host@, port),
    {
        LocalForwardError::StreamEnded(host_port(host, port))
    }

    /// The error's message.
    pub fn message(&self) -> (m: String)
        ensures
            m@ == forward_error_text(*self),
    {
        match self {
            LocalForwardError::TargetConnectionRefused(t) => concat2("connection refused to local target ", t.as_str()),
            LocalForwardError::TcpIo(t, why) => {
                let mut m = concat3("local TCP I/O error while forwarding to ", t.as_str(), ": ");
                m.append(why.as_str());
                m
            },
            LocalForwardError::ResponseParse(t, why) => {
                let mut m = concat3(
                    "failed to parse local HTTP response from ",
                    t.as_str(),
                    ": ",
                );
                m.append(why.as_str());
                m
            },
            LocalForwardError::StreamEnded(t) => concat2("unexpected local stream end on ", t.as_str()),
        }
    }

    /// A fix-it hint for the user.
    pub fn actionable_hint(&self) -> (h: Option<String>)
        ensures
            h matches Some(s) && s@ == forward_error_hint(*self),
    {
        match self {
            LocalForwardError::TargetConnectionRefused(t) => Some(
                concat3("Is your local server running on ", t.as_str(), "?"),
            ),
            LocalForwardError::TcpIo(t, _) => Some(
                concat3("Check that the local server on ", t.as_str(), " accepts connections"),
            ),
            LocalForwardError::ResponseParse(t, _) => Some(
                concat3("Make sure ", t.as_str(), " answers with HTTP/1.1"),
            ),
            LocalForwardError::StreamEnded(t) => Some(
                concat3(
                    "The local server on ",
                    t.as_str(),
                    " closed the connection before responding",
                ),
            ),
        }
    }
}

// ── Protocol-level errors ─────────────────────────────────────────────────────
/// Failures to read a relay message.
#[derive(Debug, Clone)]
pub enum ProtocolError {
    /// The text of the decoding error.
    Serialization(String),
    InvalidFrame(String),
    VersionMismatch { expected: u8, got: u8 },
}

/// The message of a protocol error.
pub open spec fn protocol_error_text(e: ProtocolError) -> Seq<char> {
    match e {
        ProtocolError::Serialization(why) => "serialization error: "@ + why@,
        ProtocolError::InvalidFrame(why) => "invalid message frame: "@ + why@,
        ProtocolError::VersionMismatch { expected, got } => "protocol version mismatch: expected "@
            + decimal(expected as nat) + ", got "@ + decimal(got as nat),
    }
}

impl ProtocolError {
    /// The error's message.
    pub fn message(&self) -> (m: String)
        ensures
            m@ == protocol_error_text(*self),
    {
        match self {
            ProtocolError::Serialization(why) => concat2("serialization error: ", why.as_str()),
            ProtocolError::InvalidFrame(why) => concat2("invalid message frame: ", why.as_str()),
            ProtocolError::VersionMismatch { expected, got } => {
                let mut m = "protocol version mismatch: expected ".to_owned();
                push_decimal(&mut m, *expected as u64);
                m.append(", got ");
                push_decimal(&mut m, *got as u64);
                m
            },
        }
    }
}

} // verus!
