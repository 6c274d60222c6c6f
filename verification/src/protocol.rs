//! The relay wire protocol: messages, payloads, frames and relay addresses.
//!
//! Messages travel as JSON inside WebSocket text or binary frames. The
//! encoding itself is done around the library; here stand the rules on which
//! frames carry a message, which protocol version is accepted, and how a relay
//! address is turned into a WebSocket endpoint.

use vstd::prelude::*;

use crate::error::{ProtocolError, RelayError};
use crate::text::{
    concat2, concat3, decimal, is_space, opt_chars, push_decimal, trim, trim_end, trim_start, trimmed,
};

pub use crate::cli::LocalTarget;

verus! {

pub const PROTOCOL_VERSION: u8 = 1;

// ── Top-level wire message ────────────────────────────────────────────────────
#[derive(Debug, Clone, PartialEq, Eq)]
pub struct Message {
    pub version: u8,
    pub payload: Payload,
}

/// A WebSocket frame as the relay connection delivers it.
#[derive(Debug, Clone, PartialEq, Eq)]
pub enum WsFrame {
    Text(String),
    Binary(Vec<u8>),
    Ping(Vec<u8>),
    Pong(Vec<u8>),
    Close,
    /// A raw frame, never produced while reading messages.
    Frame,
}

/// What a frame hands to the message decoder: the bytes of a text or binary
/// frame, or the message of the `InvalidFrame` error for any other frame.
pub open spec fn frame_bytes_outcome(frame: WsFrame) -> Result<Seq<u8>, Seq<char>> {
    match frame {
        WsFrame::Text(s) => Ok(vstd::utf8::encode_utf8(s@)),
        WsFrame::Binary(b) => Ok(b@),
        WsFrame::Ping(_) | WsFrame::Pong(_) | WsFrame::Close => Err(
            "expected text or binary frame, got control frame"@,
        ),
        WsFrame::Frame => Err("raw frame not supported"@),
    }
}

impl Message {
    /// The message that `new` builds.
    pub open spec fn new_spec(payload: Payload) -> Self {
        Message { version: PROTOCOL_VERSION, payload }
    }

    pub fn new(payload: Payload) -> (m: Self)
        ensures
            m == Message::new_spec(payload),
    {
        Message { version: PROTOCOL_VERSION, payload }
    }

    /// The bytes of the JSON document that a frame carries. Control frames and
    /// raw frames carry none.
    pub fn frame_bytes(frame: &WsFrame) -> (r: Result<Vec<u8>, ProtocolError>)
        ensures
            match r {
                Ok(b) => frame_bytes_outcome(*frame) == Ok::<Seq<u8>, Seq<char>>(b@),
                Err(e) => e matches ProtocolError::InvalidFrame(why) && frame_bytes_outcome(*frame)
                    == Err::<Seq<u8>, Seq<char>>(why@),
            },
    {
        match frame {
            WsFrame::Text(s) => Ok(vstd::slice::slice_to_vec(s.as_str().as_bytes())),
            WsFrame::Binary(b) => Ok(b.clone()),
            WsFrame::Ping(_) | WsFrame::Pong(_) | WsFrame::Close => Err(
                ProtocolError::InvalidFrame(
                    "expected text or binary frame, got control frame".to_owned(),
                ),
            ),
            WsFrame::Frame => Err(ProtocolError::InvalidFrame("raw frame not supported".to_owned())),
        }
    }

    /// Accepts a decoded message only when it speaks this protocol version.
    pub fn accept_version(self) -> (r: Result<Self, ProtocolError>)
        ensures
            self.version == PROTOCOL_VERSION ==> r == Ok::<Self, ProtocolError>(self),
            self.version != PROTOCOL_VERSION ==> r == Err::<Self, ProtocolError>(
                ProtocolError::VersionMismatch { expected: PROTOCOL_VERSION, got: self.version },
            ),
    {
        if self.version != PROTOCOL_VERSION {
            Err(ProtocolError::VersionMismatch { expected: PROTOCOL_VERSION, got: self.version })
        } else {
            Ok(self)
        }
    }
}

// ── Payload variants ──────────────────────────────────────────────────────────
/// All messages exchanged between client and relay.
///
/// Direction guide:
///   Client → Relay: `Register`, `ClientPing`, `ResponseStart`, `ResponseChunk`,
///                   `ResponseEnd`, `ResponseError`, `Unregister`
///   Relay → Client: `Registered`, `RegisterRejected`, `RelayPong`,
///                   `RequestStart`, `RequestChunk`, `RequestEnd`, `StreamReset`
#[derive(Debug, Clone, PartialEq, Eq)]
pub enum Payload {
    // ── Client → Relay ────────────────────────────────────────────────────────
    Register {
        requested_subdomain: Option<String>,
        client_name: String,
        client_version: String,
        heartbeat_interval_ms: u64,
    },
    ClientPing,
    ResponseStart { stream_id: u64, status_code: u16, headers: Vec<Header> },
    ResponseChunk { stream_id: u64, data: Vec<u8> },
    ResponseEnd { stream_id: u64 },
    ResponseError { stream_id: u64, code: ResponseErrorCode, message: String },
    Unregister { reason: Option<String> },
    // ── Relay → Client ────────────────────────────────────────────────────────
    Registered { subdomain: String, public_url: String, heartbeat_interval_ms: u64 },
    RegisterRejected { reason: RejectReason },
    RelayPong,
    RequestStart { stream_id: u64, method: String, path: String, headers: Vec<Header> },
    RequestChunk { stream_id: u64, data: Vec<u8> },
    RequestEnd { stream_id: u64 },
    StreamReset { stream_id: u64 },
}

// ── Supporting types ──────────────────────────────────────────────────────────
/// A single HTTP header preserving both name and value, including duplicates.
#[derive(Debug, Clone, PartialEq, Eq)]
pub struct Header {
    pub name: String,
    pub value: String,
}

/// Application-level error codes sent from the client to the relay so the
/// relay can synthesise an appropriate HTTP error response.
#[derive(Debug, Clone, Copy, PartialEq, Eq)]
pub enum ResponseErrorCode {
    TargetConnectionRefused,
    TargetTimeout,
    LocalIoError,
}

/// Reason why the relay rejected a registration request.
#[derive(Debug, Clone, Copy, PartialEq, Eq)]
pub enum RejectReason {
    SubdomainTaken,
    ServerFull,
    UnsupportedClient,
    Other,
}

/// The variant name, as `{:?}` prints it.
pub open spec fn reject_debug_text(r: RejectReason) -> Seq<char> {
    match r {
        RejectReason::SubdomainTaken => "SubdomainTaken"@,
        RejectReason::ServerFull => "ServerFull"@,
        RejectReason::UnsupportedClient => "UnsupportedClient"@,
        RejectReason::Other => "Other"@,
    }
}

/// The sentence shown to users.
pub open spec fn reject_description_text(r: RejectReason) -> Seq<char> {
    match r {
        RejectReason::SubdomainTaken => "subdomain already taken"@,
        RejectReason::ServerFull => "relay server is full"@,
        RejectReason::UnsupportedClient => "client version not supported"@,
        RejectReason::Other => "registration denied by relay"@,
    }
}

impl RejectReason {
    pub fn debug_name(&self) -> (s: &'static str)
        ensures
            s@ == reject_debug_text(*self),
    {
        match self {
            RejectReason::SubdomainTaken => "SubdomainTaken",
            RejectReason::ServerFull => "ServerFull",
            RejectReason::UnsupportedClient => "UnsupportedClient",
            RejectReason::Other => "Other",
        }
    }

    pub fn description(&self) -> (s: &'static str)
        ensures
            s@ == reject_description_text(*self),
    {
        match self {
            RejectReason::SubdomainTaken => "subdomain already taken",
            RejectReason::ServerFull => "relay server is full",
            RejectReason::UnsupportedClient => "client version not supported",
            RejectReason::Other => "registration denied by relay",
        }
    }
}

// ── Relay endpoint ────────────────────────────────────────────────────────────
/// A parsed and validated relay server address.
#[derive(Debug, Clone, PartialEq, Eq)]
pub struct RelayEndpoint {
    pub scheme: String,
    pub host: String,
    pub port: u16,
    pub path: String,
}

/// The endpoint as `(scheme, host, port, path)`.
pub open spec fn endpoint_view(ep: RelayEndpoint) -> (Seq<char>, Seq<char>, u16, Seq<char>) {
    (ep.scheme@, ep.host@, ep.port, ep.path@)
}

/// `scheme://host:port`, as the endpoint is shown to users.
pub open spec fn endpoint_label_text(ep: RelayEndpoint) -> Seq<char> {
    ep.scheme@ + "://"@ + ep.host@ + ":"@ + decimal(ep.port as nat)
}

impl RelayEndpoint {
    /// Produces the full WebSocket URL string suitable for connecting.
    pub fn ws_url(&self) -> (s: String)
        ensures
            s@ == ws_url_text(self.scheme@, self.host@, self.port, self.path@),
    {
        let mut s = self.display_string();
        s.append(self.path.as_str());
        s
    }

    /// `scheme://host:port`.
    pub fn display_string(&self) -> (s: String)
        ensures
            s@ == endpoint_label_text(*self),
    {
        let mut s = concat3(self.scheme.as_str(), "://", self.host.as_str());
        s.append(":");
        push_decimal(&mut s, self.port as u64);
        s
    }
}

/// The parts of a parsed URL that a relay address uses:
/// `(scheme, host, explicit non-default port, path, query)`.
pub struct UrlParts {
    pub scheme: String,
    pub host: Option<String>,
    pub port: Option<u16>,
    pub path: String,
    pub query: Option<String>,
}

pub open spec fn url_parts_view(p: UrlParts) -> (
    Seq<char>,
    Option<Seq<char>>,
    Option<u16>,
    Seq<char>,
    Option<Seq<char>>,
) {
    (p.scheme@, opt_chars(p.host), p.port, p.path@, opt_chars(p.query))
}

pub open spec fn url_result_view(r: Result<UrlParts, String>) -> Result<
    (Seq<char>, Option<Seq<char>>, Option<u16>, Seq<char>, Option<Seq<char>>),
    Seq<char>,
> {
    match r {
        Ok(p) => Ok(url_parts_view(p)),
        Err(e) => Err(e@),
    }
}

/// What `url::Url::parse` gives for a text: the parts that `url_parts_view`
/// lists (scheme, `host_str`, `port`, `path`, `query`), or the text of the
/// parse error.
pub uninterp spec fn url_parse_outcome(input: Seq<char>) -> Result<
    (Seq<char>, Option<Seq<char>>, Option<u16>, Seq<char>, Option<Seq<char>>),
    Seq<char>,
>;

/// Calls `url::Url::parse` and keeps `scheme()`, `host_str()`, `port()`,
/// `path()` and `query()` of the result, or the `Display` text of the error.
/// The contract claims only that the outcome is a function of the text.
#[verifier::external_body]
fn parse_url(input: &str) -> (r: Result<UrlParts, String>)
    ensures
        url_result_view(r) == url_parse_outcome(input@),
{
    match url::Url::parse(input) {
        Ok(u) => Ok(
            UrlParts {
                scheme: u.scheme().to_string(),
                host: u.host_str().map(|h| h.to_string()),
                port: u.port(),
                path: u.path().to_string(),
                query: u.query().map(|q| q.to_string()),
            },
        ),
        Err(e) => Err(e.to_string()),
    }
}

/// The path sent to the relay: `/` for an empty path, a leading `/` added
/// when missing, and `?query` appended when the query is not empty.
pub open spec fn normalized_path(path: Seq<char>, query: Option<Seq<char>>) -> Seq<char> {
    let p0 = if path.len() == 0 {
        seq!['/']
    } else {
        path
    };
    let p1 = if p0[0] != '/' {
        seq!['/'] + p0
    } else {
        p0
    };
    match query {
        Some(q) => if q.len() > 0 {
            p1 + seq!['?'] + q
        } else {
            p1
        },
        None => p1,
    }
}

/// The endpoint built from a parsed URL, or the reason of the `InvalidUrl`
/// error: only `ws` and `wss` are accepted, a host is required, and the port
/// defaults to 443 for `wss` and 80 otherwise.
pub open spec fn endpoint_outcome(
    parsed: Result<
        (Seq<char>, Option<Seq<char>>, Option<u16>, Seq<char>, Option<Seq<char>>),
        Seq<char>,
    >,
) -> Result<(Seq<char>, Seq<char>, u16, Seq<char>), Seq<char>> {
    match parsed {
        Err(e) => Err(e),
        Ok((scheme, host, port, path, query)) => if scheme != "ws"@ && scheme != "wss"@ {
            Err("unsupported scheme '"@ + scheme + "', use 'ws' or 'wss'"@)
        } else {
            match host {
                None => Err("missing host"@),
                Some(h) => Ok(
                    (
                        scheme,
                        h,
                        match port {
                            Some(p) => p,
                            None => if scheme == "wss"@ {
                                443u16
                            } else {
                                80u16
                            },
                        },
                        normalized_path(path, query),
                    ),
                ),
            }
        },
    }
}

/// `r` is the endpoint that `outcome` describes, or an `InvalidUrl` error on
/// `input` with the reason that `outcome` gives.
pub open spec fn relay_result_is(
    r: Result<RelayEndpoint, RelayError>,
    input: Seq<char>,
    outcome: Result<(Seq<char>, Seq<char>, u16, Seq<char>), Seq<char>>,
) -> bool {
    match r {
        Ok(ep) => outcome == Ok::<(Seq<char>, Seq<char>, u16, Seq<char>), Seq<char>>(
            endpoint_view(ep),
        ),
        Err(e) => e matches RelayError::InvalidUrl(u, why) && u@ == input && outcome == Err::<
            (Seq<char>, Seq<char>, u16, Seq<char>),
            Seq<char>,
        >(why@),
    }
}

fn str_is(s: &String, lit: &str) -> (b: bool)
    ensures
        b == (s@ == lit@),
{
    let l = lit.to_owned();
    *s == l
}

/// Builds the relay endpoint from the parse result of `input` (already
/// trimmed, scheme added).
pub fn endpoint_from_url(input: &str, parsed: Result<UrlParts, String>) -> (r: Result<
    RelayEndpoint,
    RelayError,
>)
    ensures
        relay_result_is(r, input@, endpoint_outcome(url_result_view(parsed))),
{
    match parsed {
        Err(e) => Err(RelayError::InvalidUrl(input.to_owned(), e)),
        Ok(parts) => {
            let is_ws = str_is(&parts.scheme, "ws");
            let is_wss = str_is(&parts.scheme, "wss");
            if !is_ws && !is_wss {
                return Err(
                    RelayError::InvalidUrl(
                        input.to_owned(),
                        concat3(
                            "unsupported scheme '",
                            parts.scheme.as_str(),
                            "', use 'ws' or 'wss'",
                        ),
                    ),
                );
            }
            let host = match &parts.host {
                None => {
                    return Err(RelayError::InvalidUrl(input.to_owned(), "missing host".to_owned()));
                },
                Some(h) => h.clone(),
            };
            let port: u16 = match parts.port {
                Some(p) => p,
                None => if is_wss {
                    443
                } else {
                    80
                },
            };
            let mut path = if parts.path.as_str().is_empty() {
                "/".to_owned()
            } else {
                parts.path.clone()
            };
            proof {
                reveal_strlit("/");
                reveal_strlit("?");
            }
            if path.as_str().get_char(0) != '/' {
                path = concat2("/", path.as_str());
            }
            let ghost p1 = path@;
            match &parts.query {
                Some(q) => {
                    if !q.as_str().is_empty() {
                        path = concat3(path.as_str(), "?", q.as_str());
                    }
                },
                None => {},
            }
            assert(path@ =~= normalized_path(parts.path@, opt_chars(parts.query)));
            Ok(RelayEndpoint { scheme: parts.scheme.clone(), host, port, path })
        },
    }
}

/// Whether `t` holds `://`.
pub open spec fn has_scheme_separator(t: Seq<char>) -> bool {
    exists|i: int| 0 <= i && i + 3 <= t.len() && #[trigger] t[i] == ':' && t[i + 1] == '/' && t[i + 2] == '/'
}

/// A relay address with `ws://` put in front when it names no scheme.
pub open spec fn with_default_scheme(t: Seq<char>) -> Seq<char> {
    if has_scheme_separator(t) {
        t
    } else {
        "ws://"@ + t
    }
}

fn contains_scheme_separator(t: &str) -> (b: bool)
    ensures
        b == has_scheme_separator(t@),
{
    let v = crate::text::chars_of(t);
    let n = v.len();
    let mut i: usize = 0;
    while n >= 3 && i <= n - 3
        invariant
            i <= n,
            n == v@.len(),
            v@ == t@,
            forall|j: int|
                0 <= j < i && j + 3 <= n ==> !(#[trigger] v@[j] == ':' && v@[j + 1] == '/' && v@[j
                    + 2] == '/'),
        decreases n - i,
    {
        if v[i] == ':' && v[i + 1] == '/' && v[i + 2] == '/' {
            return true;
        }
        i = i + 1;
    }
    false
}

/// Parse a relay address into a validated `RelayEndpoint`.
///
/// Accepts a bare hostname (`relay.example.com`), host and port
/// (`relay.example.com:4433`), or a full `ws://` / `wss://` URL. Without a
/// scheme, `ws://` is assumed. Surrounding white space is ignored.
pub fn parse_relay(input: &str) -> (r: Result<RelayEndpoint, RelayError>)
    ensures
        trimmed(input@).len() == 0 ==> (r matches Err(RelayError::InvalidUrl(u, why)) && u@
            == trimmed(input@) && why@ == "relay address cannot be empty"@),
        trimmed(input@).len() > 0 ==> relay_result_is(
            r,
            trimmed(input@),
            endpoint_outcome(url_parse_outcome(with_default_scheme(trimmed(input@)))),
        ),
{
    let t = trim(input);
    if t.is_empty() {
        return Err(
            RelayError::InvalidUrl(t.to_owned(), "relay address cannot be empty".to_owned()),
        );
    }
    let with_scheme = if contains_scheme_separator(t) {
        t.to_owned()
    } else {
        concat2("ws://", t)
    };
    let parsed = parse_url(with_scheme.as_str());
    endpoint_from_url(t, parsed)
}

/// The URL that `ws_url` writes for an endpoint with these parts.
pub open spec fn ws_url_text(scheme: Seq<char>, host: Seq<char>, port: u16, path: Seq<char>) -> Seq<
    char,
> {
    scheme + "://"@ + host + ":"@ + decimal(port as nat) + path
}

/// Every relay endpoint, whatever the url crate made of the address, speaks
/// `ws` or `wss`, and its path starts with `/`.
pub proof fn lemma_endpoint_shape(
    parsed: Result<
        (Seq<char>, Option<Seq<char>>, Option<u16>, Seq<char>, Option<Seq<char>>),
        Seq<char>,
    >,
)
    ensures
        endpoint_outcome(parsed) matches Ok((scheme, _h, _p, path)) ==> (scheme == "ws"@ || scheme
            == "wss"@) && path.len() > 0 && path[0] == '/',
{
    if let Ok((scheme, host, port, path, query)) = parsed {
        let p0 = if path.len() == 0 {
            seq!['/']
        } else {
            path
        };
        let p1 = if p0[0] != '/' {
            seq!['/'] + p0
        } else {
            p0
        };
        assert(p1.len() > 0 && p1[0] == '/');
        if let Some(q) = query {
            assert((p1 + seq!['?'] + q)[0] == p1[0]);
        }
    }
}

/// `parse_relay` reads the URL of an endpoint back as the same endpoint,
/// whenever the url crate parses that URL into the endpoint's own parts: its
/// scheme and host, its port (or no port where the port is the scheme's
/// default), and a path and query that make up its path. A path that ends
/// in white space is left out: `parse_relay` trims the address first.
pub proof fn lemma_ws_url_parses_back(
    scheme: Seq<char>,
    host: Seq<char>,
    port: u16,
    path: Seq<char>,
    url_port: Option<u16>,
    url_path: Seq<char>,
    query: Option<Seq<char>>,
)
    requires
        scheme == "ws"@ || scheme == "wss"@,
        normalized_path(url_path, query) == path,
        !is_space(path.last()),
        url_parse_outcome(ws_url_text(scheme, host, port, path)) == Ok::<
            (Seq<char>, Option<Seq<char>>, Option<u16>, Seq<char>, Option<Seq<char>>),
            Seq<char>,
        >((scheme, Some(host), url_port, url_path, query)),
        match url_port {
            Some(p) => p == port,
            None => port == (if scheme == "wss"@ {
                443u16
            } else {
                80u16
            }),
        },
    ensures
        trimmed(ws_url_text(scheme, host, port, path)).len() > 0,
        endpoint_outcome(
            url_parse_outcome(with_default_scheme(trimmed(ws_url_text(scheme, host, port, path)))),
        ) == Ok::<(Seq<char>, Seq<char>, u16, Seq<char>), Seq<char>>((scheme, host, port, path)),
{
    lemma_endpoint_shape(Ok((scheme, Some(host), url_port, url_path, query)));
    reveal_strlit("ws");
    reveal_strlit("wss");
    reveal_strlit("://");
    let t = ws_url_text(scheme, host, port, path);
    let k = scheme.len() as int;
    assert(t[0] == scheme[0]);
    assert(t.last() == path.last());
    assert(!is_space(t[0]));
    assert(trim_start(t) == t);
    assert(trim_end(t) == t);
    assert(t[k] == ':' && t[k + 1] == '/' && t[k + 2] == '/');
    assert(has_scheme_separator(t));
}

// ── Internal stream multiplexing ──────────────────────────────────────────────
/// Messages routed from the relay dispatcher to a per-stream forwarding task.
#[derive(Debug, Clone)]
pub enum StreamMessage {
    /// A relay payload that belongs to this stream.
    Payload(Payload),
    /// Instructs the stream worker to abort immediately (e.g. `StreamReset`).
    Cancel,
}

} // verus!
