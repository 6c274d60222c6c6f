//! Tunnel client decisions: registration, reconnects, heartbeats, and the
//! routing of relay messages to per-request streams.
//!
//! The connection itself (WebSocket, timers, tasks) runs around the library
//! and asks these functions what to do with each event.

use vstd::prelude::*;

use crate::cli::{host_port_text, LocalTarget};
use crate::error::{relay_error_text, ProtocolError, RelayError};
use crate::protocol::{
    Header, Message, Payload, RejectReason, ResponseErrorCode, StreamMessage, WsFrame,
};
use crate::text::{concat3, copy_string, opt_chars, push_decimal};
use crate::time::Duration;

verus! {

broadcast use vstd::std_specs::hash::group_hash_axioms;

// ── Public types ──────────────────────────────────────────────────────────────
/// Metadata about an active, established tunnel session.
#[derive(Debug, Clone)]
pub struct TunnelSession {
    pub subdomain: String,
    pub public_url: String,
    pub heartbeat_interval_ms: u64,
}

/// Events emitted by the tunnel runner that UI or scripting layers can observe.
#[derive(Debug, Clone)]
pub enum TunnelEvent {
    /// Attempting to connect (or reconnect) to the relay.
    Connecting { endpoint: String },
    /// Successfully registered; the public URL is now live.
    Connected { session: TunnelSession },
    /// Connection dropped; about to retry after `delay`.
    Reconnecting { attempt: u32, delay: Duration },
    /// A request was fully proxied.
    RequestHandled {
        stream_id: u64,
        method: String,
        path: String,
        status: u16,
        duration: Duration,
        /// Optional user-facing hint when the request failed (e.g. a local
        /// connection refused). `None` for successful requests.
        hint: Option<String>,
    },
    /// The tunnel was disconnected, either because the process is shutting
    /// down (`graceful: true`), the relay closed the connection cleanly
    /// (`graceful: true`), or because of a fatal error (`graceful: false`).
    /// A fatal relay error travels along, so that the user can be told how
    /// to fix it.
    Disconnected { reason: String, graceful: bool, error: Option<RelayError> },
}

/// Configuration of a tunnel.
#[derive(Debug, Clone)]
pub struct TunnelConfig {
    /// Relay address (bare hostname, host:port, or ws(s):// URL).
    pub relay: String,
    /// Optional subdomain to request from the relay.
    pub requested_subdomain: Option<String>,
    /// Human-readable client name sent in the `Register` message.
    pub client_name: String,
    /// Client version string sent in the `Register` message.
    pub client_version: String,
    /// The local HTTP server to forward traffic to.
    pub target: LocalTarget,
    /// Timeout for the initial registration handshake.
    pub handshake_timeout: Duration,
    /// How long to wait for a Pong before declaring the connection dead.
    pub pong_timeout: Duration,
}

/// The client version sent to the relay.
pub const CLIENT_VERSION: &'static str = "0.1.1";

/// The heartbeat interval the client asks for when it registers.
pub const REGISTER_HEARTBEAT_MS: u64 = 15000;

impl Default for TunnelConfig {
    fn default() -> (c: Self)
        ensures
            c.relay@ == "relay.localshare.dev"@,
            c.requested_subdomain is None,
            c.client_name@ == "localshare"@,
            c.client_version@ == CLIENT_VERSION@,
            c.target.host@ == "127.0.0.1"@,
            c.target.port == 3000,
            c.handshake_timeout@ == 5_000_000_000,
            c.pong_timeout@ == 30_000_000_000,
    {
        TunnelConfig {
            relay: "relay.localshare.dev".to_owned(),
            requested_subdomain: None,
            client_name: "localshare".to_owned(),
            client_version: CLIENT_VERSION.to_owned(),
            target: LocalTarget { host: "127.0.0.1".to_owned(), port: 3000 },
            handshake_timeout: Duration::from_secs(5),
            pong_timeout: Duration::from_secs(30),
        }
    }
}

fn copy_opt_string(o: &Option<String>) -> (r: Option<String>)
    ensures
        opt_chars(r) == opt_chars(*o),
{
    match o {
        Some(s) => Some(copy_string(s)),
        None => None,
    }
}

// ── Registration ─────────────────────────────────────────────────────────────
/// The `Register` message that opens a session, asking for `requested_subdomain`.
pub fn register_message(config: &TunnelConfig, requested_subdomain: &Option<String>) -> (m:
    Message)
    ensures
        m.version == crate::protocol::PROTOCOL_VERSION,
        m.payload matches Payload::Register {
            requested_subdomain: rs,
            client_name,
            client_version,
            heartbeat_interval_ms,
        } && opt_chars(rs) == opt_chars(*requested_subdomain) && client_name@
            == config.client_name@ && client_version@ == config.client_version@
            && heartbeat_interval_ms == REGISTER_HEARTBEAT_MS,
{
    Message::new(
        Payload::Register {
            requested_subdomain: copy_opt_string(requested_subdomain),
            client_name: copy_string(&config.client_name),
            client_version: copy_string(&config.client_version),
            heartbeat_interval_ms: REGISTER_HEARTBEAT_MS,
        },
    )
}

/// What a message read during the handshake means: `None` to keep waiting
/// (undecodable messages and other payloads are ignored), the session when
/// the relay registered the client, or the rejection.
pub fn handshake_reply(msg: Result<Message, ProtocolError>) -> (r: Option<
    Result<TunnelSession, RelayError>,
>)
    ensures
        match msg {
            Ok(m) => match m.payload {
                Payload::Registered { subdomain, public_url, heartbeat_interval_ms } => r matches Some(
                    Ok(s),
                ) && s.subdomain@ == subdomain@ && s.public_url@ == public_url@
                    && s.heartbeat_interval_ms == heartbeat_interval_ms,
                Payload::RegisterRejected { reason } => r == Some(
                    Err::<TunnelSession, RelayError>(RelayError::RegistrationRejected(reason)),
                ),
                _ => r is None,
            },
            Err(_) => r is None,
        },
{
    match msg {
        Ok(m) => match m.payload {
            Payload::Registered { subdomain, public_url, heartbeat_interval_ms } => Some(
                Ok(TunnelSession { subdomain, public_url, heartbeat_interval_ms }),
            ),
            Payload::RegisterRejected { reason } => Some(
                Err(RelayError::RegistrationRejected(reason)),
            ),
            _ => None,
        },
        Err(_) => None,
    }
}

/// The error when the relay closes the connection before answering `Register`.
pub fn handshake_closed() -> (e: RelayError)
    ensures
        e matches RelayError::UnexpectedClose(why) && why@ == "relay closed during handshake"@,
{
    RelayError::UnexpectedClose("relay closed during handshake".to_owned())
}

/// The error when the relay's stream ends during a session.
pub fn session_closed() -> (e: RelayError)
    ensures
        e matches RelayError::UnexpectedClose(why) && why@ == "relay closed the connection"@,
{
    RelayError::UnexpectedClose("relay closed the connection".to_owned())
}

/// Returns `true` when the error is a clean close from the relay (a WebSocket
/// close frame or an orderly end of stream) rather than a transport-level
/// failure that warrants a reconnect attempt.
pub fn is_graceful_close(e: &RelayError) -> (b: bool)
    ensures
        b == (*e is UnexpectedClose),
{
    match e {
        RelayError::UnexpectedClose(_) => true,
        _ => false,
    }
}

/// The heartbeat sent to the relay.
pub fn ping_message() -> (m: Message)
    ensures
        m == Message::new_spec(Payload::ClientPing),
{
    Message::new(Payload::ClientPing)
}

/// The message sent to the relay when a session ends.
pub fn unregister_message() -> (m: Message)
    ensures
        m == Message::new_spec(Payload::Unregister { reason: None }),
{
    Message::new(Payload::Unregister { reason: None })
}

// ── Reconnect decisions ──────────────────────────────────────────────────────
/// The largest exponent of the back-off growth.
pub const BACKOFF_MAX_EXPONENT: u32 = 20;

/// How a connection attempt ended.
pub enum SessionEnd {
    /// The session was established and ended without error; the subdomain
    /// that the relay assigned.
    Finished(String),
    /// The attempt failed before the relay registered the client.
    Failed(RelayError),
    /// The session was established, with the subdomain that the relay
    /// assigned, and then failed.
    Dropped(String, RelayError),
}

/// What the reconnect loop does next.
pub enum ReconnectAction {
    /// Stop, after emitting the event when there is one.
    Stop(Option<TunnelEvent>),
    /// Connect again at once.
    Retry,
    /// Emit `Reconnecting` with `attempt`, wait a back-off delay grown
    /// `exponent` times, then connect again.
    Backoff { exponent: u32, attempt: u32 },
}

/// The reconnect loop's memory between attempts.
pub struct ReconnectState {
    /// Failed attempts since the last established session.
    pub attempt: u32,
    /// The subdomain to ask for on the next attempt.
    pub last_subdomain: Option<String>,
    /// Whether a session was ever established.
    pub ever_connected: bool,
}

/// The event of a fatal failure: the error's message, not graceful.
pub open spec fn is_fatal_event(ev: TunnelEvent, e: RelayError) -> bool {
    ev matches TunnelEvent::Disconnected { reason, graceful, error } && reason@ == relay_error_text(e)
        && !graceful && error == Some(e)
}

/// The event of a clean close by the relay.
pub open spec fn is_relay_closed_event(ev: TunnelEvent) -> bool {
    ev matches TunnelEvent::Disconnected { reason, graceful, error } && reason@
        == "The relay closed the connection."@ && graceful && error is None
}

impl ReconnectState {
    /// The state before the first attempt: no failures, the configured subdomain.
    pub fn new(config: &TunnelConfig) -> (s: Self)
        ensures
            s.attempt == 0,
            !s.ever_connected,
            opt_chars(s.last_subdomain) == opt_chars(config.requested_subdomain),
    {
        ReconnectState {
            attempt: 0,
            last_subdomain: copy_opt_string(&config.requested_subdomain),
            ever_connected: false,
        }
    }

    /// Decides what follows an attempt that ended with `end`, given whether
    /// shutdown was requested.
    ///
    /// - A finished session is remembered: its subdomain is asked for again,
    ///   the failure count is reset; the loop stops if shutdown was requested.
    /// - A session that was established and then dropped is remembered the
    ///   same way; unless shutdown was requested or the relay closed it
    ///   cleanly, the loop backs off (first attempt, no growth) and retries.
    /// - A failure during shutdown stops without an event.
    /// - A failure before any session was established is fatal.
    /// - A clean close by the relay ends the tunnel gracefully.
    /// - Any other failure backs off and retries, counting the attempt.
    pub fn after_session(&mut self, end: SessionEnd, cancelled: bool) -> (a: ReconnectAction)
        ensures
            match end {
                SessionEnd::Finished(sub) => {
                    &&& final(self).ever_connected
                    &&& opt_chars(final(self).last_subdomain) == Some(sub@)
                    &&& final(self).attempt == 0
                    &&& cancelled ==> (a matches ReconnectAction::Stop(None))
                    &&& !cancelled ==> (a is Retry)
                },
                SessionEnd::Dropped(sub, e) => {
                    &&& final(self).ever_connected
                    &&& opt_chars(final(self).last_subdomain) == Some(sub@)
                    &&& cancelled ==> (a matches ReconnectAction::Stop(None) && final(self).attempt
                        == 0)
                    &&& !cancelled && e is UnexpectedClose ==> (a matches ReconnectAction::Stop(
                        Some(ev),
                    ) && is_relay_closed_event(ev) && final(self).attempt == 0)
                    &&& !cancelled && !(e is UnexpectedClose) ==> (final(self).attempt == 1
                        && a == ReconnectAction::Backoff { exponent: 0, attempt: 1 })
                },
                SessionEnd::Failed(e) => {
                    &&& final(self).ever_connected == old(self).ever_connected
                    &&& opt_chars(final(self).last_subdomain) == opt_chars(
                        old(self).last_subdomain,
                    )
                    &&& cancelled ==> (a matches ReconnectAction::Stop(None) && final(self).attempt
                        == old(self).attempt)
                    &&& !cancelled && !old(self).ever_connected ==> (a matches ReconnectAction::Stop(
                        Some(ev),
                    ) && is_fatal_event(ev, e) && final(self).attempt == old(self).attempt)
                    &&& !cancelled && old(self).ever_connected && e is UnexpectedClose
                        ==> (a matches ReconnectAction::Stop(Some(ev)) && is_relay_closed_event(ev)
                        && final(self).attempt == old(self).attempt)
                    &&& !cancelled && old(self).ever_connected && !(e is UnexpectedClose) ==> {
                        &&& final(self).attempt == (if old(self).attempt < u32::MAX {
                            old(self).attempt + 1
                        } else {
                            old(self).attempt as int
                        })
                        &&& a == ReconnectAction::Backoff {
                            exponent: if old(self).attempt < BACKOFF_MAX_EXPONENT {
                                old(self).attempt
                            } else {
                                BACKOFF_MAX_EXPONENT
                            },
                            attempt: final(self).attempt,
                        }
                    }
                },
            },
    {
        match end {
            SessionEnd::Finished(sub) => {
                self.ever_connected = true;
                self.last_subdomain = Some(sub);
                self.attempt = 0;
                if cancelled {
                    ReconnectAction::Stop(None)
                } else {
                    ReconnectAction::Retry
                }
            },
            SessionEnd::Dropped(sub, e) => {
                self.ever_connected = true;
                self.last_subdomain = Some(sub);
                self.attempt = 0;
                self.after_failure(e, cancelled)
            },
            SessionEnd::Failed(e) => self.after_failure(e, cancelled),
        }
    }

    fn after_failure(&mut self, e: RelayError, cancelled: bool) -> (a: ReconnectAction)
        ensures
            final(self).ever_connected == old(self).ever_connected,
            final(self).last_subdomain == old(self).last_subdomain,
            cancelled ==> (a matches ReconnectAction::Stop(None) && final(self).attempt
                == old(self).attempt),
            !cancelled && !old(self).ever_connected ==> (a matches ReconnectAction::Stop(
                Some(ev),
            ) && is_fatal_event(ev, e) && final(self).attempt == old(self).attempt),
            !cancelled && old(self).ever_connected && e is UnexpectedClose ==> (a matches ReconnectAction::Stop(Some(ev)) && is_relay_closed_event(ev)
                && final(self).attempt == old(self).attempt),
            !cancelled && old(self).ever_connected && !(e is UnexpectedClose) ==> {
                &&& final(self).attempt == (if old(self).attempt < u32::MAX {
                    old(self).attempt + 1
                } else {
                    old(self).attempt as int
                })
                &&& a == ReconnectAction::Backoff {
                    exponent: if old(self).attempt < BACKOFF_MAX_EXPONENT {
                        old(self).attempt
                    } else {
                        BACKOFF_MAX_EXPONENT
                    },
                    attempt: final(self).attempt,
                }
            },
    {
        if cancelled {
                    return ReconnectAction::Stop(None);
                }
                if !self.ever_connected {
                    return ReconnectAction::Stop(
                        Some(
                    TunnelEvent::Disconnected { reason: e.message(), graceful: false, error: Some(e) },
                ),
                    );
                }
                if is_graceful_close(&e) {
                    return ReconnectAction::Stop(
                        Some(
                            TunnelEvent::Disconnected {
                                reason: "The relay closed the connection.".to_owned(),
                                graceful: true,
                                error: None,
                            },
                        ),
                    );
                }
                let exponent = if self.attempt < BACKOFF_MAX_EXPONENT {
                    self.attempt
                } else {
                    BACKOFF_MAX_EXPONENT
                };
                self.attempt = self.attempt.saturating_add(1);
                ReconnectAction::Backoff { exponent, attempt: self.attempt }
    }
}

/// The event emitted once the loop has stopped: a graceful `cancelled`
/// disconnect when shutdown was requested, nothing otherwise.
pub fn shutdown_event(cancelled: bool) -> (ev: Option<TunnelEvent>)
    ensures
        cancelled ==> (ev matches Some(TunnelEvent::Disconnected { reason, graceful, error })
            && reason@ == "cancelled"@ && graceful && error is None),
        !cancelled ==> ev is None,
{
    if cancelled {
        Some(
            TunnelEvent::Disconnected {
                reason: "cancelled".to_owned(),
                graceful: true,
                error: None,
            },
        )
    } else {
        None
    }
}

/// The event emitted when the relay address cannot be used at all.
pub fn start_failure_event(e: RelayError) -> (ev: TunnelEvent)
    ensures
        is_fatal_event(ev, e),
{
    let reason = e.message();
    TunnelEvent::Disconnected { reason, graceful: false, error: Some(e) }
}

/// The event emitted before each connection attempt.
pub fn connecting_event(endpoint: &crate::protocol::RelayEndpoint) -> (ev: TunnelEvent)
    ensures
        ev matches TunnelEvent::Connecting { endpoint: label } && label@
            == crate::protocol::endpoint_label_text(*endpoint),
{
    TunnelEvent::Connecting { endpoint: endpoint.display_string() }
}

// ── Heartbeat ────────────────────────────────────────────────────────────────
/// The deadline by which the relay must have answered a heartbeat, in
/// nanoseconds since the session started.
pub struct PongWatch {
    pub deadline_ns: u128,
}

impl PongWatch {
    /// The watch at the session's start (time `now_ns`).
    pub fn start(now_ns: u128, pong_timeout: &Duration) -> (w: Self)
        ensures
            w.deadline_ns == if now_ns + pong_timeout@ <= u128::MAX {
                now_ns + pong_timeout@
            } else {
                u128::MAX as int
            },
    {
        PongWatch { deadline_ns: now_ns.saturating_add(pong_timeout.as_nanos()) }
    }

    /// A pong arrived at `now_ns`: the deadline moves to `now_ns + timeout`.
    pub fn refresh(&mut self, now_ns: u128, pong_timeout: &Duration)
        ensures
            final(self).deadline_ns == if now_ns + pong_timeout@ <= u128::MAX {
                now_ns + pong_timeout@
            } else {
                u128::MAX as int
            },
    {
        self.deadline_ns = now_ns.saturating_add(pong_timeout.as_nanos());
    }

    /// Whether the relay is considered dead at `now_ns`: a whole timeout has
    /// passed since the deadline.
    pub fn is_dead(&self, now_ns: u128, pong_timeout: &Duration) -> (b: bool)
        ensures
            b == (now_ns > self.deadline_ns + pong_timeout@),
    {
        let grace = pong_timeout.as_nanos();
        if self.deadline_ns > u128::MAX - grace {
            false
        } else {
            now_ns > self.deadline_ns + grace
        }
    }
}

// ── Relay frames and dispatch ────────────────────────────────────────────────
/// What the session loop does with a frame from the relay.
pub enum FrameStep {
    /// A WebSocket ping or close: nothing to do.
    Skip,
    /// A WebSocket pong: the relay is alive.
    Pong,
    /// A data frame: decode the message it carries.
    Decode,
}

pub fn frame_step(frame: &WsFrame) -> (s: FrameStep)
    ensures
        (*frame is Ping || *frame is Close) ==> s is Skip,
        *frame is Pong ==> s is Pong,
        (*frame is Text || *frame is Binary || *frame is Frame) ==> s is Decode,
{
    match frame {
        WsFrame::Ping(_) | WsFrame::Close => FrameStep::Skip,
        WsFrame::Pong(_) => FrameStep::Pong,
        _ => FrameStep::Decode,
    }
}

/// What a relay payload asks of the session.
pub enum DispatchAction {
    /// A new request: open a stream and start forwarding it.
    Open { stream_id: u64, method: String, path: String, headers: Vec<Header> },
    /// Pass the message to the stream's worker, if the stream is known.
    Forward { stream_id: u64, message: StreamMessage },
    /// The relay aborted the stream: forget it and cancel its worker.
    Reset { stream_id: u64 },
    /// The relay answered a heartbeat.
    Pong,
    /// Nothing to do.
    Ignore,
}

pub fn dispatch_action(payload: Payload) -> (a: DispatchAction)
    ensures
        match payload {
            Payload::RequestStart { stream_id, method, path, headers } => a == DispatchAction::Open {
                stream_id,
                method,
                path,
                headers,
            },
            Payload::RequestChunk { stream_id, data } => a == DispatchAction::Forward {
                stream_id,
                message: StreamMessage::Payload(Payload::RequestChunk { stream_id, data }),
            },
            Payload::RequestEnd { stream_id } => a == DispatchAction::Forward {
                stream_id,
                message: StreamMessage::Payload(Payload::RequestEnd { stream_id }),
            },
            Payload::StreamReset { stream_id } => a == DispatchAction::Reset { stream_id },
            Payload::RelayPong => a is Pong,
            _ => a is Ignore,
        },
{
    match payload {
        Payload::RequestStart { stream_id, method, path, headers } => DispatchAction::Open {
            stream_id,
            method,
            path,
            headers,
        },
        Payload::RequestChunk { stream_id, data } => DispatchAction::Forward {
            stream_id,
            message: StreamMessage::Payload(Payload::RequestChunk { stream_id, data }),
        },
        Payload::RequestEnd { stream_id } => DispatchAction::Forward {
            stream_id,
            message: StreamMessage::Payload(Payload::RequestEnd { stream_id }),
        },
        Payload::StreamReset { stream_id } => DispatchAction::Reset { stream_id },
        Payload::RelayPong => DispatchAction::Pong,
        _ => DispatchAction::Ignore,
    }
}

/// The ids of a list of `(id, worker)` pairs.
pub open spec fn pair_ids<S>(all: Seq<(u64, S)>) -> Seq<u64> {
    Seq::new(all.len(), |i: int| all[i].0)
}

/// The open request streams of a session, by stream id, each with the
/// handle `S` of its worker.
pub struct ActiveStreams<S> {
    streams: std::collections::HashMap<u64, S>,
}

impl<S> View for ActiveStreams<S> {
    type V = Map<u64, S>;

    closed spec fn view(&self) -> Map<u64, S> {
        self.streams@
    }
}

impl<S> ActiveStreams<S> {
    pub fn new() -> (t: Self)
        ensures
            t@ == Map::<u64, S>::empty(),
    {
        ActiveStreams { streams: std::collections::HashMap::new() }
    }

    /// Records a new stream; a stream with the same id is replaced.
    pub fn open(&mut self, stream_id: u64, worker: S)
        ensures
            final(self)@ == old(self)@.insert(stream_id, worker),
    {
        self.streams.insert(stream_id, worker);
    }

    /// The worker of a stream, when the stream is open.
    pub fn get(&self, stream_id: u64) -> (w: Option<&S>)
        ensures
            match w {
                Some(x) => self@.contains_key(stream_id) && *x == self@[stream_id],
                None => !self@.contains_key(stream_id),
            },
    {
        self.streams.get(&stream_id)
    }

    /// Forgets a stream and hands back its worker, when it was open.
    pub fn close(&mut self, stream_id: u64) -> (w: Option<S>)
        ensures
            final(self)@ == old(self)@.remove(stream_id),
            match w {
                Some(x) => old(self)@.contains_key(stream_id) && x == old(self)@[stream_id],
                None => !old(self)@.contains_key(stream_id),
            },
    {
        self.streams.remove(&stream_id)
    }

    /// The ids of the open streams.
    pub fn ids(&self) -> (ids: Vec<u64>)
        ensures
            ids@.to_set() == self@.dom(),
            ids@.no_duplicates(),
    {
        let mut ids: Vec<u64> = Vec::new();
        let ghost keys = vstd::std_specs::iter::IteratorSpec::remaining(&vstd::std_specs::hash::spec_keys_iter(&self.streams));
        proof {
            vstd::std_specs::hash::axiom_spec_keys_iter(&self.streams);
        }
        for k in it: self.streams.keys()
            invariant
                it.seq() == keys,
                ids@ == keys.take(it.index() as int).unref(),
        {
            ids.push(*k);
            assert(ids@ =~= keys.take(it.index() + 1).unref());
        }
        assert(ids@ =~= keys.unref());
        ids
    }

    /// Forgets every stream and hands back each id with its worker.
    pub fn close_all(&mut self) -> (all: Vec<(u64, S)>)
        ensures
            final(self)@ == Map::<u64, S>::empty(),
            pair_ids(all@).to_set() == old(self)@.dom(),
            pair_ids(all@).no_duplicates(),
            forall|i: int| 0 <= i < all@.len() ==> old(self)@[#[trigger] all@[i].0] == all@[i].1,
    {
        let ids = self.ids();
        let ghost start = self@;
        let mut all: Vec<(u64, S)> = Vec::new();
        let mut i: usize = 0;
        while i < ids.len()
            invariant
                i <= ids@.len(),
                ids@.to_set() == start.dom(),
                ids@.no_duplicates(),
                self@ == start.remove_keys(ids@.subrange(0, i as int).to_set()),
                pair_ids(all@) == ids@.subrange(0, i as int),
                forall|j: int| 0 <= j < all@.len() ==> start[#[trigger] all@[j].0] == all@[j].1,
            decreases ids@.len() - i,
        {
            let id = ids[i];
            proof {
                assert(ids@.to_set().contains(id));
                assert(!ids@.subrange(0, i as int).to_set().contains(id)) by {
                    if ids@.subrange(0, i as int).to_set().contains(id) {
                        let j = choose|j: int| 0 <= j < i && ids@.subrange(0, i as int)[j] == id;
                        assert(ids@[j] == ids@[i as int]);
                    }
                }
            }
            let ghost before = all@;
            match self.close(id) {
                Some(w) => {
                    all.push((id, w));
                    assert(all@ == before.push((id, w)));
                    assert(pair_ids(all@) =~= ids@.subrange(0, i + 1)) by {
                        assert(pair_ids(before) == ids@.subrange(0, i as int));
                        assert(pair_ids(before).len() == before.len());
                        assert(before.len() == i);
                        assert forall|k: int| 0 <= k < i + 1 implies pair_ids(all@)[k] == ids@[k] by {
                            if k < i {
                                assert(all@[k] == before[k]);
                                assert(pair_ids(before)[k] == ids@[k]);
                            }
                        }
                    }
                },
                None => {
                    assert(false);
                },
            }
            proof {
                let pre = ids@.subrange(0, i as int);
                let nxt = ids@.subrange(0, i + 1);
                assert forall|x: u64| nxt.contains(x) <==> (pre.contains(x) || x == id) by {
                    if nxt.contains(x) {
                        let j = choose|j: int| 0 <= j < nxt.len() && nxt[j] == x;
                        if j < i {
                            assert(pre[j] == x);
                        }
                    }
                    if pre.contains(x) {
                        let j = choose|j: int| 0 <= j < pre.len() && pre[j] == x;
                        assert(nxt[j] == x);
                    }
                    if x == id {
                        assert(nxt[i as int] == x);
                    }
                }
                assert(nxt.to_set() =~= pre.to_set().insert(id));
                assert(self@ =~= start.remove_keys(ids@.subrange(0, i + 1).to_set()));
            }
            i = i + 1;
        }
        proof {
            assert(ids@.subrange(0, ids@.len() as int) =~= ids@);
            assert(self@ =~= Map::<u64, S>::empty());
        }
        all
    }

    /// Whether no stream is open.
    pub fn is_empty(&self) -> (b: bool)
        ensures
            b == (self@.len() == 0),
    {
        self.streams.is_empty()
    }
}

/// Messages for a stream reach the worker it was opened with, and only until
/// it is closed: after `open(id, w)` a lookup of `id` finds `w`, after
/// `close(id)` it finds nothing, and the other streams keep their workers.
pub proof fn lemma_stream_routing<S>(streams: Map<u64, S>, id: u64, other: u64, w: S)
    ensures
        streams.insert(id, w).contains_key(id),
        streams.insert(id, w)[id] == w,
        !streams.insert(id, w).remove(id).contains_key(id),
        other != id ==> (streams.insert(id, w).contains_key(other) <==> streams.contains_key(
            other,
        )),
        other != id && streams.contains_key(other) ==> streams.insert(id, w)[other]
            == streams[other] && streams.remove(id)[other] == streams[other],
{
}

// ── Per-request reporting ────────────────────────────────────────────────────
/// The HTTP status the relay answers with when forwarding failed.
pub open spec fn error_status(code: ResponseErrorCode) -> u16 {
    match code {
        ResponseErrorCode::TargetConnectionRefused => 502,
        ResponseErrorCode::TargetTimeout => 504,
        ResponseErrorCode::LocalIoError => 502,
    }
}

/// The hint shown when the local server refused the connection.
pub open spec fn refused_hint_text(target_label: Seq<char>) -> Seq<char> {
    "Is your local server running on "@ + target_label + "?"@
}

/// What a tracker remembers: `(status seen, hint, already reported)`.
pub type TrackerState = (Option<u16>, Option<Seq<char>>, bool);

/// One step of a tracker over a message sent for its stream: the new state
/// and, when the request is now complete for the first time, the status and
/// hint to report.
///
/// `ResponseStart` records the status; `ResponseError` maps its code to
/// 502/504 (with a hint when the connection was refused) and reports at once;
/// `ResponseEnd` reports the recorded status, 200 when none was recorded.
pub open spec fn tracker_step(s: TrackerState, target_label: Seq<char>, p: Payload) -> (
    TrackerState,
    Option<(u16, Option<Seq<char>>)>,
) {
    match p {
        Payload::ResponseStart { status_code, .. } => ((Some(status_code), s.1, s.2), None),
        Payload::ResponseError { code, .. } => {
            let st = error_status(code);
            let h = if code is TargetConnectionRefused {
                Some(refused_hint_text(target_label))
            } else {
                s.1
            };
            ((Some(st), h, true), if s.2 {
                None
            } else {
                Some((st, h))
            })
        },
        Payload::ResponseEnd { .. } => if s.2 {
            (s, None)
        } else {
            let st = match s.0 {
                Some(c) => c,
                None => 200u16,
            };
            ((s.0, s.1, true), Some((st, s.1)))
        },
        _ => (s, None),
    }
}

/// A failed request takes the status the relay answers it with: 504 when
/// the local target timed out, 502 (Bad Gateway) for every other failure,
/// `LocalIoError` included. It is reported with that status unless it was
/// reported already, and a later `ResponseEnd` reports nothing more.
pub proof fn lemma_failed_request_status(s: TrackerState, target_label: Seq<char>, p: Payload)
    requires
        p is ResponseError,
    ensures
        ({
            let (next, report) = tracker_step(s, target_label, p);
            let expected: u16 = if p matches Payload::ResponseError {
                code: ResponseErrorCode::TargetTimeout,
                ..
            } {
                504
            } else {
                502
            };
            &&& next.0 == Some(expected)
            &&& next.2
            &&& !s.2 ==> (report matches Some((st, _)) && st == expected)
            &&& s.2 ==> report is None
            &&& tracker_step(next, target_label, Payload::ResponseEnd { stream_id: 0 }).1 is None
        }),
{
}

/// A request that completes is reported once with the status of its
/// `ResponseStart`, or 200 when the local server's status never came; a
/// refused connection is reported with the hint that asks whether the local
/// server runs on the target.
pub proof fn lemma_completed_request_status(
    label: Seq<char>,
    status_code: u16,
    headers: Vec<Header>,
    id: u64,
    message: String,
)
    ensures
        ({
            let fresh: TrackerState = (None, None, false);
            let (started, r0) = tracker_step(
                fresh,
                label,
                Payload::ResponseStart { stream_id: id, status_code, headers },
            );
            let (_, r1) = tracker_step(started, label, Payload::ResponseEnd { stream_id: id });
            let (_, r2) = tracker_step(fresh, label, Payload::ResponseEnd { stream_id: id });
            let (_, r3) = tracker_step(
                fresh,
                label,
                Payload::ResponseError {
                    stream_id: id,
                    code: ResponseErrorCode::TargetConnectionRefused,
                    message,
                },
            );
            &&& r0 is None
            &&& r1 == Some((status_code, None::<Seq<char>>))
            &&& r2 == Some((200u16, None::<Seq<char>>))
            &&& r3 == Some((502u16, Some("Is your local server running on "@ + label + "?"@)))
        }),
{
}

/// Watches the messages sent back for one request and decides when the
/// request is reported as handled.
pub struct RequestTracker {
    pub stream_id: u64,
    pub method: String,
    pub path: String,
    /// The target as `host:port`, used in hints.
    pub target_label: String,
    pub captured_status: Option<u16>,
    pub hint: Option<String>,
    pub emitted: bool,
}

impl View for RequestTracker {
    type V = TrackerState;

    open spec fn view(&self) -> TrackerState {
        (self.captured_status, opt_chars(self.hint), self.emitted)
    }
}

impl RequestTracker {
    pub fn new(stream_id: u64, method: String, path: String, target: &LocalTarget) -> (t: Self)
        ensures
            t.stream_id == stream_id,
            t.method == method,
            t.path == path,
            t@ == (None::<u16>, None::<Seq<char>>, false),
            t.target_label@ == host_port_text(target.host@, target.port),
    {
        let target_label = target.to_display_string();
        RequestTracker {
            stream_id,
            method,
            path,
            target_label,
            captured_status: None,
            hint: None,
            emitted: false,
        }
    }

    /// Takes note of a message sent for the stream; returns the status and
    /// hint to report when the request has just completed.
    pub fn observe(&mut self, payload: &Payload) -> (r: Option<(u16, Option<String>)>)
        ensures
            final(self).stream_id == old(self).stream_id,
            final(self).method == old(self).method,
            final(self).path == old(self).path,
            final(self).target_label@ == old(self).target_label@,
            (final(self)@, match r {
                Some((st, h)) => Some((st, opt_chars(h))),
                None => None,
            }) == tracker_step(old(self)@, old(self).target_label@, *payload),
    {
        match payload {
            Payload::ResponseStart { status_code, .. } => {
                self.captured_status = Some(*status_code);
                None
            },
            Payload::ResponseError { code, .. } => {
                let status: u16 = match code {
                    ResponseErrorCode::TargetConnectionRefused => 502,
                    ResponseErrorCode::TargetTimeout => 504,
                    ResponseErrorCode::LocalIoError => 502,
                };
                self.captured_status = Some(status);
                match code {
                    ResponseErrorCode::TargetConnectionRefused => {
                        self.hint = Some(
                            concat3(
                                "Is your local server running on ",
                                self.target_label.as_str(),
                                "?",
                            ),
                        );
                    },
                    _ => {},
                }
                if !self.emitted {
                    self.emitted = true;
                    Some((status, copy_opt_string(&self.hint)))
                } else {
                    None
                }
            },
            Payload::ResponseEnd { .. } => {
                if !self.emitted {
                    self.emitted = true;
                    let status = match self.captured_status {
                        Some(c) => c,
                        None => 200,
                    };
                    Some((status, copy_opt_string(&self.hint)))
                } else {
                    None
                }
            },
            _ => None,
        }
    }

    /// The `RequestHandled` event for a report of this tracker.
    pub fn handled_event(&self, status: u16, hint: Option<String>, duration: Duration) -> (ev:
        TunnelEvent)
        ensures
            ev matches TunnelEvent::RequestHandled {
                stream_id,
                method,
                path,
                status: st,
                duration: d,
                hint: h,
            } && stream_id == self.stream_id && method@ == self.method@ && path@ == self.path@
                && st == status && d == duration && h == hint,
    {
        TunnelEvent::RequestHandled {
            stream_id: self.stream_id,
            method: copy_string(&self.method),
            path: copy_string(&self.path),
            status,
            duration,
            hint,
        }
    }
}

/// The number of reports a tracker in state `s` makes over the messages `ps`.
pub open spec fn report_count(s: TrackerState, target_label: Seq<char>, ps: Seq<Payload>) -> nat
    decreases ps.len(),
{
    if ps.len() == 0 {
        0
    } else {
        let (next, r) = tracker_step(s, target_label, ps[0]);
        (if r is Some {
            1nat
        } else {
            0nat
        }) + report_count(next, target_label, ps.drop_first())
    }
}

/// Each request is reported as handled at most once, whatever the stream's
/// messages; once reported, never again.
pub proof fn lemma_request_reported_at_most_once(
    s: TrackerState,
    target_label: Seq<char>,
    ps: Seq<Payload>,
)
    ensures
        report_count(s, target_label, ps) <= 1,
        s.2 ==> report_count(s, target_label, ps) == 0,
    decreases ps.len(),
{
    if ps.len() > 0 {
        let (next, r) = tracker_step(s, target_label, ps[0]);
        lemma_request_reported_at_most_once(next, target_label, ps.drop_first());
        assert(r is Some ==> next.2);
        assert(s.2 ==> next.2 && r is None);
    }
}

} // verus!
