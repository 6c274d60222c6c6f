//! Terminal rendering of tunnel events: what each output mode prints for an
//! event, and when the program stops.

use vstd::prelude::*;

use crate::cli::{host_port_text, LocalTarget};
use crate::client::{TunnelEvent, TunnelSession, CLIENT_VERSION};
use crate::error::{relay_error_hint, relay_error_title, RelayError};
use crate::text::{concat2, concat3, copy_string, decimal, push_decimal, push_decimal_wide};
use crate::time::Duration;

pub mod banner;
pub mod error_view;
pub mod log;
pub mod qr;

use self::banner::{banner_text, banner_text_of, status_color, status_label_text, Banner, ConnectionStatus};
use self::log::{clock_text, log_line_of, log_line_text, RequestLogEntry, ANSI_CYAN, ANSI_YELLOW};
use self::qr::{qr_drawing, qr_text};

verus! {

/// How events are shown.
#[derive(Debug, Clone, Copy, PartialEq, Eq)]
pub enum OutputMode {
    /// One JSON object per event on standard output.
    Json,
    /// Only the public URL, connection attempts and disconnect reasons.
    Quiet,
    /// Banner, QR code and the live request log.
    Interactive,
}

/// The output mode of the flags: `--json` wins over `--quiet`.
pub fn output_mode(json: bool, quiet: bool) -> (m: OutputMode)
    ensures
        json ==> m == OutputMode::Json,
        !json && quiet ==> m == OutputMode::Quiet,
        !json && !quiet ==> m == OutputMode::Interactive,
{
    if json {
        OutputMode::Json
    } else if quiet {
        OutputMode::Quiet
    } else {
        OutputMode::Interactive
    }
}

/// The log filter for the number of `-v` flags: none → `error`, one →
/// `info`, two → `debug`, more → `trace`.
pub fn log_level(verbose: u8) -> (l: &'static str)
    ensures
        verbose == 0 ==> l@ == "error"@,
        verbose == 1 ==> l@ == "info"@,
        verbose == 2 ==> l@ == "debug"@,
        verbose >= 3 ==> l@ == "trace"@,
{
    if verbose == 0 {
        "error"
    } else if verbose == 1 {
        "info"
    } else if verbose == 2 {
        "debug"
    } else {
        "trace"
    }
}

/// How the program ends.
#[derive(Debug, Clone, Copy, PartialEq, Eq)]
pub enum UiExit {
    /// Exit code 0.
    Graceful,
    /// Exit code 1: the tunnel failed.
    Fatal,
}

/// Whether an event ends the program: every disconnect does, gracefully or not.
pub fn exit_after(event: &TunnelEvent) -> (x: Option<UiExit>)
    ensures
        match *event {
            TunnelEvent::Disconnected { graceful, .. } => x == Some(
                if graceful {
                    UiExit::Graceful
                } else {
                    UiExit::Fatal
                },
            ),
            _ => x is None,
        },
{
    match event {
        TunnelEvent::Disconnected { graceful, .. } => {
            if *graceful {
                Some(UiExit::Graceful)
            } else {
                Some(UiExit::Fatal)
            }
        },
        _ => None,
    }
}

/// A value of a JSON-mode field.
pub enum JsonValue {
    Text(String),
    Number(u128),
    Flag(bool),
    Null,
}

/// A value of a JSON-mode field, as plain values.
pub enum JsonView {
    Text(Seq<char>),
    Number(nat),
    Flag(bool),
    Null,
}

/// A field of the JSON object printed for an event.
pub struct JsonField {
    pub key: &'static str,
    pub value: JsonValue,
}

pub open spec fn json_value_view(v: JsonValue) -> JsonView {
    match v {
        JsonValue::Text(s) => JsonView::Text(s@),
        JsonValue::Number(n) => JsonView::Number(n as nat),
        JsonValue::Flag(b) => JsonView::Flag(b),
        JsonValue::Null => JsonView::Null,
    }
}

pub open spec fn json_fields_view(fs: Seq<JsonField>) -> Seq<(Seq<char>, JsonView)> {
    fs.map_values(|f: JsonField| (f.key@, json_value_view(f.value)))
}

/// The fields of the JSON object that JSON mode prints for an event.
pub open spec fn json_fields_of(event: TunnelEvent) -> Seq<(Seq<char>, JsonView)> {
    match event {
        TunnelEvent::Connecting { endpoint } => seq![
            ("event"@, JsonView::Text("connecting"@)),
            ("endpoint"@, JsonView::Text(endpoint@)),
        ],
        TunnelEvent::Connected { session } => seq![
            ("event"@, JsonView::Text("connected"@)),
            ("url"@, JsonView::Text(session.public_url@)),
            ("subdomain"@, JsonView::Text(session.subdomain@)),
        ],
        TunnelEvent::Reconnecting { attempt, delay } => seq![
            ("event"@, JsonView::Text("reconnecting"@)),
            ("attempt"@, JsonView::Number(attempt as nat)),
            ("delay_ms"@, JsonView::Number(delay@ / 1_000_000)),
        ],
        TunnelEvent::RequestHandled { stream_id, method, path, status, duration, hint } => seq![
            ("event"@, JsonView::Text("request_handled"@)),
            ("stream_id"@, JsonView::Number(stream_id as nat)),
            ("method"@, JsonView::Text(method@)),
            ("path"@, JsonView::Text(path@)),
            ("status"@, JsonView::Number(status as nat)),
            ("duration_ms"@, JsonView::Number(duration@ / 1_000_000)),
            (
                "hint"@,
                match hint {
                    Some(h) => JsonView::Text(h@),
                    None => JsonView::Null,
                },
            ),
        ],
        TunnelEvent::Disconnected { reason, .. } => seq![
            ("event"@, JsonView::Text("disconnected"@)),
            ("reason"@, JsonView::Text(reason@)),
        ],
    }
}

/// The JSON object printed when the tunnel goes live names the event
/// `connected`, gives the session's public URL as `url` and its subdomain as
/// `subdomain`, and has no other field.
pub proof fn lemma_json_connected_fields(session: TunnelSession)
    ensures
        ({
            let fs = json_fields_of(TunnelEvent::Connected { session });
            &&& fs.len() == 3
            &&& forall|i: int|
                0 <= i < fs.len() ==> ((#[trigger] fs[i]).0 == "url"@ ==> fs[i].1 == JsonView::Text(
                    session.public_url@,
                )) && (fs[i].0 == "subdomain"@ ==> fs[i].1 == JsonView::Text(session.subdomain@))
                    && (fs[i].0 == "event"@ ==> fs[i].1 == JsonView::Text("connected"@))
            &&& exists|i: int| 0 <= i < fs.len() && (#[trigger] fs[i]).0 == "url"@
            &&& exists|i: int| 0 <= i < fs.len() && (#[trigger] fs[i]).0 == "subdomain"@
            &&& exists|i: int| 0 <= i < fs.len() && (#[trigger] fs[i]).0 == "event"@
        }),
{
    reveal_strlit("url");
    reveal_strlit("subdomain");
    reveal_strlit("event");
    let fs = json_fields_of(TunnelEvent::Connected { session });
    assert(fs[0].0 == "event"@);
    assert(fs[1].0 == "url"@);
    assert(fs[2].0 == "subdomain"@);
}

/// Whether every field of `fs` keyed `key` holds `v`, and one does.
pub open spec fn field_holds(fs: Seq<(Seq<char>, JsonView)>, key: Seq<char>, v: JsonView) -> bool {
    &&& forall|i: int| 0 <= i < fs.len() && (#[trigger] fs[i]).0 == key ==> fs[i].1 == v
    &&& exists|i: int| 0 <= i < fs.len() && (#[trigger] fs[i]).0 == key
}

proof fn lemma_field_holds(fs: Seq<(Seq<char>, JsonView)>, k: int, key: Seq<char>, v: JsonView)
    requires
        0 <= k < fs.len(),
        fs[k] == (key, v),
        forall|j: int| 0 <= j < fs.len() && j != k ==> (#[trigger] fs[j]).0.len() != key.len() || fs[j].0[0] != key[0],
    ensures
        field_holds(fs, key, v),
{
    assert forall|i: int| 0 <= i < fs.len() && (#[trigger] fs[i]).0 == key implies fs[i].1 == v by {
        if i != k {
            assert(fs[i].0.len() != key.len() || fs[i].0[0] != key[0]);
        }
    }
}

/// Every field of a JSON-mode object carries the datum of the event that
/// its key names: the endpoint, the attempt and delay in milliseconds, the
/// request's stream, method, path, status, duration in milliseconds and
/// hint, or the disconnect reason; and the `event` field names the kind.
pub proof fn lemma_json_fields_carry_event_data(event: TunnelEvent)
    ensures
        ({
            let fs = json_fields_of(event);
            match event {
                TunnelEvent::Connecting { endpoint } => field_holds(fs, "event"@, JsonView::Text("connecting"@))
                    && field_holds(fs, "endpoint"@, JsonView::Text(endpoint@)),
                TunnelEvent::Connected { session } => field_holds(fs, "event"@, JsonView::Text("connected"@))
                    && field_holds(fs, "url"@, JsonView::Text(session.public_url@))
                    && field_holds(fs, "subdomain"@, JsonView::Text(session.subdomain@)),
                TunnelEvent::Reconnecting { attempt, delay } => field_holds(fs, "event"@, JsonView::Text("reconnecting"@))
                    && field_holds(fs, "attempt"@, JsonView::Number(attempt as nat))
                    && field_holds(fs, "delay_ms"@, JsonView::Number(delay@ / 1_000_000)),
                TunnelEvent::RequestHandled { stream_id, method, path, status, duration, hint } =>
                    field_holds(fs, "event"@, JsonView::Text("request_handled"@))
                    && field_holds(fs, "stream_id"@, JsonView::Number(stream_id as nat))
                    && field_holds(fs, "method"@, JsonView::Text(method@))
                    && field_holds(fs, "path"@, JsonView::Text(path@))
                    && field_holds(fs, "status"@, JsonView::Number(status as nat))
                    && field_holds(fs, "duration_ms"@, JsonView::Number(duration@ / 1_000_000))
                    && field_holds(fs, "hint"@, match hint {
                        Some(h) => JsonView::Text(h@),
                        None => JsonView::Null,
                    }),
                TunnelEvent::Disconnected { reason, .. } => field_holds(fs, "event"@, JsonView::Text("disconnected"@))
                    && field_holds(fs, "reason"@, JsonView::Text(reason@)),
            }
        }),
{
    reveal_strlit("event");
    reveal_strlit("endpoint");
    reveal_strlit("url");
    reveal_strlit("subdomain");
    reveal_strlit("attempt");
    reveal_strlit("delay_ms");
    reveal_strlit("stream_id");
    reveal_strlit("method");
    reveal_strlit("path");
    reveal_strlit("status");
    reveal_strlit("duration_ms");
    reveal_strlit("hint");
    reveal_strlit("reason");
    let fs = json_fields_of(event);
    match event {
        TunnelEvent::Connecting { endpoint } => {
            lemma_field_holds(fs, 0, "event"@, JsonView::Text("connecting"@));
            lemma_field_holds(fs, 1, "endpoint"@, JsonView::Text(endpoint@));
        },
        TunnelEvent::Connected { session } => {
            lemma_field_holds(fs, 0, "event"@, JsonView::Text("connected"@));
            lemma_field_holds(fs, 1, "url"@, JsonView::Text(session.public_url@));
            lemma_field_holds(fs, 2, "subdomain"@, JsonView::Text(session.subdomain@));
        },
        TunnelEvent::Reconnecting { attempt, delay } => {
            lemma_field_holds(fs, 0, "event"@, JsonView::Text("reconnecting"@));
            lemma_field_holds(fs, 1, "attempt"@, JsonView::Number(attempt as nat));
            lemma_field_holds(fs, 2, "delay_ms"@, JsonView::Number(delay@ / 1_000_000));
        },
        TunnelEvent::RequestHandled { stream_id, method, path, status, duration, hint } => {
            lemma_field_holds(fs, 0, "event"@, JsonView::Text("request_handled"@));
            lemma_field_holds(fs, 1, "stream_id"@, JsonView::Number(stream_id as nat));
            lemma_field_holds(fs, 2, "method"@, JsonView::Text(method@));
            lemma_field_holds(fs, 3, "path"@, JsonView::Text(path@));
            lemma_field_holds(fs, 4, "status"@, JsonView::Number(status as nat));
            lemma_field_holds(fs, 5, "duration_ms"@, JsonView::Number(duration@ / 1_000_000));
            lemma_field_holds(fs, 6, "hint"@, match hint {
                Some(h) => JsonView::Text(h@),
                None => JsonView::Null,
            });
        },
        TunnelEvent::Disconnected { reason, .. } => {
            lemma_field_holds(fs, 0, "event"@, JsonView::Text("disconnected"@));
            lemma_field_holds(fs, 1, "reason"@, JsonView::Text(reason@));
        },
    }
}

fn text_field(key: &'static str, value: &str) -> (f: JsonField)
    ensures
        f.key@ == key@,
        json_value_view(f.value) == JsonView::Text(value@),
{
    JsonField { key, value: JsonValue::Text(value.to_owned()) }
}

/// The fields of the JSON object that JSON mode prints for an event, in
/// order.
pub fn json_fields(event: &TunnelEvent) -> (fs: Vec<JsonField>)
    ensures
        json_fields_view(fs@) == json_fields_of(*event),
{
    let mut fs: Vec<JsonField> = Vec::new();
    match event {
        TunnelEvent::Connecting { endpoint } => {
            fs.push(text_field("event", "connecting"));
            fs.push(text_field("endpoint", endpoint.as_str()));
        },
        TunnelEvent::Connected { session } => {
            fs.push(text_field("event", "connected"));
            fs.push(text_field("url", session.public_url.as_str()));
            fs.push(text_field("subdomain", session.subdomain.as_str()));
        },
        TunnelEvent::Reconnecting { attempt, delay } => {
            fs.push(text_field("event", "reconnecting"));
            fs.push(JsonField { key: "attempt", value: JsonValue::Number(*attempt as u128) });
            fs.push(JsonField { key: "delay_ms", value: JsonValue::Number(delay.as_millis()) });
        },
        TunnelEvent::RequestHandled { stream_id, method, path, status, duration, hint } => {
            fs.push(text_field("event", "request_handled"));
            fs.push(JsonField { key: "stream_id", value: JsonValue::Number(*stream_id as u128) });
            fs.push(text_field("method", method.as_str()));
            fs.push(text_field("path", path.as_str()));
            fs.push(JsonField { key: "status", value: JsonValue::Number(*status as u128) });
            fs.push(JsonField { key: "duration_ms", value: JsonValue::Number(duration.as_millis()) });
            match hint {
                Some(h) => fs.push(text_field("hint", h.as_str())),
                None => fs.push(JsonField { key: "hint", value: JsonValue::Null }),
            }
        },
        TunnelEvent::Disconnected { reason, .. } => {
            fs.push(text_field("event", "disconnected"));
            fs.push(text_field("reason", reason.as_str()));
        },
    }
    assert(json_fields_view(fs@) =~= json_fields_of(*event));
    fs
}

/// A line of output.
pub enum UiLine {
    /// Printed on standard output, followed by a newline.
    Stdout(String),
    /// Printed on standard error, followed by a newline.
    Stderr(String),
}

/// A line as `(on standard output, text)`.
pub open spec fn ui_line_view(l: UiLine) -> (bool, Seq<char>) {
    match l {
        UiLine::Stdout(s) => (true, s@),
        UiLine::Stderr(s) => (false, s@),
    }
}

pub open spec fn ui_lines_view(ls: Seq<UiLine>) -> Seq<(bool, Seq<char>)> {
    ls.map_values(|l: UiLine| ui_line_view(l))
}

/// What quiet mode prints for an event.
pub open spec fn quiet_lines(event: TunnelEvent) -> Seq<(bool, Seq<char>)> {
    match event {
        TunnelEvent::Connected { session } => seq![(false, session.public_url@)],
        TunnelEvent::Disconnected { reason, .. } => if reason@.len() > 0 {
            seq![(false, reason@)]
        } else {
            Seq::empty()
        },
        TunnelEvent::Connecting { endpoint } => seq![
            (false, "Connecting to "@ + endpoint@ + "..."@),
        ],
        _ => Seq::empty(),
    }
}

/// What quiet mode prints for an event.
pub fn quiet_step(event: &TunnelEvent) -> (ls: Vec<UiLine>)
    ensures
        ui_lines_view(ls@) == quiet_lines(*event),
{
    let mut ls: Vec<UiLine> = Vec::new();
    match event {
        TunnelEvent::Connected { session } => {
            ls.push(UiLine::Stderr(copy_string(&session.public_url)));
        },
        TunnelEvent::Disconnected { reason, .. } => {
            if !reason.as_str().is_empty() {
                ls.push(UiLine::Stderr(copy_string(reason)));
            }
        },
        TunnelEvent::Connecting { endpoint } => {
            ls.push(UiLine::Stderr(concat3("Connecting to ", endpoint.as_str(), "...")));
        },
        _ => {},
    }
    assert(ui_lines_view(ls@) =~= quiet_lines(*event));
    ls
}

/// The forwarding address shown in the banner: the local target.
pub open spec fn forwarding_text(target: LocalTarget) -> Seq<char> {
    "http://"@ + host_port_text(target.host@, target.port)
}

/// The banner printed when a session goes live.
pub open spec fn session_banner_text(
    session: TunnelSession,
    relay: Seq<char>,
    target: LocalTarget,
) -> Seq<char> {
    banner_text_of(
        session.public_url@,
        forwarding_text(target),
        ConnectionStatus::Live,
        relay,
        CLIENT_VERSION@,
    )
}

/// The width of the path column in the request log.
pub const LOG_PATH_WIDTH: usize = 24;

/// What interactive mode remembers between events.
pub struct InteractiveState {
    pub banner_printed: bool,
}

/// The lines printed when a session goes live: the banner, the QR code when
/// the terminal shows colour and there is a URL, and the log's heading.
pub open spec fn connected_lines(
    session: TunnelSession,
    relay: Seq<char>,
    target: LocalTarget,
    supports_color: bool,
) -> Seq<(bool, Seq<char>)> {
    seq![(true, session_banner_text(session, relay, target) + "\n"@)] + (if supports_color
        && session.public_url@.len() > 0 {
        seq![(false, "Scan with your phone:\n"@), (true, qr_text(qr_drawing(session.public_url@)))]
    } else {
        Seq::empty()
    }) + seq![(false, "\nPress Ctrl+C to stop sharing.\n"@), (false, "Recent Requests:"@)]
}

/// The view of a disconnect: the relay error's headline, the reason and
/// the error's fix-it hint, or a plain headline when no error came with it.
pub open spec fn disconnect_view_text(reason: Seq<char>, error: Option<RelayError>) -> Seq<char> {
    match error {
        Some(e) => "✗ "@ + relay_error_title(e) + "\n"@ + "    "@ + reason + "\n"@ + "    → "@
            + relay_error_hint(e) + "\n"@,
        None => "✗ Tunnel disconnected\n"@ + "    "@ + reason + "\n"@,
    }
}

fn disconnect_view(reason: &str, error: &Option<RelayError>) -> (s: String)
    ensures
        s@ == disconnect_view_text(reason@, *error),
{
    match error {
        Some(e) => {
            let mut s = concat3("✗ ", e.title(), "\n");
            s.append("    ");
            s.append(reason);
            s.append("\n");
            s.append("    → ");
            s.append(e.actionable_hint());
            s.append("\n");
            s
        },
        None => {
            let mut s = "✗ Tunnel disconnected\n".to_owned();
            s.append("    ");
            s.append(reason);
            s.append("\n");
            s
        },
    }
}

/// What interactive mode prints for an event, and whether the banner has
/// been printed afterwards.
pub open spec fn interactive_lines(
    banner_printed: bool,
    event: TunnelEvent,
    relay: Seq<char>,
    target: LocalTarget,
    supports_color: bool,
) -> (Seq<(bool, Seq<char>)>, bool) {
    match event {
        TunnelEvent::Connected { session } => (
            connected_lines(session, relay, target, supports_color),
            true,
        ),
        TunnelEvent::Connecting { endpoint } => (
            if banner_printed {
                Seq::empty()
            } else {
                seq![
                    (
                        false,
                        "  \x1b[1m"@ + ANSI_CYAN@ + status_label_text(ConnectionStatus::Connecting)
                            + "\x1b[0m ("@ + endpoint@ + ")"@,
                    ),
                ]
            },
            banner_printed,
        ),
        TunnelEvent::Reconnecting { attempt, delay } => (
            seq![
                (
                    false,
                    "  \x1b[1m"@ + ANSI_YELLOW@ + status_label_text(
                        ConnectionStatus::Reconnecting { attempt },
                    ) + "\x1b[0m in "@ + decimal(delay@ / 1_000_000) + "ms"@,
                ),
            ],
            banner_printed,
        ),
        TunnelEvent::RequestHandled { method, path, status, duration, .. } => (
            seq![
                (
                    true,
                    log_line_of(
                        clock_text(duration@ / 1_000_000),
                        method@,
                        path@,
                        status,
                        duration@ / 1_000_000,
                        LOG_PATH_WIDTH as nat,
                    ),
                ),
            ],
            banner_printed,
        ),
        TunnelEvent::Disconnected { reason, error, .. } => (
            if reason@.len() > 0 && reason@ != "cancelled"@ {
                seq![(false, disconnect_view_text(reason@, error))]
            } else {
                Seq::empty()
            },
            banner_printed,
        ),
    }
}

impl InteractiveState {
    pub fn new() -> (s: Self)
        ensures
            !s.banner_printed,
    {
        InteractiveState { banner_printed: false }
    }

    /// What to print for an event; `relay` is the relay address given on the
    /// command line, `target` the local server that is shared,
    /// `supports_color` whether standard output is a terminal.
    pub fn step(
        &mut self,
        event: &TunnelEvent,
        relay: &str,
        target: &LocalTarget,
        supports_color: bool,
    ) -> (ls: Vec<UiLine>)
        ensures
            (ui_lines_view(ls@), final(self).banner_printed) == interactive_lines(
                old(self).banner_printed,
                *event,
                relay@,
                *target,
                supports_color,
            ),
    {
        let mut ls: Vec<UiLine> = Vec::new();
        match event {
            TunnelEvent::Connected { session } => {
                let shown_target = target.to_display_string();
                let forwarding = concat2("http://", shown_target.as_str());
                let banner = self::banner::session_to_banner(
                    session,
                    forwarding.as_str(),
                    relay,
                    CLIENT_VERSION,
                );
                let mut text = banner.render();
                text.append("\n");
                ls.push(UiLine::Stdout(text));
                if supports_color && !session.public_url.as_str().is_empty() {
                    ls.push(UiLine::Stderr("Scan with your phone:\n".to_owned()));
                    let qr = self::qr::render_qr(session.public_url.as_str());
                    ls.push(UiLine::Stdout(qr.render()));
                }
                ls.push(UiLine::Stderr("\nPress Ctrl+C to stop sharing.\n".to_owned()));
                ls.push(UiLine::Stderr("Recent Requests:".to_owned()));
                self.banner_printed = true;
            },
            TunnelEvent::Connecting { endpoint } => {
                if !self.banner_printed {
                    let (label, color) = ConnectionStatus::Connecting.as_label();
                    let mut line = concat3("  \x1b[1m", color, label.as_str());
                    line.append("\x1b[0m (");
                    line.append(endpoint.as_str());
                    line.append(")");
                    ls.push(UiLine::Stderr(line));
                }
            },
            TunnelEvent::Reconnecting { attempt, delay } => {
                let (label, color) = ConnectionStatus::Reconnecting { attempt: *attempt }.as_label();
                let mut line = concat3("  \x1b[1m", color, label.as_str());
                line.append("\x1b[0m in ");
                push_decimal_wide(&mut line, delay.as_millis());
                line.append("ms");
                ls.push(UiLine::Stderr(line));
            },
            TunnelEvent::RequestHandled { .. } => {
                match RequestLogEntry::from_event(event) {
                    Some(entry) => {
                        ls.push(UiLine::Stdout(entry.format_line(LOG_PATH_WIDTH)));
                    },
                    None => {},
                }
            },
            TunnelEvent::Disconnected { reason, error, .. } => {
                if !reason.as_str().is_empty() && !crate::text::str_eq(reason.as_str(), "cancelled") {
                    ls.push(UiLine::Stderr(disconnect_view(reason.as_str(), error)));
                }
            },
        }
        assert(ui_lines_view(ls@) =~= interactive_lines(
            old(self).banner_printed,
            *event,
            relay@,
            *target,
            supports_color,
        ).0);
        ls
    }

    /// What to print when the program stops: a farewell once a session was shown.
    pub fn closing(&self) -> (ls: Vec<UiLine>)
        ensures
            self.banner_printed ==> ui_lines_view(ls@) == seq![(false, "Stopping localshare..."@)],
            !self.banner_printed ==> ls@.len() == 0,
    {
        let mut ls: Vec<UiLine> = Vec::new();
        if self.banner_printed {
            ls.push(UiLine::Stderr("Stopping localshare...".to_owned()));
            assert(ui_lines_view(ls@) =~= seq![(false, "Stopping localshare..."@)]);
        }
        ls
    }
}

/// The session shown in demo mode: the requested subdomain or `demo`, under
/// the default relay's domain.
pub fn demo_session(requested_subdomain: &Option<String>) -> (s: TunnelSession)
    ensures
        s.subdomain@ == match *requested_subdomain {
            Some(r) => r@,
            None => "demo"@,
        },
        s.public_url@ == "https://"@ + s.subdomain@ + ".relay.localshare.dev"@,
        s.heartbeat_interval_ms == 60000,
{
    let subdomain = match requested_subdomain {
        Some(r) => copy_string(r),
        None => "demo".to_owned(),
    };
    let public_url = concat3("https://", subdomain.as_str(), ".relay.localshare.dev");
    TunnelSession { subdomain, public_url, heartbeat_interval_ms: 60000 }
}

} // verus!
