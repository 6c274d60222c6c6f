//! The live request log: one coloured line per proxied request.

use vstd::prelude::*;

use crate::client::TunnelEvent;
use crate::text::{
    concat3, copy_string, decimal, lemma_repeat_len, pad_right, push_decimal, push_decimal_wide, push_padded,
    push_two_digits, str_eq, two_digits,
};
use crate::time::Duration;

verus! {

pub const ANSI_RESET: &'static str = "\x1b[0m";

pub const ANSI_DIM: &'static str = "\x1b[2m";

pub const ANSI_RED: &'static str = "\x1b[31m";

pub const ANSI_GREEN: &'static str = "\x1b[32m";

pub const ANSI_YELLOW: &'static str = "\x1b[33m";

pub const ANSI_CYAN: &'static str = "\x1b[36m";

pub const ANSI_WHITE: &'static str = "\x1b[37m";

#[derive(Debug, Clone, Copy)]
pub enum MethodColor {
    Get,
    Post,
    Put,
    Patch,
    Delete,
    Other,
}

/// The colour class of an HTTP method.
pub open spec fn method_color_of(method: Seq<char>) -> MethodColor {
    if method == "GET"@ {
        MethodColor::Get
    } else if method == "POST"@ {
        MethodColor::Post
    } else if method == "PUT"@ {
        MethodColor::Put
    } else if method == "PATCH"@ {
        MethodColor::Patch
    } else if method == "DELETE"@ {
        MethodColor::Delete
    } else {
        MethodColor::Other
    }
}

/// The escape sequence of a method's colour.
pub open spec fn method_ansi(c: MethodColor) -> Seq<char> {
    match c {
        MethodColor::Get => ANSI_CYAN@,
        MethodColor::Post => ANSI_GREEN@,
        MethodColor::Put | MethodColor::Patch => ANSI_YELLOW@,
        MethodColor::Delete => ANSI_RED@,
        MethodColor::Other => ANSI_WHITE@,
    }
}

impl MethodColor {
    pub fn from_method(method: &str) -> (c: Self)
        ensures
            c == method_color_of(method@),
    {
        if str_eq(method, "GET") {
            MethodColor::Get
        } else if str_eq(method, "POST") {
            MethodColor::Post
        } else if str_eq(method, "PUT") {
            MethodColor::Put
        } else if str_eq(method, "PATCH") {
            MethodColor::Patch
        } else if str_eq(method, "DELETE") {
            MethodColor::Delete
        } else {
            MethodColor::Other
        }
    }

    pub fn ansi(self) -> (s: &'static str)
        ensures
            s@ == method_ansi(self),
    {
        match self {
            MethodColor::Get => ANSI_CYAN,
            MethodColor::Post => ANSI_GREEN,
            MethodColor::Put | MethodColor::Patch => ANSI_YELLOW,
            MethodColor::Delete => ANSI_RED,
            MethodColor::Other => ANSI_WHITE,
        }
    }
}

#[derive(Debug, Clone, Copy)]
pub struct StatusInfo {
    pub code: u16,
    pub reason: &'static str,
}

/// The reason phrase shown for a status code; empty for codes without one.
pub open spec fn reason_phrase(code: u16) -> Seq<char> {
    if code == 200 {
        "OK"@
    } else if code == 201 {
        "Created"@
    } else if code == 204 {
        "No Content"@
    } else if code == 301 {
        "Moved Permanently"@
    } else if code == 302 {
        "Found"@
    } else if code == 304 {
        "Not Modified"@
    } else if code == 400 {
        "Bad Request"@
    } else if code == 401 {
        "Unauthorized"@
    } else if code == 403 {
        "Forbidden"@
    } else if code == 404 {
        "Not Found"@
    } else if code == 405 {
        "Method Not Allowed"@
    } else if code == 408 {
        "Request Timeout"@
    } else if code == 413 {
        "Payload Too Large"@
    } else if code == 422 {
        "Unprocessable Entity"@
    } else if code == 429 {
        "Too Many Requests"@
    } else if code == 500 {
        "Internal Server Error"@
    } else if code == 502 {
        "Bad Gateway"@
    } else if code == 503 {
        "Service Unavailable"@
    } else if code == 504 {
        "Gateway Timeout"@
    } else {
        ""@
    }
}

/// The escape sequence of a status code's colour: green 2xx, cyan 3xx,
/// yellow 4xx, red 5xx, white otherwise.
pub open spec fn status_ansi(code: u16) -> Seq<char> {
    if 200 <= code <= 299 {
        ANSI_GREEN@
    } else if 300 <= code <= 399 {
        ANSI_CYAN@
    } else if 400 <= code <= 499 {
        ANSI_YELLOW@
    } else if 500 <= code <= 599 {
        ANSI_RED@
    } else {
        ANSI_WHITE@
    }
}

/// `code`, or `code reason` when the reason is not empty.
pub open spec fn status_label_text(code: u16, reason: Seq<char>) -> Seq<char> {
    if reason.len() == 0 {
        decimal(code as nat)
    } else {
        decimal(code as nat) + " "@ + reason
    }
}

impl StatusInfo {
    pub fn from_code(code: u16) -> (s: Self)
        ensures
            s.code == code,
            s.reason@ == reason_phrase(code),
    {
        let reason = if code == 200 {
            "OK"
        } else if code == 201 {
            "Created"
        } else if code == 204 {
            "No Content"
        } else if code == 301 {
            "Moved Permanently"
        } else if code == 302 {
            "Found"
        } else if code == 304 {
            "Not Modified"
        } else if code == 400 {
            "Bad Request"
        } else if code == 401 {
            "Unauthorized"
        } else if code == 403 {
            "Forbidden"
        } else if code == 404 {
            "Not Found"
        } else if code == 405 {
            "Method Not Allowed"
        } else if code == 408 {
            "Request Timeout"
        } else if code == 413 {
            "Payload Too Large"
        } else if code == 422 {
            "Unprocessable Entity"
        } else if code == 429 {
            "Too Many Requests"
        } else if code == 500 {
            "Internal Server Error"
        } else if code == 502 {
            "Bad Gateway"
        } else if code == 503 {
            "Service Unavailable"
        } else if code == 504 {
            "Gateway Timeout"
        } else {
            ""
        };
        StatusInfo { code, reason }
    }

    pub fn label(self) -> (s: String)
        ensures
            s@ == status_label_text(self.code, self.reason@),
    {
        let mut s = String::new();
        push_decimal(&mut s, self.code as u64);
        if !self.reason.is_empty() {
            s.append(" ");
            s.append(self.reason);
        }
        assert(s@ =~= status_label_text(self.code, self.reason@));
        s
    }

    pub fn ansi(self) -> (s: &'static str)
        ensures
            s@ == status_ansi(self.code),
    {
        if 200 <= self.code && self.code <= 299 {
            ANSI_GREEN
        } else if 300 <= self.code && self.code <= 399 {
            ANSI_CYAN
        } else if 400 <= self.code && self.code <= 499 {
            ANSI_YELLOW
        } else if 500 <= self.code && self.code <= 599 {
            ANSI_RED
        } else {
            ANSI_WHITE
        }
    }
}

#[derive(Debug, Clone, Copy)]
pub struct LatencyInfo(pub Duration);

/// The escape sequence of a latency's colour: green under 100 ms, yellow up
/// to 500 ms, red above.
pub open spec fn latency_ansi(ms: nat) -> Seq<char> {
    if ms < 100 {
        ANSI_GREEN@
    } else if ms <= 500 {
        ANSI_YELLOW@
    } else {
        ANSI_RED@
    }
}

/// `<1ms` for no whole millisecond, `Nms` otherwise.
pub open spec fn latency_label_text(ms: nat) -> Seq<char> {
    if ms == 0 {
        "<1ms"@
    } else {
        decimal(ms) + "ms"@
    }
}

impl LatencyInfo {
    pub fn ansi(self) -> (s: &'static str)
        ensures
            s@ == latency_ansi(self.0@ / 1_000_000),
    {
        let ms = self.0.as_millis();
        if ms < 100 {
            ANSI_GREEN
        } else if ms <= 500 {
            ANSI_YELLOW
        } else {
            ANSI_RED
        }
    }

    pub fn label(self) -> (s: String)
        ensures
            s@ == latency_label_text(self.0@ / 1_000_000),
    {
        let ms = self.0.as_millis();
        if ms == 0 {
            "<1ms".to_owned()
        } else {
            let mut s = String::new();
            push_decimal_wide(&mut s, ms);
            s.append("ms");
            s
        }
    }
}

/// A duration shown as a clock, `HH:MM:SS`, hours with at least two digits.
pub open spec fn clock_text(ms: nat) -> Seq<char> {
    let total = ms / 1000;
    two_digits(total / 3600) + ":"@ + two_digits((total % 3600) / 60) + ":"@ + two_digits(
        total % 60,
    )
}

pub fn format_time(duration: Duration) -> (s: String)
    ensures
        s@ == clock_text(duration@ / 1_000_000),
{
    let total_secs = duration.as_secs();
    let hours = total_secs / 3600;
    let minutes = (total_secs % 3600) / 60;
    let seconds = total_secs % 60;
    let mut s = String::new();
    push_two_digits(&mut s, hours);
    s.append(":");
    push_two_digits(&mut s, minutes);
    s.append(":");
    push_two_digits(&mut s, seconds);
    assert(s@ =~= clock_text(duration@ / 1_000_000));
    s
}

#[derive(Debug, Clone)]
pub struct RequestLogEntry {
    pub time: String,
    pub method: String,
    pub path: String,
    pub status: u16,
    pub duration: Duration,
    pub hint: Option<String>,
}

/// The path as shown in a column of `width` characters: cut to `width - 1`
/// characters and an ellipsis when longer.
pub open spec fn shown_path(path: Seq<char>, width: nat) -> Seq<char> {
    if path.len() > width {
        path.take(if width >= 1 {
            width - 1
        } else {
            0
        }) + "…"@
    } else {
        path
    }
}

/// The path column of the request log is always `width` characters wide, so
/// the status and latency columns line up: a path that fits is shown whole,
/// a longer one keeps its first `width - 1` characters and an ellipsis.
pub proof fn lemma_path_column_width(path: Seq<char>, width: nat)
    requires
        width >= 1,
    ensures
        pad_right(shown_path(path, width), width).len() == width,
        path.len() <= width ==> pad_right(shown_path(path, width), width).take(path.len() as int)
            == path,
        path.len() > width ==> pad_right(shown_path(path, width), width) == path.take(width - 1)
            + "…"@,
{
    reveal_strlit("…");
    reveal_strlit(" ");
    let shown = shown_path(path, width);
    if shown.len() < width {
        lemma_repeat_len(" "@, (width - shown.len()) as nat);
    }
    if path.len() <= width {
        assert(pad_right(shown, width).take(path.len() as int) =~= path);
    }
}

/// The log line of a request, `path_width` characters wide for the path:
/// time, method, path, status and latency, each in its colour.
pub open spec fn log_line_of(
    time: Seq<char>,
    method: Seq<char>,
    path: Seq<char>,
    status: u16,
    duration_ms: nat,
    path_width: nat,
) -> Seq<char> {
    ANSI_DIM@ + time + ANSI_RESET@ + "  "@ + method_ansi(method_color_of(method)) + pad_right(
        method,
        5,
    ) + ANSI_RESET@ + "  "@ + pad_right(shown_path(path, path_width), path_width) + "  "@
        + status_ansi(status) + status_label_text(status, reason_phrase(status)) + ANSI_RESET@
        + "  "@ + latency_ansi(duration_ms) + latency_label_text(duration_ms) + ANSI_RESET@
}

/// The log line of an entry.
pub open spec fn log_line_text(e: RequestLogEntry, path_width: nat) -> Seq<char> {
    log_line_of(e.time@, e.method@, e.path@, e.status, e.duration@ / 1_000_000, path_width)
}

impl RequestLogEntry {
    pub fn from_event(event: &TunnelEvent) -> (r: Option<Self>)
        ensures
            match *event {
                TunnelEvent::RequestHandled { method, path, status, duration, hint, .. } => r matches Some(
                    e,
                ) && e.time@ == clock_text(duration@ / 1_000_000) && e.method@ == method@ && e.path@ == path@
                    && e.status == status && e.duration == duration && e.hint == hint,
                _ => r is None,
            },
    {
        match event {
            TunnelEvent::RequestHandled { method, path, status, duration, hint, .. } => {
                let time = format_time(*duration);
                Some(
                    RequestLogEntry {
                        time,
                        method: copy_string(method),
                        path: copy_string(path),
                        status: *status,
                        duration: *duration,
                        hint: hint.clone(),
                    },
                )
            },
            _ => None,
        }
    }

    /// Returns a distinct, user-facing warning string when the request failed
    /// in a way that carries an actionable hint (e.g. local server not running).
    pub fn format_hint(&self) -> (r: Option<String>)
        ensures
            match self.hint {
                Some(h) => r matches Some(s) && s@ == ANSI_YELLOW@ + "  ⚠ "@ + h@ + ANSI_RESET@,
                None => r is None,
            },
    {
        match &self.hint {
            Some(h) => {
                let mut s = concat3(ANSI_YELLOW, "  ⚠ ", h.as_str());
                s.append(ANSI_RESET);
                Some(s)
            },
            None => None,
        }
    }

    pub fn format_line(&self, path_width: usize) -> (s: String)
        ensures
            s@ == log_line_text(*self, path_width as nat),
    {
        let method_color = MethodColor::from_method(self.method.as_str()).ansi();
        let status = StatusInfo::from_code(self.status);
        let latency = LatencyInfo(self.duration);
        let n = self.path.as_str().unicode_len();
        let path = if n > path_width {
            let keep = if path_width >= 1 {
                path_width - 1
            } else {
                0
            };
            let mut truncated = self.path.as_str().substring_char(0, keep).to_owned();
            truncated.append("…");
            truncated
        } else {
            copy_string(&self.path)
        };
        assert(path@ =~= shown_path(self.path@, path_width as nat));
        let mut s = concat3(ANSI_DIM, self.time.as_str(), ANSI_RESET);
        s.append("  ");
        s.append(method_color);
        push_padded(&mut s, self.method.as_str(), 5);
        s.append(ANSI_RESET);
        s.append("  ");
        push_padded(&mut s, path.as_str(), path_width);
        s.append("  ");
        s.append(status.ansi());
        let label = status.label();
        s.append(label.as_str());
        s.append(ANSI_RESET);
        s.append("  ");
        s.append(latency.ansi());
        let lat = latency.label();
        s.append(lat.as_str());
        s.append(ANSI_RESET);
        assert(s@ =~= log_line_text(*self, path_width as nat));
        s
    }
}

} // verus!
