use localshare::error::LocalForwardError;
use localshare::time::Duration;
use localshare::ui::banner::{Banner, ConnectionStatus};
use localshare::ui::error_view::ErrorView;
use localshare::ui::log::{
    format_time, LatencyInfo, MethodColor, RequestLogEntry, StatusInfo,
};
use localshare::ui::qr::render_qr;

// ── banner ────────────────────────────────────────────────────────────────

#[test]
fn live_banner_contains_url() {
    let banner = Banner::new(
        "https://foo.relay.localshare.dev",
        "http://127.0.0.1:3000",
        ConnectionStatus::Live,
        "relay.localshare.dev",
        "0.1.0",
    );
    let text = banner.render();
    assert!(text.contains("https://foo.relay.localshare.dev"));
    assert!(text.contains("http://127.0.0.1:3000"));
    assert!(text.contains("● LIVE"));
    assert!(text.contains("relay.localshare.dev"));
}

#[test]
fn reconnecting_label_includes_attempt() {
    let banner = Banner::new(
        "https://foo.relay.localshare.dev",
        "http://127.0.0.1:3000",
        ConnectionStatus::Reconnecting { attempt: 3 },
        "relay.localshare.dev",
        "0.1.0",
    );
    let text = banner.render();
    assert!(text.contains("▲ RECONNECTING (Attempt 3)..."));
}

#[test]
fn banner_box_rows_are_aligned() {
    let banner = Banner::new("u", "f", ConnectionStatus::Connecting, "r", "9");
    let text = banner.render();
    let lines: Vec<&str> = text.lines().collect();
    assert_eq!(lines[0], "localshare 9 • Share your local server instantly");
    let width = lines[1].chars().count();
    for l in &lines[1..] {
        assert_eq!(l.chars().count(), width);
    }
    assert_eq!(lines.len(), 6);
    assert!(lines[1].starts_with('┌') && lines[5].starts_with('└'));
}

#[test]
fn status_labels() {
    let (label, color) = ConnectionStatus::Live.as_label();
    assert_eq!(label, "● LIVE");
    assert_eq!(color, "\x1b[32m");
    let (label, color) = ConnectionStatus::Connecting.as_label();
    assert_eq!(label, "◌ CONNECTING...");
    assert_eq!(color, "\x1b[36m");
}

// ── error view ────────────────────────────────────────────────────────────

#[test]
fn renders_error_with_hint() {
    let err = LocalForwardError::target_connection_refused("127.0.0.1", 3000);
    let view = ErrorView::new("Could not connect to local server", "", &err);
    let text = view.render();
    assert!(text.contains("✗ Could not connect to local server"));
    assert!(text.contains("127.0.0.1:3000"));
    assert!(text.contains("→"));
}

#[test]
fn includes_detail_when_present() {
    let err = LocalForwardError::target_connection_refused("127.0.0.1", 3000);
    let view = ErrorView::new("Failed", "extra context", &err);
    let text = view.render();
    assert!(text.contains("extra context"));
}

#[test]
fn error_view_exact_text() {
    let err = LocalForwardError::target_connection_refused("127.0.0.1", 3000);
    let view = ErrorView::new("Failed", "", &err);
    assert_eq!(
        view.render(),
        "✗ Failed\n    connection refused to local target 127.0.0.1:3000\n    → Is your local server running on 127.0.0.1:3000?\n"
    );
}

// ── request log ───────────────────────────────────────────────────────────

#[test]
fn status_color_2xx_is_green() {
    let info = StatusInfo::from_code(200);
    assert_eq!(info.ansi(), "\x1b[32m");
}

#[test]
fn status_color_4xx_is_yellow() {
    let info = StatusInfo::from_code(404);
    assert_eq!(info.ansi(), "\x1b[33m");
}

#[test]
fn status_color_5xx_is_red() {
    let info = StatusInfo::from_code(502);
    assert_eq!(info.ansi(), "\x1b[31m");
}

#[test]
fn latency_color_green_below_100ms() {
    let info = LatencyInfo(Duration::from_millis(50));
    assert_eq!(info.ansi(), "\x1b[32m");
}

#[test]
fn latency_color_yellow_in_mid_range() {
    let info = LatencyInfo(Duration::from_millis(200));
    assert_eq!(info.ansi(), "\x1b[33m");
}

#[test]
fn latency_color_red_above_500ms() {
    let info = LatencyInfo(Duration::from_millis(600));
    assert_eq!(info.ansi(), "\x1b[31m");
}

#[test]
fn request_log_line_formatting() {
    let entry = RequestLogEntry {
        time: "18:42:01".into(),
        method: "GET".into(),
        path: "/api/v1/health".into(),
        status: 200,
        duration: Duration::from_millis(4),
        hint: None,
    };
    let line = entry.format_line(20);
    assert!(line.contains("GET"));
    assert!(line.contains("/api/v1/health"));
    assert!(line.contains("200"));
    assert!(line.contains("4ms"));
}

#[test]
fn request_log_hint_when_present() {
    let entry = RequestLogEntry {
        time: "18:42:01".into(),
        method: "GET".into(),
        path: "/".into(),
        status: 502,
        duration: Duration::from_millis(4),
        hint: Some("Is your local server running on 127.0.0.1:3000?".into()),
    };
    let hint = entry.format_hint().expect("hint should be rendered");
    assert!(hint.contains("Is your local server running on 127.0.0.1:3000?"));
}

#[test]
fn request_log_no_hint_when_absent() {
    let entry = RequestLogEntry {
        time: "18:42:01".into(),
        method: "GET".into(),
        path: "/".into(),
        status: 200,
        duration: Duration::from_millis(4),
        hint: None,
    };
    assert!(entry.format_hint().is_none());
}

#[test]
fn request_log_line_truncates_path() {
    let entry = RequestLogEntry {
        time: "18:42:01".into(),
        method: "GET".into(),
        path: "/this/is/a/very/long/path/that/should/be/truncated".into(),
        status: 200,
        duration: Duration::from_millis(4),
        hint: None,
    };
    let line = entry.format_line(10);
    assert!(line.contains('…'));
}

#[test]
fn request_log_line_exact() {
    let entry = RequestLogEntry {
        time: "00:00:01".into(),
        method: "PUT".into(),
        path: "/abcdef".into(),
        status: 201,
        duration: Duration::from_millis(0),
        hint: None,
    };
    assert_eq!(
        entry.format_line(5),
        "\x1b[2m00:00:01\x1b[0m  \x1b[33mPUT  \x1b[0m  /abc…  \x1b[32m201 Created\x1b[0m  \x1b[32m<1ms\x1b[0m"
    );
}

#[test]
fn labels_and_colors() {
    assert_eq!(StatusInfo::from_code(299).label(), "299");
    assert_eq!(StatusInfo::from_code(503).label(), "503 Service Unavailable");
    assert_eq!(StatusInfo::from_code(302).ansi(), "\x1b[36m");
    assert_eq!(StatusInfo::from_code(700).ansi(), "\x1b[37m");
    assert_eq!(LatencyInfo(Duration::from_millis(500)).ansi(), "\x1b[33m");
    assert_eq!(LatencyInfo(Duration::from_millis(0)).label(), "<1ms");
    assert_eq!(LatencyInfo(Duration::from_millis(37)).label(), "37ms");
    assert_eq!(MethodColor::from_method("DELETE").ansi(), "\x1b[31m");
    assert_eq!(MethodColor::from_method("get").ansi(), "\x1b[37m");
    assert_eq!(MethodColor::from_method("POST").ansi(), "\x1b[32m");
}

#[test]
fn clock_format() {
    assert_eq!(format_time(Duration::from_millis(0)), "00:00:00");
    assert_eq!(format_time(Duration::from_secs(3 * 3600 + 2 * 60 + 1)), "03:02:01");
    assert_eq!(format_time(Duration::from_secs(100 * 3600)), "100:00:00");
}

// ── QR ────────────────────────────────────────────────────────────────────

#[test]
fn renders_known_data_with_quiet_zone() {
    let qr = render_qr("https://example.com");
    let width = qr.lines.iter().map(|l| l.chars().count()).max().unwrap();
    assert!(width >= 21 + 4);
    assert!(qr.lines.iter().all(|line| line.chars().count() == width));
    assert!((qr.lines.len() * 2) >= 21 + 4);
}

#[test]
fn output_is_valid_utf8_and_printable() {
    let qr = render_qr("https://example.com");
    for line in &qr.lines {
        assert!(line.chars().all(|c| { matches!(c, '█' | '▀' | '▄' | ' ') }));
    }
}

#[test]
fn empty_content_still_renders() {
    let qr = render_qr("");
    assert!(!qr.lines.is_empty());
}

#[test]
fn qr_too_long_falls_back() {
    let data = "x".repeat(8000);
    let qr = render_qr(&data);
    assert_eq!(qr.lines.len(), 1);
    assert!(qr.lines[0].starts_with("QR unavailable for: "));
    assert_eq!(render_qr("a").render().lines().count(), render_qr("a").lines.len());
}

#[test]
fn request_log_path_column_has_fixed_width() {
    let make = |path: &str| RequestLogEntry {
        time: "18:42:01".into(),
        method: "GET".into(),
        path: path.into(),
        status: 200,
        duration: Duration::from_millis(4),
        hint: None,
    };
    let short = make("/a").format_line(10);
    let exact = make("/abcdefghi").format_line(10);
    let long = make("/abcdefghijklmnop").format_line(10);
    assert_eq!(short.chars().count(), exact.chars().count());
    assert_eq!(exact.chars().count(), long.chars().count());
    assert!(long.contains("/abcdefgh… "));
    assert!(exact.contains("/abcdefghi  "));
}
