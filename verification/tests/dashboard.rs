use symphony::dashboard::driver::{Dashboard, DashboardEvent};
use symphony::dashboard::render::{
    border, format_duration, panel_line, render_panel_with_context, render_rate_limits,
    render_retry_row, render_running_row, truncate, visible_width,
};
use symphony::dashboard::sparkline::{buckets_to_sparkline, token_use, ROLLING_WINDOW_MS};
use symphony::dashboard::{
    compute_sparkline, render_panel, update_token_samples, RenderThrottle,
};
use symphony::domain::{RetryEntry, TokenUsage};
use symphony::http::dashboard::{
    escape_html, format_elapsed, render_retry_rows, render_running_rows,
};
use symphony::http::render_dashboard;
use symphony::http::routes::{
    detail_body, error_body, issue_body, issue_status, refresh_body, retry_row, running_row,
    state_body, IssueStatus,
};
use symphony::http::server::invalid_host;
use symphony::http::HttpServer;
use symphony::json::{Json, Number};
use symphony::error::SymphonyError;
use symphony::orchestrator::{AggregateTokens, RunningSnapshot, SnapshotCounts, StateSnapshot};
use symphony::time::Timestamp;

fn at(seconds: i64) -> Timestamp {
    Timestamp::from_unix_nanos(seconds as i128 * 1_000_000_000).unwrap()
}

/// The first second of noon of the 15th of March 2026, UTC.
const NOON: i64 = 1_773_576_000;

fn unsigned(n: u64) -> Json {
    Json::Number(Number::Unsigned(n))
}

fn running(id: &str, identifier: &str, state: &str, started_at: i64) -> RunningSnapshot {
    RunningSnapshot {
        issue_id: id.into(),
        issue_identifier: identifier.into(),
        state: state.into(),
        worker_host: None,
        session_id: String::from("session-1"),
        turn_count: 3,
        workspace_path: String::from("/tmp/ws"),
        started_at: at(started_at),
        last_event_at: None,
        tokens: TokenUsage { input_tokens: 40, output_tokens: 60, total_tokens: 100 },
    }
}

fn retrying(id: &str, identifier: &str) -> RetryEntry {
    RetryEntry {
        issue_id: id.into(),
        issue_identifier: identifier.into(),
        attempt: 2,
        scheduled_at: at(NOON + 30),
        reason: Some(String::from("backoff")),
        worker_host: None,
    }
}

fn sample_snapshot() -> StateSnapshot {
    StateSnapshot {
        generated_at: at(NOON),
        counts: SnapshotCounts { running: 1, claimed: 1, completed: 0, retrying: 1 },
        running: vec![running("issue-1", "SYM-101", "in_progress", NOON - 42)],
        retrying: vec![retrying("issue-2", "SYM-202")],
        codex_totals: AggregateTokens {
            input_tokens: 400,
            output_tokens: 500,
            total_tokens: 900,
            millis_running: 123_000,
        },
        rate_limits: Some(Json::Object(vec![
            ("remaining".into(), unsigned(42)),
            ("limit".into(), unsigned(100)),
        ])),
    }
}

#[test]
fn rapid_updates_are_coalesced() {
    let mut throttle = RenderThrottle::new(16);

    assert!(throttle.request(0));
    assert!(!throttle.request(5));
    assert_eq!(throttle.next_render_at_ms(), Some(16));
    assert!(!throttle.request(10));
    assert_eq!(throttle.next_render_at_ms(), Some(16));
    assert!(throttle.flush_if_ready(16));
    assert_eq!(throttle.next_render_at_ms(), None);
}

#[test]
fn an_interval_of_nothing_is_a_millisecond() {
    let mut throttle = RenderThrottle::new(0);

    assert_eq!(throttle.interval_ms, 1);
    assert!(!throttle.flush_if_ready(0));
    assert!(throttle.request(7));
    assert!(throttle.request(8));
}

#[test]
fn compute_sparkline_handles_no_samples() {
    assert_eq!(compute_sparkline(&[], ROLLING_WINDOW_MS, 4), "▁▁▁▁");
}

#[test]
fn compute_sparkline_handles_single_sample() {
    let sparkline = compute_sparkline(&[(1_000, 50)], ROLLING_WINDOW_MS, 4);

    assert_eq!(sparkline.chars().count(), 4);
    assert!(sparkline.ends_with('█'));
}

#[test]
fn compute_sparkline_handles_multiple_samples_within_window() {
    let sparkline = compute_sparkline(
        &[(10_000, 10), (20_000, 30), (30_000, 90), (40_000, 120)],
        40_000,
        4,
    );

    assert_eq!(sparkline.chars().count(), 4);
    assert!(sparkline.contains('█'));
}

#[test]
fn compute_sparkline_sums_gains_by_column() {
    let sparkline = compute_sparkline(
        &[(10_000, 10), (20_000, 30), (30_000, 90), (40_000, 120)],
        40_000,
        4,
    );

    assert_eq!(sparkline, "▁▂▃█");
    assert_eq!(compute_sparkline(&[(0, 5)], 0, 0), "");
}

#[test]
fn levels_are_rounded_with_halves_up() {
    assert_eq!(buckets_to_sparkline(&[0, 1, 2, 13, 14]), "▁▂▂██");
    assert_eq!(buckets_to_sparkline(&[0, 0]), "▁▁");
    for top in 1u64..200 {
        for part in 0..=top {
            let level = ((part as f64 / top as f64) * 7.0).round() as usize;
            let drawn = buckets_to_sparkline(&[part, top]);
            let expected = ['▁', '▂', '▃', '▄', '▅', '▆', '▇', '█'][level.min(7)];
            assert_eq!(drawn.chars().next(), Some(expected), "{part} of {top}");
        }
    }
}

#[test]
fn levels_of_large_gains_are_those_of_double_precision() {
    let blocks = ['▁', '▂', '▃', '▄', '▅', '▆', '▇', '█'];
    let mut seed: u64 = 0x9e37_79b9_7f4a_7c15;
    let mut next = || {
        seed ^= seed << 13;
        seed ^= seed >> 7;
        seed ^= seed << 17;
        seed
    };
    let mut pairs = vec![
        ((1 << 60) - 1, 14 << 60),
        ((1 << 53) + 1, u64::MAX),
        (u64::MAX - 1, u64::MAX),
        (1, u64::MAX),
        (u64::MAX, u64::MAX),
    ];
    for shift in 0..60 {
        let top = next() >> shift;
        pairs.push((next() % top.max(1), top));
        for step in 1..14u128 {
            let near = (top as u128 * step / 14) as u64;
            for part in near.saturating_sub(2)..=near.saturating_add(2) {
                pairs.push((part.min(top), top));
            }
        }
    }
    for (part, top) in pairs {
        let level = if top == 0 {
            0
        } else {
            ((part as f64 / top as f64) * 7.0).round() as usize
        };
        let drawn = buckets_to_sparkline(&[part, top]);
        assert_eq!(drawn.chars().next(), Some(blocks[level.min(7)]), "{part} of {top}");
    }
}

#[test]
fn update_token_samples_prunes_samples_outside_window() {
    let samples = vec![(0, 10), (ROLLING_WINDOW_MS - 1, 20)];
    let updated = update_token_samples(&samples, ROLLING_WINDOW_MS + 10, 30);

    assert_eq!(
        updated,
        vec![(ROLLING_WINDOW_MS - 1, 20), (ROLLING_WINDOW_MS + 10, 30)]
    );
}

#[test]
fn rolling_tps_uses_sample_window() {
    let samples = vec![(1_000, 100), (2_000, 150)];
    let (tokens, millis) = token_use(&samples, 3_000, 200).unwrap();

    assert_eq!(tokens as f64 / (millis as f64 / 1000.0), 50.0);
    assert_eq!(token_use(&samples, 1_000, 200), None);
    assert_eq!(token_use(&[], 1_000, 200), None);
    assert_eq!(token_use(&samples, 3_000, 50), Some((0, 2_000)));
}

#[test]
fn the_panel_is_drawn_at_most_once_in_an_interval() {
    let mut dashboard = Dashboard::new(16, 3);

    assert!(dashboard.handle(DashboardEvent::Started));
    assert!(!dashboard.handle(DashboardEvent::Changed(5)));
    assert!(!dashboard.handle(DashboardEvent::Deadline(15)));
    assert!(dashboard.handle(DashboardEvent::Deadline(16)));

    dashboard.sample(16, 900);
    let panel = dashboard.draw(&sample_snapshot(), "1.0");
    assert!(panel.contains("Throughput 10m"));
    assert!(panel.contains("1/3"));
}

#[test]
fn render_panel_shows_empty_state() {
    let mut snapshot = sample_snapshot();
    snapshot.counts.running = 0;
    snapshot.counts.retrying = 0;
    snapshot.running.clear();
    snapshot.retrying.clear();

    let panel = render_panel(&snapshot, "0.0");

    assert!(panel.contains("No active agents"));
    assert!(panel.contains("No entries"));
}

#[test]
fn render_panel_shows_running_sessions_and_retry_entries() {
    let panel = render_panel(&sample_snapshot(), "4.2");

    assert!(panel.contains("SYM-101"));
    assert!(panel.contains("in_progress"));
    assert!(panel.contains("SYM-202"));
    assert!(panel.contains("backoff"));
}

#[test]
fn render_panel_shows_token_statistics() {
    let panel = render_panel(&sample_snapshot(), "7.5");

    assert!(panel.contains("Throughput"));
    assert!(panel.contains("7.5 tps"));
    assert!(panel.contains("in 400 | out 500 | total 900"));
    assert!(panel.contains("remaining=42, limit=100"));
}

#[test]
fn render_panel_lines_are_equally_wide() {
    let panel = render_panel_with_context(&sample_snapshot(), "7.5", "▁▂█", 2);
    let lines: Vec<&str> = panel.lines().collect();

    assert_eq!(lines.len(), 13);
    for (i, line) in lines.iter().enumerate() {
        if i != 2 {
            assert_eq!(visible_width(line), 116, "line {i}");
        }
    }
}

#[test]
fn rows_are_padded_to_their_columns() {
    let snapshot = sample_snapshot();

    assert_eq!(
        render_running_row(&snapshot.running[0], at(NOON)),
        "SYM-101            in_progress            3         100        42s"
    );
    assert_eq!(
        render_retry_row(&snapshot.retrying[0], "2026-03-15 12:00:30"),
        "SYM-202                  2    2026-03-15 12:00:30     backoff"
    );
    let panel = render_panel(&snapshot, "0.0");
    assert!(panel.contains("2026-03-15 12:00:30"));
}

#[test]
fn durations_are_shown_in_two_units_at_most() {
    assert_eq!(format_duration(0), "0s");
    assert_eq!(format_duration(499), "0s");
    assert_eq!(format_duration(500), "1s");
    assert_eq!(format_duration(59_400), "59s");
    assert_eq!(format_duration(125_000), "2m 5s");
    assert_eq!(format_duration(3_725_000), "1h 2m");
}

#[test]
fn rate_limits_are_summed_up() {
    assert_eq!(render_rate_limits(&None), "n/a");
    assert_eq!(render_rate_limits(&Some(Json::Bool(true))), "true");
    assert_eq!(
        render_rate_limits(&Some(Json::Object(vec![("other".into(), unsigned(1))]))),
        "{\"other\":1}"
    );
    let long = Json::Text("x".repeat(50));
    assert_eq!(render_rate_limits(&Some(long)), format!("\"{}...", "x".repeat(32)));
}

#[test]
fn texts_are_cut_to_a_width() {
    assert_eq!(truncate("abcdef", 6), "abcdef");
    assert_eq!(truncate("abcdef", 5), "ab...");
    assert_eq!(truncate("abcdef", 3), "abc");
    assert_eq!(truncate("abcdef", 0), "");
}

#[test]
fn colours_take_no_room() {
    assert_eq!(visible_width("\x1b[36mab\x1b[0m"), 2);
    assert_eq!(visible_width("\x1bab"), 3);
    assert_eq!(visible_width("\x1b[36"), 0);
    assert_eq!(visible_width(&panel_line("\x1b[1mx\x1b[0m")), visible_width(&border('┌', '┐')));
}

fn empty_snapshot() -> StateSnapshot {
    StateSnapshot::empty(at(NOON))
}

fn populated_snapshot() -> StateSnapshot {
    StateSnapshot {
        running: vec![running("issue-1", "SYM-1", "In Progress", NOON - 120)],
        retrying: vec![retrying("issue-2", "SYM-2")],
        codex_totals: AggregateTokens {
            input_tokens: 500,
            output_tokens: 300,
            total_tokens: 800,
            millis_running: 45_700,
        },
        ..sample_snapshot()
    }
}

fn page(snapshot: &StateSnapshot) -> String {
    render_dashboard(snapshot, "45.7", at(NOON))
}

#[test]
fn render_dashboard_produces_valid_html() {
    let html = page(&empty_snapshot());

    assert!(html.starts_with("<!DOCTYPE html>"));
    assert!(html.contains("<html"));
    assert!(html.contains("</html>"));
    assert!(html.contains("Symphony"));
}

#[test]
fn render_dashboard_shows_empty_state_messages() {
    let html = page(&empty_snapshot());

    assert!(html.contains("No running sessions"));
    assert!(html.contains("No retry entries"));
}

#[test]
fn render_dashboard_includes_running_sessions() {
    let html = page(&populated_snapshot());

    assert!(html.contains("SYM-1"));
    assert!(html.contains("In Progress"));
    assert!(html.contains("/tmp/ws"));
}

#[test]
fn render_dashboard_includes_retry_entries() {
    let html = page(&populated_snapshot());

    assert!(html.contains("SYM-2"));
    assert!(html.contains("backoff"));
}

#[test]
fn render_dashboard_includes_token_totals() {
    let html = page(&populated_snapshot());

    assert!(html.contains("500"));
    assert!(html.contains("300"));
    assert!(html.contains("800"));
}

#[test]
fn render_dashboard_includes_meta_refresh() {
    let html = page(&empty_snapshot());

    assert!(html.contains("http-equiv=\"refresh\""));
    assert!(html.contains("content=\"5\">"));
}

#[test]
fn render_dashboard_includes_sse_script() {
    let html = page(&empty_snapshot());

    assert!(html.contains("EventSource"));
    assert!(html.contains("/api/v1/events"));
    assert!(html.contains("if(minutes>0){return `${minutes}m ${seconds}s`;}"));
}

#[test]
fn render_dashboard_shows_times() {
    let html = page(&populated_snapshot());

    assert!(html.contains("<span id=\"generated-at\">2026-03-15T12:00:00+00:00</span>"));
    assert!(html.contains("<p id=\"seconds-running\">45.7</p>"));
    assert!(html.contains("<td>2026-03-15T12:00:30+00:00</td>"));
}

#[test]
fn escape_html_handles_special_characters() {
    assert_eq!(escape_html("<script>"), "&lt;script&gt;");
    assert_eq!(escape_html("\"quotes\""), "&quot;quotes&quot;");
    assert_eq!(escape_html("'single'"), "&#39;single&#39;");
    assert_eq!(escape_html("a&b"), "a&amp;b");
}

#[test]
fn escape_html_preserves_plain_text() {
    assert_eq!(escape_html("hello world"), "hello world");
    assert_eq!(escape_html("SYM-123"), "SYM-123");
}

#[test]
fn rows_escape_what_they_show() {
    let mut entry = running("i", "<b>", "a&b", NOON - 61);
    entry.workspace_path = "/tmp/'x'".into();

    assert_eq!(
        render_running_rows(&[entry], at(NOON)),
        "<tr><td>&lt;b&gt;</td><td>a&amp;b</td><td>3</td><td>1m 1s</td><td>/tmp/&#39;x&#39;</td></tr>"
    );
    let mut entry = retrying("i", "SYM-9");
    entry.reason = None;
    assert!(render_retry_rows(&[entry]).ends_with("<td>-</td></tr>"));
}

#[test]
fn format_elapsed_shows_seconds_only_under_a_minute() {
    assert_eq!(format_elapsed(at(NOON - 42), at(NOON)), "42s");
}

#[test]
fn format_elapsed_shows_minutes_and_seconds() {
    assert_eq!(format_elapsed(at(NOON - 125), at(NOON)), "2m 5s");
}

#[test]
fn format_elapsed_handles_zero_duration() {
    assert_eq!(format_elapsed(at(NOON), at(NOON)), "0s");
}

#[test]
fn format_elapsed_clamps_negative_to_zero() {
    assert_eq!(format_elapsed(at(NOON + 10), at(NOON)), "0s");
}

fn member<'a>(value: &'a Json, keys: &[&str]) -> &'a Json {
    keys.iter().fold(value, |value, key| value.get(key).unwrap())
}

#[test]
fn state_response_contains_expected_structure() {
    let mut snapshot = sample_snapshot();
    snapshot.running[0].issue_identifier = "SYM-1".into();
    snapshot.retrying[0].issue_identifier = "SYM-2".into();
    let payload = state_body(
        &snapshot,
        "2026-03-15T12:00:00+00:00",
        Json::Number(Number::Float("12.5".into())),
    );

    assert_eq!(member(&payload, &["counts", "running"]), &unsigned(1));
    assert_eq!(member(&payload, &["counts", "retrying"]), &unsigned(1));
    assert_eq!(member(&payload, &["codex_totals", "total_tokens"]), &unsigned(900));
    let running = first(member(&payload, &["running"]));
    let retrying = first(member(&payload, &["retrying"]));
    assert_eq!(running.get("issue_identifier"), Some(&Json::Text("SYM-1".into())));
    assert_eq!(retrying.get("issue_identifier"), Some(&Json::Text("SYM-2".into())));
    assert_eq!(running, &running_row(&snapshot.running[0]));
    assert_eq!(retrying, &retry_row(&snapshot.retrying[0]));
    assert_eq!(member(&payload, &["rate_limits", "remaining"]), &unsigned(42));
}

fn first(value: &Json) -> &Json {
    match value {
        Json::Array(items) => &items[0],
        _ => panic!("not an array"),
    }
}

#[test]
fn a_running_row_shows_each_field() {
    let mut entry = running("issue-1", "SYM-1", "Todo", NOON);
    entry.worker_host = Some("host1".into());
    entry.last_event_at = Timestamp::from_unix_nanos(NOON as i128 * 1_000_000_000 + 500_000_000);
    let row = running_row(&entry);

    assert_eq!(row.get("issue_id"), Some(&Json::Text("issue-1".into())));
    assert_eq!(row.get("state"), Some(&Json::Text("Todo".into())));
    assert_eq!(row.get("worker_host"), Some(&Json::Text("host1".into())));
    assert_eq!(row.get("session_id"), Some(&Json::Text(entry.session_id.clone())));
    assert_eq!(row.get("turn_count"), Some(&unsigned(entry.turn_count as u64)));
    assert_eq!(row.get("workspace_path"), Some(&Json::Text(entry.workspace_path.clone())));
    assert_eq!(row.get("started_at"), Some(&Json::Text("2026-03-15T12:00:00Z".into())));
    assert_eq!(row.get("last_event_at"), Some(&Json::Text("2026-03-15T12:00:00.500Z".into())));
    assert_eq!(member(&row, &["tokens", "input_tokens"]), &unsigned(entry.tokens.input_tokens));
    assert_eq!(member(&row, &["tokens", "output_tokens"]), &unsigned(entry.tokens.output_tokens));
    assert_eq!(member(&row, &["tokens", "total_tokens"]), &unsigned(entry.tokens.total_tokens));
    entry.worker_host = None;
    entry.last_event_at = None;
    let row = running_row(&entry);
    assert_eq!(row.get("worker_host"), Some(&Json::Null));
    assert_eq!(row.get("last_event_at"), Some(&Json::Null));
}

#[test]
fn a_retry_row_shows_each_field() {
    let mut entry = retrying("issue-2", "SYM-2");
    entry.attempt = 3;
    entry.scheduled_at = at(NOON + 30);
    entry.reason = Some("retry".into());
    entry.worker_host = None;
    let row = retry_row(&entry);

    assert_eq!(
        row,
        Json::Object(vec![
            ("issue_id".into(), Json::Text("issue-2".into())),
            ("issue_identifier".into(), Json::Text("SYM-2".into())),
            ("attempt".into(), unsigned(3)),
            ("scheduled_at".into(), Json::Text("2026-03-15T12:00:30Z".into())),
            ("reason".into(), Json::Text("retry".into())),
            ("worker_host".into(), Json::Null),
        ])
    );
}

#[test]
fn rows_write_a_time_as_chrono_serialises_it() {
    for nanos in [0u32, 1, 1_000, 1_000_000, 999_999_999] {
        for seconds in [NOON, 0, -1, -62_167_219_201, 253_402_300_800] {
            let mut entry = retrying("i", "S");
            let total = seconds as i128 * 1_000_000_000 + nanos as i128;
            entry.scheduled_at = Timestamp::from_unix_nanos(total).unwrap();
            let time = chrono::DateTime::<chrono::Utc>::from_timestamp(seconds, nanos).unwrap();
            let written = serde_json::to_value(time).unwrap();
            let text = written.as_str().unwrap().to_owned();

            assert_eq!(retry_row(&entry).get("scheduled_at"), Some(&Json::Text(text)));
        }
    }
}

#[test]
fn the_answer_about_an_issue_holds_its_row() {
    let snapshot = sample_snapshot();
    let body = issue_body(&snapshot, "issue-1").unwrap();
    assert_eq!(body.get("status"), Some(&Json::Text("running".into())));
    assert_eq!(body.get("issue_id"), Some(&Json::Text("issue-1".into())));
    assert_eq!(body.get("details"), Some(&running_row(&snapshot.running[0])));
    let body = issue_body(&snapshot, "SYM-202").unwrap();
    assert_eq!(body.get("status"), Some(&Json::Text("retrying".into())));
    assert_eq!(body.get("details"), Some(&retry_row(&snapshot.retrying[0])));
    assert!(issue_body(&snapshot, "SYM-404").is_none());
}

#[test]
fn refresh_response_returns_accepted() {
    assert_eq!(refresh_body().get("queued"), Some(&Json::Bool(true)));
}

#[test]
fn issue_not_found_returns_404() {
    assert_eq!(issue_status(&sample_snapshot(), "SYM-404"), IssueStatus::NotFound);
    let payload = error_body("issue_not_found", "Issue not found");

    assert_eq!(member(&payload, &["error", "code"]), &Json::Text("issue_not_found".into()));
}

#[test]
fn issues_are_found_by_identifier_and_id() {
    let snapshot = sample_snapshot();

    assert_eq!(issue_status(&snapshot, "SYM-101"), IssueStatus::Running(0));
    assert_eq!(issue_status(&snapshot, "issue-1"), IssueStatus::Running(0));
    assert_eq!(issue_status(&snapshot, "SYM-202"), IssueStatus::Retrying(0));
    assert_eq!(issue_status(&snapshot, "issue-2"), IssueStatus::Retrying(0));
    let body = detail_body("running", "issue-1", "SYM-101", Json::Null);
    assert_eq!(body.get("status"), Some(&Json::Text("running".into())));
    assert_eq!(body.get("details"), Some(&Json::Null));
}

#[test]
fn dashboard_returns_html() {
    let html = page(&sample_snapshot());

    assert!(html.contains("Symphony"));
    assert!(html.contains("Running Sessions"));
}

#[test]
fn invalid_host_returns_http_error() {
    let server = HttpServer::new("not-an-ip".into(), 0);
    let error = invalid_host(&server.host, "invalid IP address syntax");

    assert!(
        matches!(error, SymphonyError::Http(message) if message.contains("invalid server host 'not-an-ip'"))
    );
}
