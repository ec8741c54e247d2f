use symphony::collections::{TextMap, TextSet};
use symphony::error::SymphonyError;
use symphony::logging::{
    resolve_log_directory, resolve_log_file_path, rotated_path, rotation_step, FileStep, RollingLog,
};
use symphony::startup::{
    acknowledgement_banner, check_acknowledgement, plan_stop, server_host, server_port,
    unexpected_http_server_exit, unexpected_orchestrator_exit, validate_logs_root, StopCause,
    StopStep,
};
use symphony::text::{
    comes_before, is_blank, is_whitespace, lines, normalize_state, parse_i64, parse_u32,
    parse_u64, split, to_ascii_lowercase, trim, trim_end, u64_text,
};
use symphony::time::Timestamp;

fn here() -> Result<String, String> {
    Ok(String::from("/work"))
}

#[test]
fn white_space_is_what_std_takes_for_it() {
    for c in (0..=0x10_ffffu32).filter_map(char::from_u32) {
        assert_eq!(is_whitespace(c), c.is_whitespace(), "{c:?}");
    }
}

#[test]
fn texts_are_handled_as_std_handles_them() {
    for s in ["", " ", " a b ", "\u{3000}x\u{2028}", "Äb\tC", "a\r\nb\n\nc", "\n", "x\r", "ab,,c,"] {
        assert_eq!(trim(s), s.trim());
        assert_eq!(trim_end(s), s.trim_end());
        assert_eq!(is_blank(s), s.trim().is_empty());
        assert_eq!(to_ascii_lowercase(s), s.to_ascii_lowercase());
        assert_eq!(lines(s), s.lines().map(String::from).collect::<Vec<_>>());
        assert_eq!(split(s, ','), s.split(',').map(String::from).collect::<Vec<_>>());
        assert_eq!(normalize_state(s), s.trim().to_ascii_lowercase());
        for other in ["", "a", "b", " "] {
            assert_eq!(comes_before(s, other), s < other);
        }
    }
}

#[test]
fn numbers_are_read_as_std_reads_them() {
    for s in
        ["0", "7", "+7", "-7", "", "+", "-", "007", "18446744073709551615", "18446744073709551616",
         "4294967295", "4294967296", "-9223372036854775808", "9223372036854775808", "1x", " 1"]
    {
        assert_eq!(parse_u64(s), s.parse::<u64>().ok(), "{s}");
        assert_eq!(parse_u32(s), s.parse::<u32>().ok(), "{s}");
        assert_eq!(parse_i64(s), s.parse::<i64>().ok(), "{s}");
    }
    for n in [0, 9, 10, 12_345, u64::MAX] {
        assert_eq!(u64_text(n), n.to_string());
    }
}

#[test]
fn maps_and_sets_keep_one_value_for_a_key() {
    let mut map: TextMap<u32> = TextMap::new();
    map.insert("a".into(), 1);
    map.insert("b".into(), 2);
    map.insert("a".into(), 3);
    assert_eq!(map.len(), 2);
    assert_eq!(map.get("a"), Some(&3));
    assert_eq!(map.remove("a"), Some(3));
    assert_eq!(map.remove("a"), None);
    assert!(!map.is_empty());

    let mut set = TextSet::new();
    set.insert("a".into());
    set.insert("a".into());
    assert_eq!(set.len(), 1);
    set.remove("a");
    assert!(!set.contains("a"));
}

#[test]
fn points_in_time_end_with_the_calendar() {
    let last = chrono::DateTime::<chrono::Utc>::MAX_UTC;
    let first = chrono::DateTime::<chrono::Utc>::MIN_UTC;
    let nanos = |at: chrono::DateTime<chrono::Utc>| {
        at.timestamp() as i128 * 1_000_000_000 + at.timestamp_subsec_nanos() as i128
    };

    assert!(Timestamp::from_unix_nanos(nanos(last)).is_some());
    assert!(Timestamp::from_unix_nanos(nanos(last) + 1).is_none());
    assert!(Timestamp::from_unix_nanos(nanos(first)).is_some());
    assert!(Timestamp::from_unix_nanos(nanos(first) - 1).is_none());
    for at in [first, last] {
        let own = Timestamp::from_unix_nanos(nanos(at)).unwrap();
        assert_eq!(own.to_rfc3339(), at.to_rfc3339());
        assert_eq!(own.calendar_format(), at.format("%Y-%m-%d %H:%M:%S").to_string());
    }
}

#[test]
fn spans_are_rounded_toward_zero() {
    let at = |nanos: i128| Timestamp::from_unix_nanos(nanos).unwrap();

    assert_eq!(at(0).millis_until(at(1_999_999)), 1);
    assert_eq!(at(1_999_999).millis_until(at(0)), -1);
    assert_eq!(at(-1).unix_seconds(), (-1, 999_999_999));
    assert_eq!(at(5).plus_millis(2).unix_nanos(), 2_000_005);
    assert_eq!(at(-1).to_rfc3339(), "1969-12-31T23:59:59.999999999+00:00");
}

#[test]
fn build_file_appender_creates_log_directory_tree() {
    assert_eq!(
        resolve_log_directory(Some("/tmp/nested/logs-root"), &here()).unwrap(),
        "/tmp/nested/logs-root/log"
    );
}

#[test]
fn build_file_appender_respects_logs_root_override() {
    assert_eq!(
        resolve_log_file_path(Some("/tmp/custom-root"), &here()).unwrap(),
        "/tmp/custom-root/log/symphony.log"
    );
    assert_eq!(resolve_log_file_path(None, &here()).unwrap(), "/work/log/symphony.log");
    assert_eq!(resolve_log_file_path(Some(" "), &here()).unwrap(), "/work/log/symphony.log");
    assert!(matches!(
        resolve_log_directory(None, &Err("gone".into())),
        Err(SymphonyError::Internal(message))
            if message == "failed to read current directory: gone"
    ));
}

#[test]
fn logs_are_rotated_when_they_have_no_room() {
    let mut log = RollingLog::new(10, 2, 0);

    assert!(!log.rotates_at_start());
    assert!(!log.rotates_before_write(20));
    log.wrote(8);
    assert!(!log.rotates_before_write(2));
    assert!(log.rotates_before_write(3));
    log.wrote(2);
    assert!(log.rotates_at_start());
    log.rotated();
    assert_eq!(log.current_size, 0);
    assert_eq!(RollingLog::new(0, 0, 0), RollingLog::new(1, 1, 0));
}

#[test]
fn rotated_files_move_up_by_one() {
    let log = RollingLog { max_bytes: 10, max_log_files: 2, current_size: 5 };

    assert_eq!(rotation_step(&log, 2, true), FileStep::Remove);
    assert_eq!(rotation_step(&log, 1, true), FileStep::MoveUp);
    assert_eq!(rotation_step(&log, 1, false), FileStep::Keep);
    assert_eq!(rotation_step(&log, 0, true), FileStep::MoveUp);
    assert_eq!(
        rotation_step(&RollingLog { current_size: 0, ..log }, 0, true),
        FileStep::Keep
    );
    assert_eq!(rotated_path("/log/symphony.log", 0), "/log/symphony.log");
    assert_eq!(rotated_path("/log/symphony.log", 12), "/log/symphony.log.12");
}

#[test]
fn validate_logs_root_rejects_empty_value() {
    let error = validate_logs_root(Some("")).unwrap_err();

    assert!(matches!(
        error,
        SymphonyError::ConfigValidation(message) if message == "--logs-root must not be empty"
    ));
    assert_eq!(validate_logs_root(Some("/x")).unwrap(), Some("/x"));
    assert_eq!(validate_logs_root(None).unwrap(), None);
}

#[test]
fn acknowledgement_banner_is_not_empty() {
    let banner = acknowledgement_banner();

    assert!(!banner.is_empty());
    let lines: Vec<&str> = banner.lines().collect();
    assert_eq!(lines.len(), 8);
    assert_eq!(lines[0].chars().count(), lines[1].chars().count() + 7);
    assert!(lines[1].starts_with("│ Symphony is an engineering preview."));
    assert!(banner.starts_with("\x1b[1;31m┌") && banner.ends_with("┘\x1b[0m"));
}

#[test]
fn the_program_waits_for_an_acknowledgement() {
    assert!(check_acknowledgement(true).is_ok());
    assert!(matches!(
        check_acknowledgement(false),
        Err(SymphonyError::ConfigValidation(message))
            if message == "missing required guardrails acknowledgement flag"
    ));
    assert_eq!(server_port(Some(1), Some(2)), Some(1));
    assert_eq!(server_port(None, Some(2)), Some(2));
    assert_eq!(server_host(&None), "127.0.0.1");
}

#[test]
fn the_program_stops_in_order() {
    assert_eq!(
        plan_stop(StopCause::Signal, true),
        vec![
            StopStep::StopOrchestrator,
            StopStep::StopServer,
            StopStep::AwaitOrchestrator,
            StopStep::AwaitServer,
        ]
    );
    assert_eq!(plan_stop(StopCause::OrchestratorEnded, false), vec![]);
    assert_eq!(
        plan_stop(StopCause::ServerEnded, true),
        vec![StopStep::StopOrchestrator, StopStep::AwaitOrchestrator]
    );
    assert!(matches!(
        unexpected_orchestrator_exit(Ok(())),
        SymphonyError::Internal(message) if message == "orchestrator exited before shutdown signal"
    ));
    assert!(matches!(
        unexpected_http_server_exit(Ok(Err(SymphonyError::Http("port".into())))),
        SymphonyError::Http(message) if message == "port"
    ));
    assert!(matches!(
        unexpected_http_server_exit(Err("panic".into())),
        SymphonyError::Internal(message) if message == "panic"
    ));
}

#[test]
fn every_error_has_its_text() {
    let texts = [
        SymphonyError::MissingWorkflowFile { path: "p".into() }.message(),
        SymphonyError::WorkflowParseError { message: "m".into() }.message(),
        SymphonyError::WorkflowFrontMatterNotAMap.message(),
        SymphonyError::ConfigValidation("c".into()).message(),
        SymphonyError::LinearApiStatus { status: 500, body: "b".into() }.message(),
        SymphonyError::LinearGraphqlErrors { messages: vec!["x\"y".into()] }.message(),
        SymphonyError::LinearMissingEndCursor.message(),
        SymphonyError::Internal("i".into()).message(),
    ];
    assert!(texts[0].contains("missing_workflow_file"));
    assert!(texts[4].contains("500"));
    assert!(texts[5].contains("[\"x\\\"y\"]"));
    for text in texts {
        assert!(!text.is_empty());
    }
}
