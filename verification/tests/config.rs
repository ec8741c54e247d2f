use symphony::collections::TextMap;
use symphony::config::{
    expand_tilde, hook_timeout_or_default, normalize_state_limit_map, parse_i64_or_default,
    parse_positive_u64_or_default, parse_u32_or_default, parse_u64_or_default, parse_yaml_u32,
    resolve_env_var, state_limit_map, yaml_key_to_string, yaml_path_exists, yaml_to_json_value,
    CodexConfig, Environment, IntegerLike, PollingConfig, ServerConfig, SymphonyConfig,
    TrackerConfig, WorkerConfig, WorkspaceConfig,
};
use symphony::error::SymphonyError;
use symphony::json::{Json, Number};
use symphony::workflow::parse_workflow_content;
use symphony::yaml::Yaml;

fn environment(vars: &[(&str, &str)]) -> Environment {
    let mut map = TextMap::new();
    for (name, value) in vars {
        map.insert(String::from(*name), String::from(*value));
    }
    Environment { vars: map }
}

fn yaml(text: &str) -> Yaml {
    parse_workflow_content(&format!("---\n{text}\n---\n")).unwrap().0
}

fn read(text: &str, fields: SymphonyConfig, env: &Environment) -> SymphonyConfig {
    SymphonyConfig::from_yaml_value(&yaml(text), Ok(fields), env).unwrap()
}

fn tracker(tracker: TrackerConfig, env: &Environment) -> SymphonyConfig {
    read("tracker: {}", SymphonyConfig { tracker, ..SymphonyConfig::default() }, env)
}

fn words(text: &str) -> Option<IntegerLike> {
    Some(IntegerLike::Text(text.into()))
}

fn number(n: i64) -> Option<IntegerLike> {
    Some(IntegerLike::Integer(n))
}

#[test]
fn config_defaults_are_applied() {
    let config = read("{}", SymphonyConfig::default(), &environment(&[]));

    assert_eq!(config.polling.interval_ms, 30_000);
    assert_eq!(config.polling.stall_timeout_ms, 600_000);
    assert_eq!(config.hooks.timeout_ms, 60_000);
    assert_eq!(config.agent.max_concurrent_agents, 10);
    assert_eq!(config.agent.max_turns, 20);
    assert_eq!(config.agent.max_retry_backoff_ms, 300_000);
    assert_eq!(config.tracker.active_states, vec!["Todo", "In Progress"]);
    assert_eq!(config.tracker.terminal_states, vec!["Done", "Canceled"]);
    assert_eq!(config.tracker.assignee, None);
    assert_eq!(config.codex.command.as_deref(), Some("codex app-server"));
    assert_eq!(config.codex.turn_timeout_ms, Some(3_600_000));
    assert_eq!(config.codex.read_timeout_ms, Some(5_000));
    assert_eq!(config.codex.stall_timeout_ms, Some(300_000));
    assert_eq!(config.server.host.as_deref(), Some("127.0.0.1"));
    assert!(config.observability.dashboard_enabled);
    assert_eq!(config.observability.refresh_ms, 1_000);
    assert_eq!(config.observability.render_interval_ms, 16);
    assert_eq!(config.observability.log_max_bytes, 10_485_760);
    assert_eq!(config.observability.log_max_files, 5);
}

#[test]
fn codex_stall_timeout_overrides_polling() {
    let fields = SymphonyConfig {
        polling: PollingConfig { stall_timeout_ms: 600_000, ..PollingConfig::default() },
        codex: CodexConfig { stall_timeout_ms: Some(120_000), ..CodexConfig::default() },
        ..SymphonyConfig::default()
    };
    let config = read(
        "polling:\n  stall_timeout_ms: 600000\ncodex:\n  stall_timeout_ms: 120000",
        fields,
        &environment(&[]),
    );

    assert_eq!(config.polling.stall_timeout_ms, 600_000);
    assert_eq!(config.codex.stall_timeout_ms, Some(120_000));
}

#[test]
fn polling_stall_timeout_fallback() {
    let fields = SymphonyConfig {
        polling: PollingConfig { stall_timeout_ms: 600_000, ..PollingConfig::default() },
        ..SymphonyConfig::default()
    };
    let config =
        read("polling:\n  stall_timeout_ms: 600000", fields, &environment(&[]));

    assert_eq!(config.codex.stall_timeout_ms, Some(600_000));
}

#[test]
fn unreadable_fields_are_an_error() {
    let result = SymphonyConfig::from_yaml_value(
        &Yaml::Null,
        Err("invalid type".into()),
        &environment(&[]),
    );

    assert!(matches!(
        result,
        Err(SymphonyError::ConfigParse(message)) if message == "invalid type"
    ));
}

#[test]
fn codex_timeout_string_values_parsed() {
    assert_eq!(parse_positive_u64_or_default(&words("3600000"), 1), 3_600_000);
    assert_eq!(parse_positive_u64_or_default(&words("5000"), 1), 5_000);
    assert_eq!(parse_i64_or_default(&words("300000"), 1), 300_000);
}

#[test]
fn config_approval_policy_string_value() {
    assert_eq!(yaml_to_json_value(&Yaml::Text("auto".into())), Json::Text("auto".into()));
}

#[test]
fn config_approval_policy_map_value() {
    assert_eq!(
        yaml_to_json_value(&yaml("reject:\n  sandbox_approval: true")),
        Json::Object(vec![(
            "reject".into(),
            Json::Object(vec![("sandbox_approval".into(), Json::Bool(true))]),
        )])
    );
}

#[test]
fn config_turn_sandbox_policy_map() {
    let value = yaml_to_json_value(&yaml("type: workspaceWrite\nwritableRoots:\n  - /tmp/ws"));

    assert_eq!(value.get("type"), Some(&Json::Text("workspaceWrite".into())));
    assert_eq!(
        value.get("writableRoots"),
        Some(&Json::Array(vec![Json::Text("/tmp/ws".into())]))
    );
}

#[test]
fn observability_config_parses_string_encoded_integers() {
    assert_eq!(parse_positive_u64_or_default(&words("5000"), 1_000), 5_000);
    assert_eq!(parse_positive_u64_or_default(&words("24"), 16), 24);
    assert_eq!(parse_positive_u64_or_default(&words("1048576"), 10_485_760), 1_048_576);
    assert_eq!(parse_u32_or_default(&words("7"), 5), 7);
}

#[test]
fn observability_config_invalid_numeric_values_fallback_to_defaults() {
    assert_eq!(parse_positive_u64_or_default(&number(0), 1_000), 1_000);
    assert_eq!(parse_positive_u64_or_default(&number(-1), 16), 16);
    assert_eq!(parse_positive_u64_or_default(&number(0), 10_485_760), 10_485_760);
    assert_eq!(parse_u32_or_default(&number(-3), 5), 5);
}

#[test]
fn numbers_fall_back_where_they_do_not_fit() {
    assert_eq!(parse_u64_or_default(&number(0), 3), 0);
    assert_eq!(parse_u64_or_default(&number(-1), 3), 3);
    assert_eq!(parse_u64_or_default(&words(" 12 "), 3), 12);
    assert_eq!(parse_u64_or_default(&words("nope"), 3), 3);
    assert_eq!(parse_u64_or_default(&None, 3), 3);
    assert_eq!(parse_u32_or_default(&number(4_294_967_296), 5), 5);
    assert_eq!(hook_timeout_or_default(&number(0)), 60_000);
    assert_eq!(hook_timeout_or_default(&number(7)), 7);
}

#[test]
fn assignee_config_parses_literal_value() {
    let config = tracker(
        TrackerConfig { assignee: Some("user-uuid-123".into()), ..TrackerConfig::default() },
        &environment(&[]),
    );

    assert_eq!(config.tracker.assignee.as_deref(), Some("user-uuid-123"));
}

#[test]
fn env_resolution_uses_variable_value() {
    let config = tracker(
        TrackerConfig { api_key: Some("$SYMPHONY_TEST_KEY".into()), ..TrackerConfig::default() },
        &environment(&[("SYMPHONY_TEST_KEY", "secret")]),
    );

    assert_eq!(config.tracker.api_key.as_deref(), Some("secret"));
}

#[test]
fn env_resolution_treats_empty_value_as_missing() {
    let env = environment(&[("SYMPHONY_EMPTY_KEY", "")]);

    assert_eq!(resolve_env_var("$SYMPHONY_EMPTY_KEY", &env), None);
    assert_eq!(resolve_env_var("plain", &env).as_deref(), Some("plain"));
}

#[test]
fn assignee_env_resolution_uses_variable_value() {
    let config = tracker(
        TrackerConfig {
            assignee: Some("$SYMPHONY_ASSIGNEE_KEY".into()),
            ..TrackerConfig::default()
        },
        &environment(&[("SYMPHONY_ASSIGNEE_KEY", "viewer-123")]),
    );

    assert_eq!(config.tracker.assignee.as_deref(), Some("viewer-123"));
}

#[test]
fn assignee_uses_linear_assignee_fallback() {
    let config = tracker(
        TrackerConfig {
            kind: Some("linear".into()),
            assignee: Some("$SYMPHONY_LINEAR_ASSIGNEE_MISSING".into()),
            ..TrackerConfig::default()
        },
        &environment(&[("LINEAR_ASSIGNEE", "fallback-viewer")]),
    );

    assert_eq!(config.tracker.assignee.as_deref(), Some("fallback-viewer"));
}

#[test]
fn assignee_empty_env_resolves_to_none() {
    let config = tracker(
        TrackerConfig {
            assignee: Some("$SYMPHONY_ASSIGNEE_EMPTY".into()),
            ..TrackerConfig::default()
        },
        &environment(&[("SYMPHONY_ASSIGNEE_EMPTY", "")]),
    );

    assert_eq!(config.tracker.assignee, None);
}

#[test]
fn api_key_falls_back_for_linear_only() {
    let env = environment(&[("LINEAR_API_KEY", "from-env")]);
    let linear = TrackerConfig { kind: Some("linear".into()), ..TrackerConfig::default() };

    assert_eq!(tracker(linear, &env).tracker.api_key.as_deref(), Some("from-env"));
    assert_eq!(tracker(TrackerConfig::default(), &env).tracker.api_key, None);
}

#[test]
fn tilde_expansion_uses_home_directory() {
    let env = environment(&[("HOME", "/home/me")]);

    assert_eq!(expand_tilde("~/workspace", &env), "/home/me/workspace");
    assert_eq!(expand_tilde("/workspace", &env), "/workspace");
    let config = read(
        "{}",
        SymphonyConfig {
            workspace: WorkspaceConfig { root: Some("~/ws".into()) },
            ..SymphonyConfig::default()
        },
        &env,
    );
    assert_eq!(config.workspace.root.as_deref(), Some("/home/me/ws"));
}

#[test]
fn per_state_limits_are_normalized_and_filtered() {
    let unsigned = |n: u64| Yaml::Number(Number::Unsigned(n));
    let limits = normalize_state_limit_map(&state_limit_map(&[
        ("Todo".into(), unsigned(3)),
        ("IN_PROGRESS".into(), Yaml::Text("2".into())),
        ("blocked".into(), unsigned(0)),
        ("invalid".into(), Yaml::Text("nope".into())),
    ]));

    assert_eq!(limits.get("todo"), Some(&3));
    assert_eq!(limits.get("in_progress"), Some(&2));
    assert!(!limits.contains_key("blocked"));
    assert!(!limits.contains_key("invalid"));
    assert_eq!(parse_yaml_u32(&unsigned(4_294_967_296)), None);
}

fn linear(api_key: Option<&str>, project: Option<&str>) -> SymphonyConfig {
    SymphonyConfig {
        tracker: TrackerConfig {
            kind: Some("linear".into()),
            api_key: api_key.map(String::from),
            project_slug: project.map(String::from),
            ..TrackerConfig::default()
        },
        ..SymphonyConfig::default()
    }
}

#[test]
fn validation_fails_when_tracker_kind_is_missing() {
    let error = SymphonyConfig::default().validate().unwrap_err();

    assert!(matches!(error, SymphonyError::ConfigValidation(_)));
}

#[test]
fn validation_fails_when_api_key_is_missing() {
    let error = linear(None, Some("proj")).validate().unwrap_err();

    assert!(matches!(error, SymphonyError::ConfigValidation(_)));
}

#[test]
fn validation_fails_when_project_slug_is_missing() {
    let error = linear(Some("token"), None).validate().unwrap_err();

    assert!(matches!(error, SymphonyError::ConfigValidation(_)));
}

#[test]
fn validation_fails_when_tracker_kind_is_not_linear() {
    let mut config = linear(Some("token"), Some("proj"));
    config.tracker.kind = Some("github".into());
    config.codex.command = Some("codex app-server".into());

    let error = config.validate().unwrap_err();

    assert!(matches!(error, SymphonyError::ConfigValidation(_)));
}

#[test]
fn validation_allows_memory_tracker_without_linear_fields() {
    let mut config = linear(None, None);
    config.tracker.kind = Some("memory".into());
    config.codex.command = Some("codex app-server".into());

    assert!(config.validate().is_ok());
}

#[test]
fn validation_accepts_a_complete_linear_tracker() {
    assert!(linear(Some("token"), Some("proj")).validate().is_ok());
}

#[test]
fn worker_config_defaults_when_section_is_missing() {
    let config = WorkerConfig::default();

    assert!(config.ssh_hosts.is_empty());
    assert_eq!(config.max_concurrent_agents_per_host, None);
}

#[test]
fn server_config_default_host_is_localhost() {
    let config = ServerConfig::default();

    assert_eq!(config.host.as_deref(), Some("127.0.0.1"));
    assert_eq!(config.port, None);
}

#[test]
fn paths_in_a_document_are_found() {
    let value = yaml("polling:\n  stall_timeout_ms: 1");

    assert!(yaml_path_exists(&value, &["polling", "stall_timeout_ms"]));
    assert!(!yaml_path_exists(&value, &["codex", "stall_timeout_ms"]));
}

#[test]
fn keys_are_shown_as_text() {
    assert_eq!(yaml_key_to_string(&Yaml::Null), "null");
    assert_eq!(yaml_key_to_string(&Yaml::Bool(true)), "true");
    assert_eq!(yaml_key_to_string(&Yaml::Number(Number::Unsigned(7))), "7");
    assert_eq!(yaml_key_to_string(&Yaml::Text("a".into())), "a");
    assert_eq!(yaml_key_to_string(&Yaml::Sequence(vec![Yaml::Text("a".into())])), "- a");
}
