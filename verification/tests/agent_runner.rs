use symphony::agent_runner::{
    codex_approval_policy, codex_command, codex_thread_sandbox, codex_turn_sandbox_policy,
    diff_tokens, issue_is_active, session_tokens_to_usage, zero_token_usage, Worker, WorkerEvent,
    WorkerOutcome, WorkerPhase, WorkerResult, WorkerUpdate,
};
use symphony::codex::app_server::{SessionTokens, TurnResult};
use symphony::config::CodexConfig;
use symphony::domain::{Issue, RunOutcome, TokenUsage};
use symphony::error::SymphonyError;
use symphony::json::{Json, Number};
use symphony::text::state_matches;
use symphony::time::Timestamp;
use symphony::tracker::MemoryTracker;
use symphony::workspace::HookPhase;

fn from_value(value: &serde_json::Value) -> Json {
    match value {
        serde_json::Value::Null => Json::Null,
        serde_json::Value::Bool(b) => Json::Bool(*b),
        serde_json::Value::Number(n) => match (n.as_u64(), n.as_i64()) {
            (Some(n), _) => Json::Number(Number::Unsigned(n)),
            (None, Some(n)) => Json::Number(Number::Negative(n)),
            (None, None) => Json::Number(Number::Float(n.to_string())),
        },
        serde_json::Value::String(s) => Json::Text(s.clone()),
        serde_json::Value::Array(items) => Json::Array(items.iter().map(from_value).collect()),
        serde_json::Value::Object(members) => Json::Object(
            members.iter().map(|(key, value)| (key.clone(), from_value(value))).collect(),
        ),
    }
}

fn json(text: &str) -> Json {
    from_value(&serde_json::from_str(text).unwrap())
}

fn at(seconds: i64) -> Timestamp {
    Timestamp::from_unix_nanos(seconds as i128 * 1_000_000_000).unwrap()
}

fn strings(items: &[&str]) -> Vec<String> {
    items.iter().map(|item| String::from(*item)).collect()
}

fn issue(id: &str, state: &str) -> Issue {
    Issue {
        id: id.into(),
        identifier: "SYM-1".into(),
        title: "Test".into(),
        description: None,
        priority: None,
        state: state.into(),
        branch_name: None,
        url: None,
        labels: Vec::new(),
        blocked_by: Vec::new(),
        created_at: None,
        updated_at: None,
    }
}

fn tokens(input: u64, output: u64, total: u64) -> SessionTokens {
    SessionTokens {
        input_tokens: input,
        output_tokens: output,
        total_tokens: total,
        last_reported_total: total,
    }
}

const DEFAULT_POLICY: &str = r#"{"autoApprove": ["command_execution", "file_changes"]}"#;

#[test]
fn agent_runner_worker_result_construction_preserves_fields() {
    let result = WorkerResult {
        issue_id: "issue-1".into(),
        issue_identifier: "SYM-1".into(),
        outcome: WorkerOutcome::Failure("boom".into()),
        total_tokens: TokenUsage { input_tokens: 20, output_tokens: 10, total_tokens: 30 },
    };

    assert_eq!(result.issue_id, "issue-1");
    assert_eq!(result.issue_identifier, "SYM-1");
    assert_eq!(result.total_tokens.total_tokens, 30);
    assert!(matches!(result.outcome, WorkerOutcome::Failure(ref error) if error == "boom"));
}

#[test]
fn agent_runner_worker_outcome_variants_are_distinct() {
    let normal = WorkerOutcome::Normal;
    let failure = WorkerOutcome::Failure("failed".into());

    assert!(matches!(normal, WorkerOutcome::Normal));
    assert!(matches!(failure, WorkerOutcome::Failure(ref error) if error == "failed"));
}

#[test]
fn agent_runner_worker_update_turn_completed_holds_outcome() {
    let update = WorkerUpdate::TurnCompleted {
        issue_id: "issue-2".into(),
        turn_number: 3,
        outcome: RunOutcome::Timeout,
    };

    assert!(matches!(
        update,
        WorkerUpdate::TurnCompleted {
            issue_id,
            turn_number: 3,
            outcome: RunOutcome::Timeout,
        } if issue_id == "issue-2"
    ));
}

#[test]
fn codex_approval_policy_uses_default_for_auto() {
    assert_eq!(codex_approval_policy(&Some(json("\"auto\""))), json(DEFAULT_POLICY));
    assert_eq!(codex_approval_policy(&None), json(DEFAULT_POLICY));
}

#[test]
fn codex_approval_policy_preserves_map_values() {
    let policy = json(r#"{"reject": {"sandbox_approval": true}}"#);

    assert_eq!(
        codex_approval_policy(&Some(policy)),
        json(r#"{"reject": {"sandbox_approval": true}}"#)
    );
}

#[test]
fn config_thread_sandbox_with_sandbox_fallback() {
    let config = CodexConfig { sandbox: Some("container".into()), ..CodexConfig::default() };

    assert_eq!(codex_thread_sandbox(&config), "container");
}

#[test]
fn codex_thread_sandbox_prefers_thread_sandbox() {
    let config = CodexConfig {
        sandbox: Some("container".into()),
        thread_sandbox: Some("none".into()),
        ..CodexConfig::default()
    };

    assert_eq!(codex_thread_sandbox(&config), "none");
}

#[test]
fn codex_turn_sandbox_policy_falls_back_to_thread_sandbox() {
    let config = CodexConfig { sandbox: Some("container".into()), ..CodexConfig::default() };

    assert_eq!(codex_turn_sandbox_policy(&config, "/tmp/ws"), json("\"container\""));
}

#[test]
fn codex_turn_sandbox_policy_generates_structured_for_workspace_write() {
    let config = CodexConfig::default();
    let policy = codex_turn_sandbox_policy(&config, "/tmp/ws");

    assert_eq!(policy.get("type").unwrap(), &json("\"workspaceWrite\""));
    assert_eq!(policy.get("writableRoots").unwrap(), &json("[\"/tmp/ws\"]"));
    assert_eq!(policy.get("readOnlyAccess").unwrap(), &json(r#"{"type": "fullAccess"}"#));
    assert_eq!(policy.get("networkAccess").unwrap(), &json("false"));
}

#[test]
fn codex_turn_sandbox_policy_preserves_explicit_policy() {
    let explicit = r#"{"type": "custom", "writableRoots": ["/foo"]}"#;
    let config =
        CodexConfig { turn_sandbox_policy: Some(json(explicit)), ..CodexConfig::default() };

    assert_eq!(codex_turn_sandbox_policy(&config, "/tmp/ws"), json(explicit));
}

#[test]
fn diff_tokens_computes_delta_correctly() {
    let previous = tokens(10, 5, 15);
    let current = tokens(25, 12, 37);

    let delta = diff_tokens(&previous, &current);

    assert_eq!(delta.input_tokens, 15);
    assert_eq!(delta.output_tokens, 7);
    assert_eq!(delta.total_tokens, 22);
}

#[test]
fn diff_tokens_handles_zero_delta() {
    let tokens = tokens(10, 5, 15);

    let delta = diff_tokens(&tokens, &tokens);

    assert_eq!(delta.input_tokens, 0);
    assert_eq!(delta.output_tokens, 0);
    assert_eq!(delta.total_tokens, 0);
}

#[test]
fn diff_tokens_never_goes_below_zero() {
    let delta = diff_tokens(&tokens(10, 5, 15), &tokens(4, 9, 13));

    assert_eq!(delta.input_tokens, 0);
    assert_eq!(delta.output_tokens, 4);
    assert_eq!(delta.total_tokens, 0);
}

#[test]
fn session_tokens_to_usage_preserves_all_fields() {
    let usage = session_tokens_to_usage(&tokens(100, 200, 300));

    assert_eq!(usage.input_tokens, 100);
    assert_eq!(usage.output_tokens, 200);
    assert_eq!(usage.total_tokens, 300);
}

#[test]
fn zero_token_usage_is_all_zeros() {
    let usage = zero_token_usage();

    assert_eq!(usage.input_tokens, 0);
    assert_eq!(usage.output_tokens, 0);
    assert_eq!(usage.total_tokens, 0);
}

#[test]
fn codex_command_falls_back_to_default() {
    assert_eq!(codex_command(&CodexConfig::default()), "codex app-server");
}

#[test]
fn codex_command_uses_configured_value() {
    let config = CodexConfig { command: Some("custom-codex".into()), ..CodexConfig::default() };

    assert_eq!(codex_command(&config), "custom-codex");
}

#[test]
fn codex_command_falls_back_for_empty_string() {
    let config = CodexConfig { command: Some("".into()), ..CodexConfig::default() };

    assert_eq!(codex_command(&config), "codex app-server");
}

#[test]
fn codex_command_falls_back_for_whitespace_only() {
    let config = CodexConfig { command: Some("   ".into()), ..CodexConfig::default() };

    assert_eq!(codex_command(&config), "codex app-server");
}

#[test]
fn state_matches_is_case_insensitive() {
    assert!(state_matches("Todo", &strings(&["todo", "in progress"])));
    assert!(state_matches("IN PROGRESS", &strings(&["Todo", "In Progress"])));
    assert!(!state_matches("Done", &strings(&["Todo", "In Progress"])));
}

#[test]
fn state_matches_handles_whitespace() {
    assert!(state_matches("  Todo  ", &strings(&["todo"])));
    assert!(state_matches("Todo", &strings(&["  todo  "])));
}

#[test]
fn issue_is_active_returns_true_for_active_state() {
    let tracker = MemoryTracker::new(vec![issue("issue-1", "In Progress")]);
    let found = tracker.refresh_issue_states(&strings(&["issue-1"])).ok();

    assert!(issue_is_active(&found, &strings(&["In Progress", "Todo"])));
}

#[test]
fn issue_is_active_returns_false_for_terminal_state() {
    let tracker = MemoryTracker::new(vec![issue("issue-1", "Done")]);
    let found = tracker.refresh_issue_states(&strings(&["issue-1"])).ok();

    assert!(!issue_is_active(&found, &strings(&["In Progress", "Todo"])));
}

#[test]
fn issue_is_active_returns_false_when_issue_not_found() {
    let tracker = MemoryTracker::new(vec![]);
    let found = tracker.refresh_issue_states(&strings(&["missing"])).ok();

    assert!(!issue_is_active(&found, &strings(&["In Progress"])));
}

#[test]
fn issue_is_active_while_the_tracker_does_not_answer() {
    assert!(issue_is_active(&None, &strings(&["In Progress"])));
}

#[test]
fn codex_approval_policy_empty_string_uses_default() {
    assert_eq!(codex_approval_policy(&Some(json("\"\""))), json(DEFAULT_POLICY));
}

#[test]
fn codex_approval_policy_whitespace_only_uses_default() {
    assert_eq!(codex_approval_policy(&Some(json("\"  \""))), json(DEFAULT_POLICY));
}

#[test]
fn codex_thread_sandbox_defaults_to_workspace_write() {
    assert_eq!(codex_thread_sandbox(&CodexConfig::default()), "workspace-write");
}

#[test]
fn codex_thread_sandbox_empty_strings_fallback() {
    let config = CodexConfig {
        thread_sandbox: Some("".into()),
        sandbox: Some("  ".into()),
        ..CodexConfig::default()
    };

    assert_eq!(codex_thread_sandbox(&config), "workspace-write");
}

fn turn(tokens: SessionTokens, outcome: RunOutcome) -> WorkerEvent {
    WorkerEvent::TurnFinished {
        result: TurnResult { outcome, tokens, rate_limit: None },
        now: at(100),
    }
}

fn up_to_first_turn(worker: &mut Worker) {
    assert_eq!(worker.phase, WorkerPhase::Workspace);
    worker.advance(WorkerEvent::Done);
    assert_eq!(worker.hook_phase(), Some(HookPhase::AfterCreate));
    worker.advance(WorkerEvent::Done);
    assert_eq!(worker.hook_phase(), Some(HookPhase::BeforeRun));
    worker.advance(WorkerEvent::Done);
    worker.advance(WorkerEvent::Prompt("do it".into()));
    assert_eq!(worker.phase, WorkerPhase::Launch);
    worker.advance(WorkerEvent::Done);
    worker.advance(WorkerEvent::Session("session-1".into()));
    let updates = worker.advance(WorkerEvent::Thread("thread-1".into()));
    assert!(matches!(
        &updates[..],
        [WorkerUpdate::SessionStarted { session_id, .. }] if session_id == "session-1"
    ));
    worker.advance(WorkerEvent::Done);
    assert_eq!(worker.phase, WorkerPhase::Turn);
}

#[test]
fn worker_goes_on_while_the_issue_is_active_and_turns_are_left() {
    let mut worker = Worker::new("issue-1", "SYM-1", 2, &strings(&["In Progress"]));
    up_to_first_turn(&mut worker);

    let updates = worker.advance(turn(tokens(10, 5, 15), RunOutcome::Success));
    assert_eq!(updates.len(), 2);
    assert!(matches!(
        &updates[0],
        WorkerUpdate::CodexUpdate { tokens, .. } if tokens.total_tokens == 15
    ));
    assert!(matches!(&updates[1], WorkerUpdate::TurnCompleted { turn_number: 1, .. }));

    let tracker = MemoryTracker::new(vec![issue("issue-1", "in progress")]);
    let found = tracker.refresh_issue_states(&strings(&["issue-1"])).ok();
    worker.advance(WorkerEvent::IssueChecked(found));
    assert_eq!(worker.phase, WorkerPhase::Prompt);
    assert_eq!(worker.turn_number, 2);

    worker.advance(WorkerEvent::Prompt("go on".into()));
    worker.advance(WorkerEvent::Done);
    let updates = worker.advance(turn(tokens(30, 10, 40), RunOutcome::Success));
    assert!(matches!(
        &updates[0],
        WorkerUpdate::CodexUpdate { tokens, .. } if tokens.total_tokens == 25
    ));
    assert_eq!(worker.phase, WorkerPhase::Shutdown);
    worker.advance(WorkerEvent::Done);
    assert_eq!(worker.hook_phase(), Some(HookPhase::AfterRun));
    worker.advance(WorkerEvent::Done);
    assert_eq!(worker.phase, WorkerPhase::Finished);

    let result = worker.result();
    assert!(matches!(result.outcome, WorkerOutcome::Normal));
    assert_eq!(result.total_tokens.total_tokens, 40);
}

#[test]
fn worker_failure_keeps_its_reason_and_cleans_up() {
    let mut worker = Worker::new("issue-1", "SYM-1", 3, &strings(&["Todo"]));
    worker.advance(WorkerEvent::Done);
    worker.advance(WorkerEvent::Failed(SymphonyError::Workspace("hook failed".into())));
    assert_eq!(worker.phase, WorkerPhase::AfterRun);
    worker.advance(WorkerEvent::Done);

    let result = worker.result();
    assert!(matches!(result.outcome, WorkerOutcome::Failure(ref m) if m.contains("hook failed")));
}

#[test]
fn worker_without_workspace_finishes_at_once() {
    let mut worker = Worker::new("issue-1", "SYM-1", 3, &strings(&["Todo"]));
    worker.advance(WorkerEvent::Failed(SymphonyError::Workspace("no room".into())));

    assert_eq!(worker.phase, WorkerPhase::Finished);
}
