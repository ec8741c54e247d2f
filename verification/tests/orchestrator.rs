use symphony::agent_runner::{WorkerOutcome, WorkerResult, WorkerUpdate};
use symphony::collections::TextMap;
use symphony::config::{AgentConfig, SymphonyConfig, TrackerConfig, WorkerConfig};
use symphony::domain::{BlockerRef, Issue, LiveSession, RetryEntry, RunOutcome, TokenUsage};
use symphony::error::SymphonyError;
use symphony::json::{Json, Number};
use symphony::orchestrator::control::{
    cleanup_identifiers, delay_fits, revalidate_issue, Clock, DispatchGate, RetryDecision,
};
use symphony::orchestrator::reconciliation::{reap_stalled, running_issue_ids, ReconcileAction};
use symphony::orchestrator::reload::{reload, ReloadPart};
use symphony::orchestrator::{
    available_global_slots, available_state_slots, compute_retry_delay, is_stalled, reconcile,
    select_eligible, select_worker_host, sort_candidates, Orchestrator, OrchestratorState,
    RetryQueue, RevalidateResult, Tick, TickEvent, TickPhase,
};
use symphony::time::Timestamp;
use symphony::tracker::MemoryTracker;

fn strings(items: &[&str]) -> Vec<String> {
    items.iter().map(|item| String::from(*item)).collect()
}

fn at(seconds: i64) -> Timestamp {
    Timestamp::from_unix_nanos(seconds as i128 * 1_000_000_000).unwrap()
}

const NOW: i64 = 1_773_500_000;

fn clock() -> Clock {
    Clock { now: at(NOW), monotonic_ms: 5_000 }
}

fn issue(id: &str, state: &str, priority: Option<i32>, created_at: &str) -> Issue {
    Issue {
        id: id.into(),
        identifier: format!("SYM-{id}"),
        title: format!("Issue {id}"),
        description: None,
        priority,
        state: state.into(),
        branch_name: None,
        url: None,
        labels: Vec::new(),
        blocked_by: Vec::new(),
        created_at: Some(created_at.into()),
        updated_at: None,
    }
}

fn test_issue(id: &str, state: &str) -> Issue {
    issue(id, state, Some(1), "2026-03-14T00:00:00Z")
}

fn tokens(input: u64, output: u64, total: u64) -> TokenUsage {
    TokenUsage { input_tokens: input, output_tokens: output, total_tokens: total }
}

fn session_on(issue_id: &str, state: &str, host: Option<&str>) -> LiveSession {
    LiveSession {
        session_id: "session".into(),
        issue_id: issue_id.into(),
        issue_identifier: format!("SYM-{issue_id}"),
        issue_state: state.into(),
        worker_host: host.map(String::from),
        workspace_path: "/tmp/workspace".into(),
        started_at: at(NOW),
        turn_count: 0,
        last_codex_timestamp: None,
        tokens: tokens(0, 0, 0),
    }
}

fn session(issue_id: &str, state: &str) -> LiveSession {
    session_on(issue_id, state, None)
}

fn config() -> AgentConfig {
    let mut limits = TextMap::new();
    limits.insert(String::from("todo"), 1);
    AgentConfig {
        max_concurrent_agents: 3,
        max_concurrent_agents_by_state: limits,
        max_turns: 20,
        max_retry_backoff_ms: 300_000,
    }
}

fn test_agent() -> AgentConfig {
    AgentConfig {
        max_concurrent_agents: 3,
        max_concurrent_agents_by_state: TextMap::new(),
        max_turns: 5,
        max_retry_backoff_ms: 60_000,
    }
}

fn test_tracker() -> TrackerConfig {
    TrackerConfig {
        kind: Some("memory".into()),
        active_states: strings(&["Todo", "In Progress"]),
        terminal_states: strings(&["Done", "Canceled"]),
        ..TrackerConfig::default()
    }
}

fn hosts(names: &[&str], limit: u32) -> WorkerConfig {
    WorkerConfig { ssh_hosts: strings(names), max_concurrent_agents_per_host: Some(limit) }
}

fn result(outcome: WorkerOutcome) -> WorkerResult {
    WorkerResult {
        issue_id: "issue-1".into(),
        issue_identifier: "SYM-issue-1".into(),
        outcome,
        total_tokens: tokens(10, 5, 15),
    }
}

#[test]
fn select_eligible_filters_claimed_and_full_slots() {
    let mut state = OrchestratorState::default();
    state.claim_issue("claimed");
    state.add_running(session("running-1", "Todo"));
    state.add_running(session("running-2", "In Progress"));
    state.add_running(session("running-3", "In Progress"));

    let candidates = vec![test_issue("claimed", "Todo"), test_issue("free", "Todo")];

    let eligible = select_eligible(
        &candidates,
        &state,
        &config(),
        &strings(&["Todo", "In Progress"]),
        &strings(&["Done"]),
    );

    assert!(eligible.is_empty());
}

#[test]
fn select_eligible_requires_todo_blockers_to_be_terminal() {
    let state = OrchestratorState::default();
    let mut candidate = test_issue("todo", "Todo");
    candidate.blocked_by = vec![BlockerRef {
        id: "blocker".into(),
        identifier: "SYM-0".into(),
        state: "In Progress".into(),
    }];
    let candidates = [candidate];

    let eligible = select_eligible(
        &candidates,
        &state,
        &config(),
        &strings(&["Todo", "In Progress"]),
        &strings(&["Done", "Canceled"]),
    );

    assert!(eligible.is_empty());
}

#[test]
fn select_eligible_accepts_valid_issue() {
    let state = OrchestratorState::default();
    let candidates = [test_issue("todo", "Todo")];

    let eligible = select_eligible(
        &candidates,
        &state,
        &config(),
        &strings(&["Todo", "In Progress"]),
        &strings(&["Done", "Canceled"]),
    );

    assert_eq!(eligible.len(), 1);
}

#[test]
fn sort_candidates_orders_by_priority_then_created_at_then_identifier() {
    let first = issue("2", "Todo", Some(2), "2026-03-15T00:00:00Z");
    let second = issue("1", "Todo", Some(1), "2026-03-16T00:00:00Z");
    let third = issue("3", "Todo", Some(1), "2026-03-14T00:00:00Z");
    let fourth = issue("4", "Todo", None, "2026-03-13T00:00:00Z");

    let mut candidates = vec![&first, &second, &third, &fourth];
    sort_candidates(&mut candidates);

    assert_eq!(candidates[0].id, "3");
    assert_eq!(candidates[1].id, "1");
    assert_eq!(candidates[2].id, "2");
    assert_eq!(candidates[3].id, "4");
}

#[test]
fn available_slot_helpers_respect_limits() {
    let mut state = OrchestratorState::default();
    state.add_running(session("1", "Todo"));
    state.add_running(session("2", "In Progress"));

    assert_eq!(available_global_slots(&state, 3), 1);
    assert_eq!(available_state_slots(&state, "Todo", &config()), Some(0));
    assert_eq!(available_state_slots(&state, "In Progress", &config()), None);
}

#[test]
fn select_worker_host_returns_none_when_hosts_are_empty() {
    let state = OrchestratorState::default();
    let worker = WorkerConfig::default();

    assert_eq!(select_worker_host(&state, &worker, &config(), None), None);
}

#[test]
fn select_worker_host_returns_single_host_below_limit() {
    let state = OrchestratorState::default();

    assert_eq!(
        select_worker_host(&state, &hosts(&["host1"], 1), &config(), None),
        Some(String::from("host1"))
    );
}

#[test]
fn select_worker_host_returns_none_when_all_hosts_are_at_capacity() {
    let mut state = OrchestratorState::default();
    state.add_running(session_on("1", "Todo", Some("host1")));

    assert_eq!(select_worker_host(&state, &hosts(&["host1"], 1), &config(), None), None);
}

#[test]
fn select_worker_host_prefers_least_loaded_host() {
    let mut state = OrchestratorState::default();
    state.add_running(session_on("1", "Todo", Some("host1")));
    state.add_running(session_on("2", "In Progress", Some("host1")));
    state.add_running(session_on("3", "Todo", Some("host2")));

    assert_eq!(
        select_worker_host(&state, &hosts(&["host1", "host2"], 3), &config(), None),
        Some(String::from("host2"))
    );
}

#[test]
fn select_worker_host_prefers_specified_host_when_available() {
    let mut state = OrchestratorState::default();
    state.add_running(session_on("1", "Todo", Some("host1")));

    assert_eq!(
        select_worker_host(&state, &hosts(&["host1", "host2"], 3), &config(), Some("host1")),
        Some(String::from("host1"))
    );
}

#[test]
fn select_worker_host_falls_back_when_preferred_at_capacity() {
    let mut state = OrchestratorState::default();
    state.add_running(session_on("1", "Todo", Some("host1")));

    assert_eq!(
        select_worker_host(&state, &hosts(&["host1", "host2"], 1), &config(), Some("host1")),
        Some(String::from("host2"))
    );
}

#[test]
fn select_worker_host_ignores_preferred_not_in_config() {
    let state = OrchestratorState::default();
    let result =
        select_worker_host(&state, &hosts(&["host1", "host2"], 3), &config(), Some("unknown-host"));

    assert!(result.is_some());
    assert!(result.as_deref() == Some("host1") || result.as_deref() == Some("host2"));
}

#[test]
fn select_worker_host_ignores_empty_preferred() {
    let state = OrchestratorState::default();

    assert_eq!(
        select_worker_host(&state, &hosts(&["host1"], 3), &config(), Some("")),
        Some(String::from("host1"))
    );
}

#[test]
fn select_worker_host_with_no_preferred_picks_least_loaded() {
    let mut state = OrchestratorState::default();
    state.add_running(session_on("1", "Todo", Some("host1")));
    state.add_running(session_on("2", "Todo", Some("host1")));

    assert_eq!(
        select_worker_host(&state, &hosts(&["host1", "host2"], 5), &config(), None),
        Some(String::from("host2"))
    );
}

#[test]
fn select_eligible_rejects_terminal_state_issues() {
    let state = OrchestratorState::default();
    let candidates = vec![test_issue("1", "Done"), test_issue("2", "Canceled")];

    let eligible = select_eligible(
        &candidates,
        &state,
        &config(),
        &strings(&["Todo", "In Progress"]),
        &strings(&["Done", "Canceled"]),
    );

    assert!(eligible.is_empty());
}

#[test]
fn select_eligible_rejects_empty_required_fields() {
    let state = OrchestratorState::default();
    let mut missing_title = test_issue("1", "Todo");
    missing_title.title = String::new();
    let mut missing_id = test_issue("", "Todo");
    missing_id.id = String::new();

    let candidates = vec![missing_title, missing_id];

    let eligible = select_eligible(
        &candidates,
        &state,
        &config(),
        &strings(&["Todo"]),
        &strings(&["Done"]),
    );

    assert!(eligible.is_empty());
}

#[test]
fn select_eligible_respects_per_state_slot_limits() {
    let mut state = OrchestratorState::default();
    state.add_running(session("existing", "Todo"));

    let candidates = vec![test_issue("new", "Todo")];

    let eligible = select_eligible(
        &candidates,
        &state,
        &config(),
        &strings(&["Todo"]),
        &strings(&["Done"]),
    );

    assert!(eligible.is_empty());
}

#[test]
fn select_eligible_allows_todo_with_terminal_blockers() {
    let state = OrchestratorState::default();
    let mut candidate = test_issue("1", "Todo");
    candidate.blocked_by = vec![BlockerRef {
        id: "blocker-1".into(),
        identifier: "SYM-B1".into(),
        state: "Done".into(),
    }];

    let candidates = [candidate];
    let eligible = select_eligible(
        &candidates,
        &state,
        &config(),
        &strings(&["Todo"]),
        &strings(&["Done", "Canceled"]),
    );

    assert_eq!(eligible.len(), 1);
}

#[test]
fn sort_candidates_stable_for_identical_issues() {
    let a = test_issue("a", "Todo");
    let b = test_issue("b", "Todo");

    let mut candidates = vec![&a, &b];
    sort_candidates(&mut candidates);

    assert_eq!(candidates[0].id, "a");
    assert_eq!(candidates[1].id, "b");
}

#[test]
fn sort_candidates_puts_issues_without_time_last() {
    let dated = test_issue("b", "Todo");
    let mut undated = test_issue("a", "Todo");
    undated.created_at = None;

    let mut candidates = vec![&undated, &dated];
    sort_candidates(&mut candidates);

    assert_eq!(candidates[0].id, "b");
}

#[test]
fn available_global_slots_returns_zero_when_at_capacity() {
    let mut state = OrchestratorState::default();
    state.add_running(session("1", "Todo"));
    state.add_running(session("2", "In Progress"));
    state.add_running(session("3", "In Progress"));

    assert_eq!(available_global_slots(&state, 3), 0);
}

#[test]
fn available_state_slots_returns_none_when_no_limit_configured() {
    let state = OrchestratorState::default();
    let agent_config = AgentConfig {
        max_concurrent_agents: 10,
        max_concurrent_agents_by_state: TextMap::new(),
        max_turns: 20,
        max_retry_backoff_ms: 300_000,
    };

    assert_eq!(available_state_slots(&state, "Unknown State", &agent_config), None);
}

fn sample_session(issue_id: &str, issue_state: &str) -> LiveSession {
    LiveSession {
        session_id: "session-1".into(),
        issue_id: issue_id.into(),
        issue_identifier: format!("SYM-{issue_id}"),
        issue_state: issue_state.into(),
        worker_host: None,
        workspace_path: format!("/tmp/{issue_id}"),
        started_at: at(NOW - 5),
        turn_count: 1,
        last_codex_timestamp: None,
        tokens: tokens(1, 2, 3),
    }
}

#[test]
fn claim_and_release_issue_updates_state() {
    let mut state = OrchestratorState::default();

    state.claim_issue("issue-1");
    assert!(state.is_claimed("issue-1"));

    state.release_claim("issue-1");
    assert!(!state.is_claimed("issue-1"));
}

#[test]
fn add_and_remove_running_session_updates_counts() {
    let mut state = OrchestratorState::default();

    state.add_running(sample_session("issue-1", "Todo"));
    assert_eq!(state.running_count(), 1);

    let removed = state.remove_running("issue-1");
    assert!(removed.is_some());
    assert_eq!(state.running_count(), 0);
}

#[test]
fn running_count_by_state_is_case_insensitive() {
    let mut state = OrchestratorState::default();
    state.add_running(sample_session("issue-1", "Todo"));
    state.add_running(sample_session("issue-2", "todo"));
    state.add_running(sample_session("issue-3", "In Progress"));

    assert_eq!(state.running_count_by_state("TODO"), 2);
    assert_eq!(state.running_count_by_state("in progress"), 1);
}

#[test]
fn snapshot_includes_active_runtime_seconds() {
    let mut state = OrchestratorState::default();
    state.codex_totals.millis_running = 10_000;
    state.add_running(sample_session("issue-1", "Todo"));

    let snapshot = state.snapshot(at(NOW));

    assert_eq!(snapshot.counts.running, 1);
    assert!(snapshot.codex_totals.millis_running >= 15_000);
}

#[test]
fn snapshot_includes_retry_entries() {
    let mut state = OrchestratorState::default();

    state.set_retry_attempt("issue-1", 2);
    state.set_retry_entry(RetryEntry {
        issue_id: "issue-1".into(),
        issue_identifier: "SYM-1".into(),
        attempt: 2,
        scheduled_at: at(NOW + 30),
        reason: Some("retry".into()),
        worker_host: None,
    });

    let snapshot = state.snapshot(at(NOW));

    assert_eq!(snapshot.counts.retrying, 1);
    assert_eq!(snapshot.retrying.len(), 1);
    assert_eq!(snapshot.retrying[0].issue_identifier, "SYM-1");
}

#[test]
fn snapshot_rows_are_sorted_by_identifier() {
    let mut state = OrchestratorState::default();
    state.add_running(sample_session("c", "Todo"));
    state.add_running(sample_session("a", "Todo"));
    state.add_running(sample_session("b", "Todo"));

    let snapshot = state.snapshot(at(NOW));
    let names: Vec<&str> =
        snapshot.running.iter().map(|row| row.issue_identifier.as_str()).collect();

    assert_eq!(names, vec!["SYM-a", "SYM-b", "SYM-c"]);
}

fn failure() -> WorkerOutcome {
    WorkerOutcome::Failure("boom".into())
}

#[test]
fn compute_retry_delay_returns_fixed_continuation_delay() {
    assert_eq!(compute_retry_delay(&WorkerOutcome::Normal, 99, 300_000), 1_000);
}

#[test]
fn compute_retry_delay_grows_exponentially_for_failures() {
    assert_eq!(compute_retry_delay(&failure(), 3, 300_000), 40_000);
}

#[test]
fn compute_retry_delay_caps_at_max_backoff() {
    assert_eq!(compute_retry_delay(&failure(), 10, 30_000), 30_000);
}

#[test]
fn compute_retry_delay_first_failure_uses_base() {
    assert_eq!(compute_retry_delay(&WorkerOutcome::Failure("error".into()), 1, 300_000), 10_000);
}

#[test]
fn compute_retry_delay_second_failure_doubles() {
    assert_eq!(compute_retry_delay(&WorkerOutcome::Failure("error".into()), 2, 300_000), 20_000);
}

#[test]
fn compute_retry_delay_large_attempt_caps_at_max() {
    assert_eq!(
        compute_retry_delay(&WorkerOutcome::Failure("error".into()), 100, 300_000),
        300_000
    );
}

#[test]
fn compute_retry_delay_normal_ignores_attempt() {
    assert_eq!(compute_retry_delay(&WorkerOutcome::Normal, 1, 300_000), 1_000);
    assert_eq!(compute_retry_delay(&WorkerOutcome::Normal, 100, 300_000), 1_000);
}

#[test]
fn compute_retry_delay_takes_attempt_zero_as_the_first() {
    assert_eq!(compute_retry_delay(&failure(), 0, 300_000), 10_000);
}

#[test]
fn retry_queue_schedule_and_cancel() {
    let mut queue = RetryQueue::default();

    queue.schedule("issue-1", 1, 60_000, 0);
    assert!(queue.contains("issue-1"));
    assert_eq!(queue.len(), 1);
    assert_eq!(queue.attempt("issue-1"), Some(1));

    queue.cancel("issue-1");
    assert!(!queue.contains("issue-1"));
    assert_eq!(queue.len(), 0);
}

#[test]
fn retry_queue_remove_returns_attempt_info() {
    let mut queue = RetryQueue::default();

    queue.schedule("issue-1", 3, 60_000, 0);
    let result = queue.remove("issue-1");

    assert!(result.is_some());
    let (attempt, _fire_at) = result.unwrap();
    assert_eq!(attempt, 3);
    assert!(!queue.contains("issue-1"));
}

#[test]
fn retry_queue_clear_removes_all() {
    let mut queue = RetryQueue::default();

    queue.schedule("issue-1", 1, 60_000, 0);
    queue.schedule("issue-2", 2, 60_000, 0);
    assert_eq!(queue.len(), 2);

    queue.clear();
    assert!(queue.is_empty());
}

#[test]
fn retry_queue_schedule_replaces_existing() {
    let mut queue = RetryQueue::default();

    queue.schedule("issue-1", 1, 60_000, 0);
    queue.schedule("issue-1", 5, 30_000, 0);

    assert_eq!(queue.len(), 1);
    assert_eq!(queue.attempt("issue-1"), Some(5));
}

#[test]
fn retry_queue_fire_at_returns_scheduled_time() {
    let mut queue = RetryQueue::default();

    queue.schedule("issue-1", 1, 60_000, 1_000);
    let fire_at = queue.fire_at("issue-1");

    assert!(fire_at.is_some());
    assert!(fire_at.unwrap() > 1_000);
    assert_eq!(fire_at, Some(61_000));
}

fn timed_session(started_at: i64, last_codex_timestamp: Option<i64>) -> LiveSession {
    LiveSession {
        session_id: "session-1".into(),
        issue_id: "issue-1".into(),
        issue_identifier: "SYM-1".into(),
        issue_state: "Todo".into(),
        worker_host: None,
        workspace_path: "/tmp/SYM-1".into(),
        started_at: at(started_at),
        turn_count: 1,
        last_codex_timestamp: last_codex_timestamp.map(at),
        tokens: tokens(0, 0, 0),
    }
}

#[test]
fn is_stalled_returns_true_when_last_update_exceeds_timeout() {
    let live_session = timed_session(NOW - 30 * 60, Some(NOW - 20 * 60));

    assert!(is_stalled(&live_session, 60_000, at(NOW)));
}

#[test]
fn is_stalled_returns_false_when_recent_update_exists() {
    let live_session = timed_session(NOW - 30 * 60, Some(NOW - 30));

    assert!(!is_stalled(&live_session, 60_000, at(NOW)));
}

#[test]
fn is_stalled_returns_false_when_disabled() {
    let live_session = timed_session(NOW - 3600, None);

    assert!(!is_stalled(&live_session, 0, at(NOW)));
}

#[test]
fn is_stalled_uses_started_at_when_no_codex_timestamp() {
    let live_session = timed_session(NOW - 5 * 60, None);

    assert!(is_stalled(&live_session, 60_000, at(NOW)));
}

#[test]
fn is_stalled_returns_false_with_negative_timeout() {
    let live_session = timed_session(NOW - 3600, None);

    assert!(!is_stalled(&live_session, -1, at(NOW)));
}

#[test]
fn is_stalled_returns_false_for_just_started_session() {
    let live_session = timed_session(NOW, None);

    assert!(!is_stalled(&live_session, 60_000, at(NOW)));
}

#[test]
fn reconcile_removes_stalled_workers() {
    let mut state = OrchestratorState::default();
    let mut stalled = timed_session(NOW - 30 * 60, None);
    stalled.issue_id = "stalled-1".into();
    stalled.issue_identifier = "SYM-S1".into();
    state.add_running(stalled);
    state.claim_issue("stalled-1");

    let reaped = reap_stalled(&mut state, 60_000, at(NOW));
    let actions = reconcile(&mut state, &[], &TrackerConfig::default(), at(NOW));

    assert_eq!(reaped, strings(&["stalled-1"]));
    assert!(actions.is_empty());
    assert_eq!(state.running_count(), 0);
    assert!(!state.is_claimed("stalled-1"));
}

#[test]
fn reconcile_terminates_workers_in_terminal_state() {
    let mut state = OrchestratorState::default();
    state.add_running(timed_session(NOW, Some(NOW)));
    state.claim_issue("issue-1");

    let tracker = MemoryTracker::new(vec![test_issue("issue-1", "Done")]);
    let found = tracker.refresh_issue_states(&running_issue_ids(&state)).unwrap();
    let actions = reconcile(&mut state, &found, &test_tracker(), at(NOW));

    assert!(matches!(
        &actions[0],
        ReconcileAction::Terminate { issue_id } if issue_id == "issue-1"
    ));
    assert!(matches!(
        &actions[1],
        ReconcileAction::Cleanup { issue_identifier, .. } if issue_identifier == "SYM-1"
    ));
    assert_eq!(state.running_count(), 0);
    assert!(!state.is_claimed("issue-1"));
}

#[test]
fn reconcile_updates_state_for_still_active_issues() {
    let mut state = OrchestratorState::default();
    state.add_running(timed_session(NOW, Some(NOW)));

    let tracker = MemoryTracker::new(vec![test_issue("issue-1", "In Progress")]);
    let found = tracker.refresh_issue_states(&running_issue_ids(&state)).unwrap();
    reconcile(&mut state, &found, &test_tracker(), at(NOW));

    assert_eq!(state.running_count(), 1);
    let running_session = state.running.get("issue-1").unwrap();
    assert_eq!(running_session.issue_state, "In Progress");
}

fn refreshed(tracker: Vec<Issue>, id: &str) -> Result<Vec<BlockerRef>, String> {
    Ok(MemoryTracker::new(tracker).refresh_issue_states(&strings(&[id])).unwrap())
}

#[test]
fn revalidate_issue_returns_ok_for_active_issue() {
    let issue = test_issue("issue-1", "Todo");
    let found = refreshed(vec![issue.clone()], "issue-1");

    let result = revalidate_issue(&issue, &found, &strings(&["Done", "Canceled"]));

    assert!(matches!(result, RevalidateResult::Current(refreshed) if refreshed.state == "Todo"));
}

#[test]
fn revalidate_issue_returns_skip_for_terminal_issue() {
    let issue = test_issue("issue-1", "Done");
    let found = refreshed(vec![issue.clone()], "issue-1");

    let result = revalidate_issue(&issue, &found, &strings(&["Done", "Canceled"]));

    assert!(matches!(result, RevalidateResult::Skip(reason) if reason.contains("terminal")));
}

#[test]
fn revalidate_issue_returns_skip_when_issue_not_found() {
    let issue = test_issue("missing", "Todo");
    let found = refreshed(vec![], "missing");

    let result = revalidate_issue(&issue, &found, &strings(&["Done", "Canceled"]));

    assert!(
        matches!(result, RevalidateResult::Skip(reason) if reason.contains("no longer visible"))
    );
}

#[test]
fn revalidate_issue_updates_state_from_tracker() {
    let issue = test_issue("issue-1", "Todo");
    let found = refreshed(vec![test_issue("issue-1", "In Progress")], "issue-1");

    let result = revalidate_issue(&issue, &found, &strings(&["Done", "Canceled"]));

    assert!(
        matches!(result, RevalidateResult::Current(refreshed) if refreshed.state == "In Progress")
    );
}

#[test]
fn revalidate_issue_passes_the_trackers_error_on() {
    let issue = test_issue("issue-1", "Todo");

    let result = revalidate_issue(&issue, &Err("offline".into()), &strings(&["Done"]));

    assert!(matches!(result, RevalidateResult::Error(message) if message == "offline"));
}

#[test]
fn handle_worker_exit_normal_schedules_continuation_retry() {
    let mut orchestrator = Orchestrator::default();
    orchestrator.state.claim_issue("issue-1");
    orchestrator.state.add_running(session_on("issue-1", "Todo", Some("host1")));

    let delay = orchestrator.handle_worker_exit(&result(WorkerOutcome::Normal), 60_000, &clock());

    assert_eq!(delay, 1_000);
    assert!(orchestrator.state.completed.contains("issue-1"));
    assert!(orchestrator.state.is_claimed("issue-1"));
    let entry = orchestrator.state.retry_entry("issue-1").unwrap();
    assert_eq!(entry.worker_host.as_deref(), Some("host1"));
    assert_eq!(entry.reason.as_deref(), Some("continuation"));
    assert_eq!(entry.scheduled_at, at(NOW + 1));
    assert_eq!(orchestrator.retry_queue.fire_at("issue-1"), Some(6_000));
}

#[test]
fn handle_worker_exit_failure_schedules_backoff_retry() {
    let mut orchestrator = Orchestrator::default();
    orchestrator.state.claim_issue("issue-1");
    orchestrator.state.add_running(session("issue-1", "Todo"));
    orchestrator.state.set_retry_attempt("issue-1", 2);

    let result = result(failure());
    assert!(delay_fits(&clock(), orchestrator.exit_retry_delay(&result, 60_000)));
    let delay = orchestrator.handle_worker_exit(&result, 60_000, &clock());

    assert_eq!(delay, 40_000);
    let attempt = orchestrator.state.retry_attempt("issue-1");
    assert!(attempt >= 3);
    assert!(orchestrator.state.is_claimed("issue-1"));
}

#[test]
fn handle_worker_exit_captures_worker_host_for_retry() {
    let mut orchestrator = Orchestrator::default();
    orchestrator.state.claim_issue("issue-1");
    orchestrator.state.add_running(session_on("issue-1", "Todo", Some("worker-host-A")));

    orchestrator.handle_worker_exit(&result(WorkerOutcome::Normal), 60_000, &clock());

    let retry_entry = orchestrator.state.retry_entry("issue-1").unwrap();
    assert_eq!(retry_entry.worker_host.as_deref(), Some("worker-host-A"));
}

fn waiting(host: &str) -> Orchestrator {
    let mut orchestrator = Orchestrator::default();
    orchestrator.state.claim_issue("issue-1");
    orchestrator.state.set_retry_attempt("issue-1", 1);
    orchestrator.state.set_retry_entry(RetryEntry {
        issue_id: "issue-1".into(),
        issue_identifier: "SYM-issue-1".into(),
        attempt: 1,
        scheduled_at: at(NOW),
        reason: Some("continuation".into()),
        worker_host: Some(host.into()),
    });
    orchestrator.retry_queue.schedule("issue-1", 1, 1, 0);
    orchestrator
}

#[test]
fn handle_retry_timer_passes_preferred_host() {
    let mut orchestrator = waiting("preferred-host");

    let (attempt, preferred) = orchestrator.begin_retry("issue-1");
    assert_eq!(attempt, 1);
    assert_eq!(preferred.as_deref(), Some("preferred-host"));
    assert!(!orchestrator.state.is_claimed("issue-1"));
    assert!(!orchestrator.retry_queue.contains("issue-1"));

    let decision = orchestrator.finish_retry(
        "issue-1",
        attempt,
        preferred,
        Some(&vec![test_issue("issue-1", "Todo")]),
        &test_agent(),
        &test_tracker(),
        &clock(),
    );
    assert!(matches!(
        decision,
        RetryDecision::Dispatch { issue, attempt: 1 } if issue.id == "issue-1"
    ));
}

#[test]
fn handle_retry_timer_waits_again_when_the_tracker_does_not_answer() {
    let mut orchestrator = waiting("host-1");
    let (attempt, preferred) = orchestrator.begin_retry("issue-1");

    let decision = orchestrator.finish_retry(
        "issue-1",
        attempt,
        preferred,
        None,
        &test_agent(),
        &test_tracker(),
        &clock(),
    );

    assert!(matches!(decision, RetryDecision::Scheduled { delay_ms: 20_000 }));
    let entry = orchestrator.state.retry_entry("issue-1").unwrap();
    assert_eq!(entry.attempt, 2);
    assert_eq!(entry.issue_identifier, "SYM-issue-1");
    assert_eq!(entry.reason.as_deref(), Some("retry poll failed"));
    assert_eq!(entry.worker_host.as_deref(), Some("host-1"));
}

#[test]
fn handle_retry_timer_waits_again_without_slots() {
    let mut orchestrator = waiting("host-1");
    for id in ["a", "b", "c"] {
        orchestrator.state.add_running(session(id, "Todo"));
    }
    let (attempt, preferred) = orchestrator.begin_retry("issue-1");

    let decision = orchestrator.finish_retry(
        "issue-1",
        attempt,
        preferred,
        Some(&vec![test_issue("issue-1", "Todo")]),
        &test_agent(),
        &test_tracker(),
        &clock(),
    );

    assert!(matches!(decision, RetryDecision::Scheduled { delay_ms: 20_000 }));
    let entry = orchestrator.state.retry_entry("issue-1").unwrap();
    assert_eq!(entry.reason.as_deref(), Some("no available orchestrator slots"));
}

#[test]
fn handle_retry_timer_forgets_issues_that_are_gone_or_done() {
    let mut orchestrator = waiting("host-1");
    let (attempt, preferred) = orchestrator.begin_retry("issue-1");
    let decision = orchestrator.finish_retry(
        "issue-1",
        attempt,
        preferred,
        Some(&vec![test_issue("other", "Todo")]),
        &test_agent(),
        &test_tracker(),
        &clock(),
    );
    assert!(matches!(decision, RetryDecision::Forgotten));
    assert_eq!(orchestrator.state.retry_attempt("issue-1"), 0);
    assert!(orchestrator.state.retry_entry("issue-1").is_none());

    let mut orchestrator = waiting("host-1");
    let (attempt, preferred) = orchestrator.begin_retry("issue-1");
    let decision = orchestrator.finish_retry(
        "issue-1",
        attempt,
        preferred,
        Some(&vec![test_issue("issue-1", "Done")]),
        &test_agent(),
        &test_tracker(),
        &clock(),
    );
    assert!(matches!(decision, RetryDecision::Forgotten));
}

#[test]
fn handle_codex_update_updates_session_state() {
    let mut orchestrator = Orchestrator::default();
    orchestrator.state.add_running(session("issue-1", "Todo"));

    orchestrator.handle_codex_update(WorkerUpdate::SessionStarted {
        issue_id: "issue-1".into(),
        session_id: "session-abc".into(),
    });

    let running = orchestrator.state.running.get("issue-1").unwrap();
    assert_eq!(running.session_id, "session-abc");
}

#[test]
fn handle_codex_update_increments_turn_count() {
    let mut orchestrator = Orchestrator::default();
    orchestrator.state.add_running(session("issue-1", "Todo"));

    orchestrator.handle_codex_update(WorkerUpdate::TurnCompleted {
        issue_id: "issue-1".into(),
        turn_number: 1,
        outcome: RunOutcome::Success,
    });

    let running = orchestrator.state.running.get("issue-1").unwrap();
    assert_eq!(running.turn_count, 1);
}

#[test]
fn handle_codex_update_adds_tokens_to_session_and_totals() {
    let mut orchestrator = Orchestrator::default();
    orchestrator.state.add_running(session("issue-1", "Todo"));

    for _ in 0..2 {
        orchestrator.handle_codex_update(WorkerUpdate::CodexUpdate {
            issue_id: "issue-1".into(),
            tokens: tokens(10, 5, 15),
            rate_limit: Some(Json::Number(Number::Unsigned(7))),
            timestamp: at(NOW + 1),
        });
    }

    let running = orchestrator.state.running.get("issue-1").unwrap();
    assert_eq!(running.tokens.total_tokens, 30);
    assert_eq!(running.last_codex_timestamp, Some(at(NOW + 1)));
    assert_eq!(orchestrator.state.codex_totals.input_tokens, 20);
    assert_eq!(
        orchestrator.state.codex_rate_limits,
        Some(Json::Number(Number::Unsigned(7)))
    );
}

#[test]
fn shutdown_aborts_workers_and_clears_retries() {
    let mut orchestrator = Orchestrator::default();
    orchestrator.retry_queue.schedule("issue-1", 1, 60_000, 0);
    assert!(!orchestrator.retry_queue.is_empty());

    orchestrator.shutdown();

    assert!(orchestrator.retry_queue.is_empty());
}

#[test]
fn schedule_retry_claims_issue_and_sets_retry_state() {
    let mut orchestrator = Orchestrator::default();

    orchestrator.schedule_retry(
        "issue-1",
        "SYM-issue-1",
        2,
        &WorkerOutcome::Failure("error".into()),
        Some("test retry"),
        Some("host-1".into()),
        60_000,
        &clock(),
    );

    assert!(orchestrator.state.is_claimed("issue-1"));
    assert_eq!(orchestrator.state.retry_attempt("issue-1"), 2);
    let entry = orchestrator.state.retry_entry("issue-1").unwrap();
    assert_eq!(entry.worker_host.as_deref(), Some("host-1"));
    assert_eq!(entry.reason.as_deref(), Some("test retry"));
    assert!(orchestrator.retry_queue.contains("issue-1"));
}

#[test]
fn a_tick_dispatches_in_order_until_slots_run_out() {
    let mut orchestrator = Orchestrator::default();
    let agent = AgentConfig { max_concurrent_agents: 1, ..test_agent() };
    let candidates = vec![
        issue("late", "Todo", Some(2), "2026-03-14T00:00:00Z"),
        issue("first", "Todo", Some(1), "2026-03-14T00:00:00Z"),
        issue("done", "Done", Some(1), "2026-03-14T00:00:00Z"),
    ];

    let planned = orchestrator.plan_tick(&candidates, &agent, &test_tracker());
    let ids: Vec<&str> = planned.iter().map(|issue| issue.id.as_str()).collect();
    assert_eq!(ids, vec!["first", "late"]);

    assert_eq!(orchestrator.dispatch_gate(planned[0], &agent), DispatchGate::Go);
    let host = orchestrator.dispatch_issue(
        planned[0],
        None,
        None,
        &hosts(&["host1"], 2),
        &agent,
        "/tmp/first",
        at(NOW),
    );
    assert_eq!(host.as_deref(), Some("host1"));
    assert!(orchestrator.state.is_claimed("first"));
    assert_eq!(orchestrator.state.running.get("first").unwrap().workspace_path, "/tmp/first");
    assert_eq!(orchestrator.dispatch_gate(planned[1], &agent), DispatchGate::Stop);
}

#[test]
fn a_tick_goes_on_behind_a_full_state() {
    let mut orchestrator = Orchestrator::default();
    orchestrator.state.add_running(session("1", "Todo"));
    let full = test_issue("2", "Todo");
    let free = test_issue("3", "In Progress");

    assert_eq!(orchestrator.next_dispatch(&[&full, &free], 0, &config()), Some(1));
    assert_eq!(orchestrator.next_dispatch(&[&full, &free], 2, &config()), None);
    let agent = AgentConfig { max_concurrent_agents: 1, ..test_agent() };
    assert_eq!(orchestrator.next_dispatch(&[&free], 0, &agent), None);
}

#[test]
fn a_full_state_is_passed_over() {
    let mut orchestrator = Orchestrator::default();
    orchestrator.state.add_running(session("1", "Todo"));

    assert_eq!(
        orchestrator.dispatch_gate(&test_issue("2", "Todo"), &config()),
        DispatchGate::Skip
    );
    assert_eq!(
        orchestrator.dispatch_gate(&test_issue("2", "In Progress"), &config()),
        DispatchGate::Go
    );
}

#[test]
fn a_dispatch_cancels_the_waiting_retry() {
    let mut orchestrator = waiting("host-1");

    orchestrator.dispatch_issue(
        &test_issue("issue-1", "Todo"),
        Some(4),
        Some("host-1"),
        &WorkerConfig::default(),
        &test_agent(),
        "/tmp/ws",
        at(NOW),
    );

    assert!(orchestrator.retry_queue.is_empty());
    assert!(orchestrator.state.retry_entry("issue-1").is_none());
    assert_eq!(orchestrator.state.retry_attempt("issue-1"), 4);
}

#[test]
fn only_named_workspaces_are_cleaned_up() {
    let reference = |identifier: &str| BlockerRef {
        id: "x".into(),
        identifier: identifier.into(),
        state: "Done".into(),
    };

    assert_eq!(
        cleanup_identifiers(&[reference("SYM-1"), reference("  "), reference("SYM-2")]),
        strings(&["SYM-1", "SYM-2"])
    );
}

#[test]
fn delays_must_end_within_the_clocks() {
    assert!(delay_fits(&clock(), 300_000));
    assert!(delay_fits(&Clock { now: at(NOW), monotonic_ms: u64::MAX }, 1));
    assert!(!delay_fits(&Clock { now: at(NOW), monotonic_ms: 0 }, u64::MAX));
}

#[test]
fn the_running_time_shown_does_not_jump_when_a_session_ends() {
    let mut state = OrchestratorState::default();
    state.add_running(session("1", "Todo"));
    state.add_running(session("2", "Todo"));
    let now = at(NOW + 77);
    let before = state.snapshot(now).codex_totals;

    assert!(before.millis_running > 0);
    assert!(state.retire("1", now).is_some());
    assert_eq!(state.snapshot(now).codex_totals, before);
}

#[test]
fn a_later_timer_takes_the_place_of_an_earlier_one() {
    let mut queue = RetryQueue::default();
    assert!(!queue.schedule("other", 7, 50, 100));
    assert!(!queue.schedule("issue", 1, 10, 100));
    assert_eq!(queue.len(), 2);
    assert!(queue.schedule("issue", 2, 20, 100));

    assert_eq!(queue.len(), 2);
    assert_eq!(queue.attempt("issue"), Some(2));
    assert_eq!(queue.fire_at("issue"), Some(120));
    assert_eq!(queue.attempt("other"), Some(7));
    assert_eq!(queue.fire_at("other"), Some(150));
    assert!(!queue.schedule("late", 1, u64::MAX, u64::MAX));
    assert_eq!(queue.fire_at("late"), Some(2 * u64::MAX as u128));
}

#[test]
fn a_retry_waits_again_without_answer_or_slot() {
    let mut orchestrator = waiting("host-1");
    let _ = orchestrator.begin_retry("issue-1");
    let candidates = vec![test_issue("issue-1", "Todo")];
    let (agent, tracker) = (test_agent(), test_tracker());

    assert!(orchestrator.retry_waits("issue-1", None, &agent, &tracker));
    assert!(!orchestrator.retry_waits("issue-1", Some(&candidates), &agent, &tracker));
    assert!(!orchestrator.retry_waits("issue-2", Some(&candidates), &agent, &tracker));
    for id in ["a", "b", "c"] {
        orchestrator.state.add_running(session(id, "Todo"));
    }
    assert!(orchestrator.retry_waits("issue-1", Some(&candidates), &agent, &tracker));
}

#[test]
fn a_changed_workflow_is_taken_over_whole_or_not_at_all() {
    let fault = |text: &str| SymphonyError::Internal(text.into());
    let config = SymphonyConfig::default;

    let setup = reload(Ok((config(), Ok("tracker"), Ok("workspaces"))), "prompt".into()).unwrap();
    assert_eq!(setup.tracker, "tracker");
    assert_eq!(setup.workspaces, "workspaces");
    assert_eq!(setup.prompt_template, "prompt");

    let part = |read: Result<_, SymphonyError>| {
        let fault = reload::<(), ()>(read, "prompt".into()).unwrap_err();
        (fault.part, fault.error.message())
    };
    assert_eq!(part(Err(fault("c"))), (ReloadPart::Config, fault("c").message()));
    assert_eq!(
        part(Ok((config(), Err(fault("t")), Err(fault("w"))))),
        (ReloadPart::Tracker, fault("t").message())
    );
    assert_eq!(
        part(Ok((config(), Ok(()), Err(fault("w"))))),
        (ReloadPart::Workspaces, fault("w").message())
    );
    assert_eq!(ReloadPart::Config.message(), "failed to parse reloaded workflow config");
    assert_eq!(ReloadPart::Tracker.message(), "failed to rebuild tracker after reload");
    assert_eq!(
        ReloadPart::Workspaces.message(),
        "failed to rebuild workspace manager after reload"
    );
}

#[test]
fn a_tick_dispatches_after_its_steps_in_order() {
    let mut tick = Tick::new();
    assert_eq!(tick.phase, TickPhase::Reconcile);
    tick.advance(TickEvent::Fetched { found: true });
    assert_eq!(tick, Tick::new());
    tick.advance(TickEvent::Reconciled);
    assert_eq!(tick.phase, TickPhase::Validate);
    tick.advance(TickEvent::Validated { valid: true });
    assert_eq!(tick.phase, TickPhase::Fetch);
    tick.advance(TickEvent::Fetched { found: true });
    assert_eq!(tick, Tick { phase: TickPhase::Dispatch, from: 0, dispatched: 0 });
    tick.advance(TickEvent::Dispatched { position: 2 });
    assert_eq!(tick, Tick { phase: TickPhase::Dispatch, from: 3, dispatched: 1 });
    tick.advance(TickEvent::Dispatched { position: usize::MAX });
    assert_eq!(tick, Tick { phase: TickPhase::Dispatch, from: usize::MAX, dispatched: 2 });
    tick.advance(TickEvent::Exhausted);
    assert_eq!(tick.phase, TickPhase::Finished);
    assert_eq!(tick.dispatched, 2);
}

#[test]
fn a_failed_step_ends_the_tick() {
    for failed_fetch in [false, true] {
        let mut tick = Tick::new();
        tick.advance(TickEvent::Reconciled);
        if failed_fetch {
            tick.advance(TickEvent::Validated { valid: true });
            tick.advance(TickEvent::Fetched { found: false });
        } else {
            tick.advance(TickEvent::Validated { valid: false });
        }
        assert_eq!(tick.phase, TickPhase::Finished);
        tick.advance(TickEvent::Reconciled);
        tick.advance(TickEvent::Validated { valid: true });
        tick.advance(TickEvent::Fetched { found: true });
        tick.advance(TickEvent::Dispatched { position: 0 });
        assert_eq!(tick, Tick { phase: TickPhase::Finished, from: 0, dispatched: 0 });
    }
}
