use symphony::config::HooksConfig;
use symphony::domain::sanitize_workspace_key;
use symphony::error::SymphonyError;
use symphony::path::{is_inside, join_path, normalize_absolute_path, path_names};
use symphony::workspace::{
    absolute_normalized_path, check_containment, check_symlink_escape, cleanup_step,
    default_workspace_root, ensure_step, hook_result, local_hook_result,
    parse_remote_workspace_output, prepare_remote_script, remote_hook_script, remote_result,
    remote_shell_assign, remove_remote_script, resolve_missing, validate_remote_workspace_path,
    workspace_io_error, HookOutcome, HookPhase, PathState, RemoteOutcome, WorkspaceInfo,
    WorkspaceManager, WorkspaceStep,
};
use symphony::workspace_flow::{LocalEvent, LocalGoal, LocalPhase, LocalWorkspace};

const REMOTE_WORKSPACE_MARKER: &str = "__SYMPHONY_WORKSPACE__";

fn here() -> Result<String, String> {
    Ok(String::from("/work"))
}

fn manager(hooks: HooksConfig) -> WorkspaceManager {
    WorkspaceManager::new("/srv/workspaces", hooks, &here()).unwrap()
}

fn create_manager() -> WorkspaceManager {
    manager(HooksConfig::default())
}

#[test]
fn sanitize_workspace_key_keeps_standard_identifier() {
    assert_eq!(sanitize_workspace_key("ABC-123"), "ABC-123");
}

#[test]
fn sanitize_workspace_key_replaces_special_characters() {
    assert_eq!(sanitize_workspace_key("ABC/123"), "ABC_123");
}

#[test]
fn sanitize_workspace_key_preserves_dots_and_dashes() {
    assert_eq!(sanitize_workspace_key("my.project-1"), "my.project-1");
}

#[test]
fn sanitize_workspace_key_replaces_spaces() {
    assert_eq!(sanitize_workspace_key("A B C"), "A_B_C");
}

#[test]
fn sanitize_workspace_key_replaces_unicode_characters() {
    assert_eq!(sanitize_workspace_key("项目-1"), "__-1");
}

#[test]
fn sanitize_workspace_key_keeps_empty_string() {
    assert_eq!(sanitize_workspace_key(""), "");
}

#[test]
fn sanitize_workspace_key_changes_nothing_twice() {
    let once = sanitize_workspace_key("A/B c:é");
    assert_eq!(sanitize_workspace_key(&once), once);
}

#[test]
fn workspace_path_uses_identifier() {
    assert_eq!(create_manager().workspace_path("ABC-123"), "/srv/workspaces/ABC-123");
}

#[test]
fn workspace_path_sanitizes_special_characters() {
    assert_eq!(
        create_manager().workspace_path("ABC/123:feature"),
        "/srv/workspaces/ABC_123_feature"
    );
}

#[test]
fn workspace_path_uses_sanitized_key() {
    assert_eq!(
        create_manager().workspace_path("PROJECT/ISSUE#42"),
        "/srv/workspaces/PROJECT_ISSUE_42"
    );
}

#[test]
fn roots_are_made_absolute_and_short() {
    let manager = WorkspaceManager::new("./a/../b", HooksConfig::default(), &here()).unwrap();
    assert_eq!(manager.root(), "/work/b");
    assert_eq!(manager.remote_workspace_path("X"), "./a/../b/X");

    let error =
        WorkspaceManager::new("a", HooksConfig::default(), &Err("gone".into())).unwrap_err();
    assert!(matches!(error, SymphonyError::Workspace(_)));
    assert_eq!(absolute_normalized_path("/x/./y", &here()).unwrap(), "/x/y");
}

#[test]
fn ensure_workspace_creates_directory() {
    assert_eq!(
        ensure_step("/srv/workspaces/ABC-123", &PathState::Missing).unwrap(),
        WorkspaceStep::Create
    );
}

#[test]
fn ensure_workspace_reuses_existing_directory() {
    assert_eq!(
        ensure_step("/srv/workspaces/ABC-123", &PathState::Directory).unwrap(),
        WorkspaceStep::Use
    );
}

#[test]
fn ensure_workspace_refuses_what_is_no_directory() {
    assert!(matches!(
        ensure_step("/ws", &PathState::NotADirectory),
        Err(SymphonyError::Workspace(message)) if message == "workspace path is not a directory: /ws"
    ));
    assert!(matches!(
        ensure_step("/ws", &PathState::Failed("denied".into())),
        Err(SymphonyError::Workspace(message))
            if message == "inspect workspace failed for /ws: denied"
    ));
}

#[test]
fn validate_containment_accepts_paths_inside_root() {
    let path = normalize_absolute_path("/srv/workspaces/ABC-123");

    assert!(check_containment("/srv/workspaces/ABC-123", &path, "/srv/workspaces").is_ok());
}

#[test]
fn validate_containment_rejects_paths_outside_root() {
    let path = normalize_absolute_path("/srv/workspaces/../escape");

    assert!(matches!(
        check_containment("/srv/workspaces/../escape", &path, "/srv/workspaces"),
        Err(SymphonyError::Workspace(_))
    ));
}

#[test]
fn validate_symlink_escape_rejects_symlink_outside_root() {
    let result =
        check_symlink_escape("/srv/workspaces/escape-link", "/outside", "/srv/workspaces");

    assert!(
        matches!(result, Err(SymphonyError::Workspace(ref msg)) if msg.contains("symlink escape"))
    );
}

#[test]
fn validate_symlink_escape_accepts_path_within_root() {
    let result = check_symlink_escape(
        "/srv/workspaces/valid-workspace",
        "/srv/workspaces/valid-workspace",
        "/srv/workspaces",
    );

    assert!(result.is_ok());
}

#[test]
fn neighbours_with_a_common_prefix_are_outside() {
    assert!(!is_inside("/srv/workspaces-2/x", "/srv/workspaces"));
    assert!(is_inside("/srv/workspaces/x/y", "/srv/workspaces"));
}

#[test]
fn run_hook_succeeds() {
    let outcome = HookOutcome::Exited { success: true, code: Some(0) };

    assert!(local_hook_result(&outcome, "/ws").is_ok());
}

#[test]
fn run_hook_fails() {
    let outcome = HookOutcome::Exited { success: false, code: Some(42) };

    assert!(matches!(
        local_hook_result(&outcome, "/ws"),
        Err(SymphonyError::Workspace(message))
            if message == "hook failed with exit code: Some(42)"
    ));
    let outcome = HookOutcome::Exited { success: false, code: None };
    assert!(matches!(
        local_hook_result(&outcome, "/ws"),
        Err(SymphonyError::Workspace(message)) if message == "hook failed with exit code: None"
    ));
}

#[test]
fn run_hook_times_out() {
    let result = local_hook_result(&HookOutcome::TimedOut, "/ws");

    assert!(matches!(result, Err(SymphonyError::Workspace(ref msg)) if msg.contains("timed out")));
}

#[test]
fn run_hook_names_why_it_could_not_run() {
    assert!(matches!(
        local_hook_result(&HookOutcome::NotStarted("no shell".into()), "/ws"),
        Err(SymphonyError::Workspace(message)) if message == "spawn hook failed for /ws: no shell"
    ));
    assert!(matches!(
        local_hook_result(&HookOutcome::Failed("lost".into()), "/ws"),
        Err(SymphonyError::Workspace(message)) if message == "hook error: lost"
    ));
}

#[test]
fn after_create_hook_runs_only_for_new_workspace() {
    let manager = manager(HooksConfig {
        after_create: Some("touch after-create.txt".into()),
        ..HooksConfig::default()
    });

    assert_eq!(
        manager.hook_script(HookPhase::AfterCreate, true),
        Some("touch after-create.txt")
    );
    assert_eq!(manager.hook_script(HookPhase::AfterCreate, false), None);
}

#[test]
fn cleanup_workspace_runs_before_remove_and_deletes_directory() {
    let manager =
        manager(HooksConfig { before_remove: Some("touch x".into()), ..HooksConfig::default() });

    assert!(cleanup_step("/srv/workspaces/ABC-123", &PathState::Directory).unwrap());
    assert_eq!(manager.hook_script(HookPhase::BeforeRemove, false), Some("touch x"));
}

#[test]
fn cleanup_nonexistent_workspace_succeeds() {
    assert!(!cleanup_step("/srv/workspaces/NONEXISTENT-999", &PathState::Missing).unwrap());
}

fn failed() -> Result<(), SymphonyError> {
    local_hook_result(&HookOutcome::Exited { success: false, code: Some(1) }, "/ws")
}

#[test]
fn lifecycle_hooks_after_run_swallows_errors() {
    assert!(hook_result(HookPhase::AfterRun, failed()).is_ok());
}

#[test]
fn lifecycle_hooks_before_run_propagates_errors() {
    assert!(matches!(
        hook_result(HookPhase::BeforeRun, failed()),
        Err(SymphonyError::Workspace(_))
    ));
}

#[test]
fn parse_remote_workspace_output_accepts_new_workspace_marker() {
    let output = format!("noise\n{REMOTE_WORKSPACE_MARKER}\t1\t/remote/workspaces/ABC-123\n");

    let info = parse_remote_workspace_output(&output).expect("remote workspace output should parse");

    assert!(info.created_now);
    assert_eq!(info.path, "/remote/workspaces/ABC-123");
}

#[test]
fn parse_remote_workspace_output_accepts_existing_workspace_marker() {
    let output = format!("{REMOTE_WORKSPACE_MARKER}\t0\t/remote/workspaces/ABC-123\n");

    let info = parse_remote_workspace_output(&output).expect("remote workspace output should parse");

    assert!(!info.created_now);
    assert_eq!(info.path, "/remote/workspaces/ABC-123");
}

#[test]
fn parse_remote_workspace_output_rejects_missing_marker() {
    let result = parse_remote_workspace_output("plain output\nwithout marker\n");

    assert!(matches!(result, Err(SymphonyError::Workspace(_))));
}

#[test]
fn parse_remote_workspace_output_rejects_malformed_marker() {
    let output = format!("{REMOTE_WORKSPACE_MARKER}\t2\t/remote/workspaces/ABC-123\n");

    assert!(matches!(
        parse_remote_workspace_output(&output),
        Err(SymphonyError::Workspace(_))
    ));
}

#[test]
fn parse_remote_workspace_output_rejects_empty_path() {
    let output = format!("{REMOTE_WORKSPACE_MARKER}\t1\t\n");

    assert!(matches!(
        parse_remote_workspace_output(&output),
        Err(SymphonyError::Workspace(_))
    ));
}

#[test]
fn validate_remote_workspace_path_rejects_empty_input() {
    assert!(matches!(validate_remote_workspace_path(""), Err(SymphonyError::Workspace(_))));
}

#[test]
fn validate_remote_workspace_path_rejects_whitespace_only_input() {
    assert!(matches!(validate_remote_workspace_path("   "), Err(SymphonyError::Workspace(_))));
}

#[test]
fn validate_remote_workspace_path_rejects_newlines() {
    let result = validate_remote_workspace_path("/tmp/abc\n123");

    assert!(matches!(result, Err(SymphonyError::Workspace(_))));
}

#[test]
fn validate_remote_workspace_path_rejects_null_byte() {
    let result = validate_remote_workspace_path("/tmp/abc\0");

    assert!(matches!(result, Err(SymphonyError::Workspace(_))));
}

#[test]
fn validate_remote_workspace_path_accepts_valid_path() {
    assert!(validate_remote_workspace_path("/home/user/workspaces/ABC-123").is_ok());
}

#[test]
fn validate_remote_workspace_path_accepts_tilde_path() {
    assert!(validate_remote_workspace_path("~/workspaces/ABC-123").is_ok());
}

#[test]
fn validate_remote_workspace_path_rejects_carriage_return() {
    let result = validate_remote_workspace_path("/tmp/abc\r123");

    assert!(matches!(result, Err(SymphonyError::Workspace(_))));
}

#[test]
fn remote_shell_assign_builds_assignment_for_plain_path() {
    let script = remote_shell_assign("workspace", "/tmp/workspaces/ABC-123");

    assert!(script.contains("workspace='/tmp/workspaces/ABC-123'"));
    assert!(script.contains("case \"$workspace\" in"));
}

#[test]
fn remote_shell_assign_expands_tilde_paths() {
    let script = remote_shell_assign("workspace", "~/.symphony/workspaces");

    assert!(script.contains("workspace='~/.symphony/workspaces'"));
    assert!(script.contains("${workspace#~/}"));
}

#[test]
fn remote_shell_assign_escapes_single_quotes() {
    let script = remote_shell_assign("workspace", "/tmp/work's/ABC-123");

    assert!(script.contains("work'\"'\"'s"));
}

#[test]
fn remote_shell_assign_is_written_line_by_line() {
    assert_eq!(
        remote_shell_assign("w", "/x"),
        "w='/x'\ncase \"$w\" in\n  '~') w=\"$HOME\" ;;\n  '~/'*) w=\"$HOME/${w#~/}\" ;;\nesac"
    );
}

#[test]
fn remote_scripts_work_on_the_workspace() {
    let assign = remote_shell_assign("workspace", "/remote/X");
    assert_eq!(remove_remote_script("/remote/X"), format!("{assign}\nrm -rf \"$workspace\""));
    assert_eq!(
        remote_hook_script("/remote/X", "make"),
        format!("{assign}\ncd \"$workspace\" && make")
    );
    let script = prepare_remote_script("/remote/X");
    assert!(script.starts_with("set -eu\n"));
    assert!(script.contains(&assign));
    assert!(script.contains(REMOTE_WORKSPACE_MARKER));
}

#[test]
fn remote_outcomes_are_told_apart() {
    let finished = RemoteOutcome::Finished { output: "ok".into(), status: 0 };
    assert_eq!(remote_result(&finished, "a", "b", "host", 10).unwrap(), "ok");
    let exited = RemoteOutcome::Finished { output: "bad".into(), status: 3 };
    assert!(remote_result(&exited, "a", "b", "host", 10).is_err());
    assert!(remote_result(&RemoteOutcome::Failed("x".into()), "a", "b", "host", 10).is_err());
    assert!(remote_result(&RemoteOutcome::TimedOut, "a", "b", "host", 10).is_err());
}

#[test]
fn default_workspace_root_prefers_the_configured_one() {
    assert_eq!(default_workspace_root(Some("/data"), "/tmp"), "/data");
    assert_eq!(default_workspace_root(Some("  "), "/tmp"), "/tmp/symphony_workspaces");
    assert_eq!(default_workspace_root(None, "/tmp"), "/tmp/symphony_workspaces");
}

#[test]
fn missing_parts_are_put_after_what_exists() {
    let names = path_names("/link/a/b");
    assert_eq!(resolve_missing("/real", &names, 1), "/real/a/b");
    assert_eq!(join_path("/real/", "x"), "/real/x");
}

#[test]
fn io_errors_name_action_and_path() {
    assert!(matches!(
        workspace_io_error("remove", "/ws", "busy"),
        SymphonyError::Workspace(message) if message == "remove failed for /ws: busy"
    ));
}

fn pair(canonical: &str, root: &str) -> (String, String) {
    (canonical.into(), root.into())
}

#[test]
fn a_missing_workspace_is_created_inside_the_root() {
    let mut flow = LocalWorkspace::new(LocalGoal::Ensure, "/root/SYM-1".into());

    flow.advance(LocalEvent::Created(Ok(())));
    assert_eq!(flow.phase, LocalPhase::Resolve);
    flow.advance(LocalEvent::Resolved(Ok(pair("/root/SYM-1", "/root"))));
    assert!(flow.contained);
    flow.advance(LocalEvent::Inspected(PathState::Missing));
    assert_eq!(flow.phase, LocalPhase::Create);
    flow.advance(LocalEvent::Created(Ok(())));
    flow.advance(LocalEvent::Verified(Some(Ok(pair("/root/SYM-1", "/root")))));
    assert_eq!(flow.phase, LocalPhase::Finished);
    let info = flow.result().unwrap();
    assert_eq!(info, WorkspaceInfo { path: "/root/SYM-1".into(), created_now: true });
}

#[test]
fn a_workspace_outside_the_root_is_left_alone() {
    for goal in [LocalGoal::Ensure, LocalGoal::Cleanup] {
        let mut flow = LocalWorkspace::new(goal, "/root/..".into());
        flow.advance(LocalEvent::Resolved(Ok(pair("/", "/root"))));
        assert_eq!(flow.phase, LocalPhase::Finished);
        assert!(!flow.contained);
        assert_eq!(
            flow.result().unwrap_err().message(),
            "workspace error: path outside workspace root: /root/.."
        );
    }
}

#[test]
fn a_link_out_of_the_root_is_found() {
    let mut flow = LocalWorkspace::new(LocalGoal::Ensure, "/root/SYM-1".into());
    flow.advance(LocalEvent::Resolved(Ok(pair("/root/SYM-1", "/root"))));
    flow.advance(LocalEvent::Inspected(PathState::Directory));
    flow.advance(LocalEvent::Verified(Some(Ok(pair("/elsewhere", "/root")))));

    assert_eq!(
        flow.result().unwrap_err().message(),
        "workspace error: symlink escape detected: /root/SYM-1 resolves to /elsewhere which is \
         outside workspace root /root"
    );
}

#[test]
fn a_workspace_is_removed_after_its_last_script() {
    let mut flow = LocalWorkspace::new(LocalGoal::Cleanup, "/root/SYM-1".into());
    flow.advance(LocalEvent::Resolved(Ok(pair("/root/SYM-1", "/root"))));
    flow.advance(LocalEvent::Inspected(PathState::Directory));
    assert_eq!(flow.phase, LocalPhase::Hook);
    flow.advance(LocalEvent::HookRan);
    assert_eq!(flow.phase, LocalPhase::Remove);
    flow.advance(LocalEvent::Removed(Err("busy".into())));
    assert_eq!(
        flow.result().unwrap_err().message(),
        "workspace error: remove workspace failed for /root/SYM-1: busy"
    );

    let mut flow = LocalWorkspace::new(LocalGoal::Cleanup, "/root/SYM-1".into());
    flow.advance(LocalEvent::Resolved(Ok(pair("/root/SYM-1", "/root"))));
    flow.advance(LocalEvent::Inspected(PathState::Missing));
    assert_eq!(flow.phase, LocalPhase::Finished);
    assert!(!flow.result().unwrap().created_now);
}
