//! Workspaces: where they are, how they are made and removed, and the scripts that run around
//! them.

use vstd::prelude::*;
use vstd::string::*;

use crate::config::HooksConfig;
use crate::domain;
use crate::error;
use crate::error::{ErrorView, SymphonyError};
use crate::path;
use crate::ssh;
use crate::text;

verus! {

/// A workspace that is there.
#[derive(Debug, PartialEq, Eq)]
pub struct WorkspaceInfo {
    pub path: String,
    pub created_now: bool,
}

/// The model of a workspace that is there.
#[verifier::ext_equal]
pub struct WorkspaceView {
    pub path: Seq<char>,
    pub created_now: bool,
}

impl View for WorkspaceInfo {
    type V = WorkspaceView;

    open spec fn view(&self) -> WorkspaceView {
        WorkspaceView { path: self.path@, created_now: self.created_now }
    }
}

/// When a script runs.
#[derive(Debug, Clone, Copy, PartialEq, Eq)]
pub enum HookPhase {
    AfterCreate,
    BeforeRun,
    AfterRun,
    BeforeRemove,
}

/// Knows where the workspaces are and which scripts run around them.
#[derive(Debug)]
pub struct WorkspaceManager {
    root: String,
    root_raw: String,
    hooks: HooksConfig,
}

/// The model of a workspace manager: the root in its shortest form, the root as configured, and the
/// scripts.
pub struct ManagerView {
    pub root: Seq<char>,
    pub root_raw: Seq<char>,
    pub hooks: HooksConfig,
}

impl View for WorkspaceManager {
    type V = ManagerView;

    closed spec fn view(&self) -> ManagerView {
        ManagerView { root: self.root@, root_raw: self.root_raw@, hooks: self.hooks }
    }
}

/// What is said when an operation on a path fails.
pub open spec fn io_failure(action: Seq<char>, at: Seq<char>, source: Seq<char>) -> ErrorView {
    ErrorView::Workspace(action + " failed for "@ + at + ": "@ + source)
}

/// What is said when an operation on a path fails.
pub fn workspace_io_error(action: &str, at: &str, source: &str) -> (r: SymphonyError)
    ensures
        r@ == io_failure(action@, at@, source@),
{
    let mut message = action.to_owned();
    message.append(" failed for ");
    message.append(at);
    message.append(": ");
    message.append(source);
    SymphonyError::Workspace(message)
}

/// The shortest form of a path, taken from the current directory where it is relative. The current
/// directory may be unknown; that matters for a relative path only.
pub open spec fn located(at: Seq<char>, current_dir: Result<Seq<char>, Seq<char>>) -> Result<
    Seq<char>,
    ErrorView,
> {
    if path::is_absolute(at) {
        Ok(path::normal(at))
    } else {
        match current_dir {
            Ok(dir) => Ok(path::normal(path::below(dir, at))),
            Err(source) => Err(io_failure("resolve current directory"@, at, source)),
        }
    }
}

/// The model of a result of two texts.
pub open spec fn text_result(r: Result<String, String>) -> Result<Seq<char>, Seq<char>> {
    match r {
        Ok(s) => Ok(s@),
        Err(s) => Err(s@),
    }
}

/// The shortest form of a path, taken from the current directory where it is relative.
pub fn absolute_normalized_path(at: &str, current_dir: &Result<String, String>) -> (r: Result<
    String,
    SymphonyError,
>)
    ensures
        error::result_is(r, located(at@, text_result(*current_dir))),
{
    if path::absolute(at) {
        return Ok(path::normalize_absolute_path(at));
    }
    match current_dir {
        Ok(dir) => {
            let joined = path::join_path(dir.as_str(), at);
            Ok(path::normalize_absolute_path(joined.as_str()))
        },
        Err(source) => Err(workspace_io_error("resolve current directory", at, source.as_str())),
    }
}

/// The script of a phase. `after_create` runs for a new workspace only.
pub open spec fn script_of(hooks: HooksConfig, phase: HookPhase, created_now: bool) -> Option<
    Seq<char>,
> {
    match phase {
        HookPhase::AfterCreate => if created_now {
            text::opt_text(hooks.after_create)
        } else {
            None
        },
        HookPhase::BeforeRun => text::opt_text(hooks.before_run),
        HookPhase::AfterRun => text::opt_text(hooks.after_run),
        HookPhase::BeforeRemove => text::opt_text(hooks.before_remove),
    }
}

/// A failure of the script matters: the phases before a run stop on it, the others go on.
pub open spec fn is_fatal(phase: HookPhase) -> bool {
    phase == HookPhase::AfterCreate || phase == HookPhase::BeforeRun
}

/// What the run of a phase's script means for what comes next.
pub fn hook_result(phase: HookPhase, result: Result<(), SymphonyError>) -> (r: Result<
    (),
    SymphonyError,
>)
    ensures
        if is_fatal(phase) {
            r == result
        } else {
            r is Ok
        },
{
    match phase {
        HookPhase::AfterCreate => result,
        HookPhase::BeforeRun => result,
        HookPhase::AfterRun => Ok(()),
        HookPhase::BeforeRemove => Ok(()),
    }
}

/// How the run of a local script ended.
#[derive(Debug)]
pub enum HookOutcome {
    Exited { success: bool, code: Option<i32> },
    NotStarted(String),
    Failed(String),
    TimedOut,
}

/// How std's `Debug` shows an optional exit code.
pub open spec fn code_text(code: Option<i32>) -> Seq<char> {
    match code {
        Some(n) => "Some("@ + text::signed_decimal(n as int) + ")"@,
        None => "None"@,
    }
}

fn show_code(code: Option<i32>) -> (r: String)
    ensures
        r@ == code_text(code),
{
    match code {
        Some(n) => {
            let mut out = "Some(".to_owned();
            out.append(text::i64_text(n as i64).as_str());
            out.append(")");
            out
        },
        None => "None".to_owned(),
    }
}

/// What the run of a local script means.
pub fn local_hook_result(outcome: &HookOutcome, cwd: &str) -> (r: Result<(), SymphonyError>)
    ensures
        match *outcome {
            HookOutcome::Exited { success, code } => if success {
                r is Ok
            } else {
                r matches Err(e) && e@ == ErrorView::Workspace(
                    "hook failed with exit code: "@ + code_text(code),
                )
            },
            HookOutcome::NotStarted(source) => r matches Err(e) && e@ == io_failure(
                "spawn hook"@,
                cwd@,
                source@,
            ),
            HookOutcome::Failed(source) => r matches Err(e) && e@ == ErrorView::Workspace(
                "hook error: "@ + source@,
            ),
            HookOutcome::TimedOut => r matches Err(e) && e@ == ErrorView::Workspace(
                "hook timed out"@,
            ),
        },
{
    match outcome {
        HookOutcome::Exited { success, code } => if *success {
            Ok(())
        } else {
            Err(
                SymphonyError::Workspace(
                    text::joined("hook failed with exit code: ", show_code(*code).as_str()),
                ),
            )
        },
        HookOutcome::NotStarted(source) => Err(
            workspace_io_error("spawn hook", cwd, source.as_str()),
        ),
        HookOutcome::Failed(source) => Err(
            SymphonyError::Workspace(text::joined("hook error: ", source.as_str())),
        ),
        HookOutcome::TimedOut => Err(SymphonyError::Workspace("hook timed out".to_owned())),
    }
}

/// How a remote command ended.
#[derive(Debug)]
pub enum RemoteOutcome {
    Finished { output: String, status: i32 },
    Failed(String),
    TimedOut,
}

/// What is said when a remote command cannot be run to its end.
pub open spec fn remote_failure(action: Seq<char>, host: Seq<char>, reason: Seq<char>) -> ErrorView {
    ErrorView::Workspace(action + " failed on "@ + host + ": "@ + reason)
}

/// What is said when a remote command takes too long.
pub open spec fn remote_timeout(action: Seq<char>, host: Seq<char>, timeout_ms: u64) -> ErrorView {
    ErrorView::Workspace(
        action + " timed out on "@ + host + " after "@ + text::decimal(timeout_ms as nat) + "ms"@,
    )
}

/// What is said when a remote command ends with a status other than zero.
pub open spec fn remote_status(
    action: Seq<char>,
    host: Seq<char>,
    status: i32,
    output: Seq<char>,
) -> ErrorView {
    ErrorView::Workspace(
        action + " failed on "@ + host + " with exit code "@ + text::signed_decimal(status as int)
            + ": "@ + text::trimmed(output),
    )
}

/// What a remote command means: its output where it ends with status zero, else an error. The
/// errors name the command by `action`, or by `exit_action` where it has run to its end.
pub open spec fn remote_meaning(
    outcome: RemoteOutcome,
    action: Seq<char>,
    exit_action: Seq<char>,
    host: Seq<char>,
    timeout_ms: u64,
) -> Result<Seq<char>, ErrorView> {
    match outcome {
        RemoteOutcome::Finished { output, status } => if status == 0 {
            Ok(output@)
        } else {
            Err(remote_status(exit_action, host, status, output@))
        },
        RemoteOutcome::Failed(reason) => Err(remote_failure(action, host, reason@)),
        RemoteOutcome::TimedOut => Err(remote_timeout(action, host, timeout_ms)),
    }
}

/// What a remote command means.
pub fn remote_result(
    outcome: &RemoteOutcome,
    action: &str,
    exit_action: &str,
    host: &str,
    timeout_ms: u64,
) -> (r: Result<String, SymphonyError>)
    ensures
        error::result_is(r, remote_meaning(*outcome, action@, exit_action@, host@, timeout_ms)),
{
    match outcome {
        RemoteOutcome::Finished { output, status } => {
            if *status == 0 {
                return Ok(output.clone());
            }
            let mut message = exit_action.to_owned();
            message.append(" failed on ");
            message.append(host);
            message.append(" with exit code ");
            message.append(text::i64_text(*status as i64).as_str());
            message.append(": ");
            message.append(text::trim(output.as_str()));
            Err(SymphonyError::Workspace(message))
        },
        RemoteOutcome::Failed(reason) => {
            let mut message = action.to_owned();
            message.append(" failed on ");
            message.append(host);
            message.append(": ");
            message.append(reason.as_str());
            Err(SymphonyError::Workspace(message))
        },
        RemoteOutcome::TimedOut => {
            let mut message = action.to_owned();
            message.append(" timed out on ");
            message.append(host);
            message.append(" after ");
            message.append(text::u64_text(timeout_ms).as_str());
            message.append("ms");
            Err(SymphonyError::Workspace(message))
        },
    }
}

/// The shell lines that set a variable to a path, with a leading `~` standing for the home
/// directory of the host.
pub open spec fn assign_lines(name: Seq<char>, raw_path: Seq<char>) -> Seq<char> {
    text::join(
        Seq::empty().push(name + "="@ + ssh::escaped(raw_path)).push(
            "case \"$"@ + name + "\" in"@,
        ).push("  '~') "@ + name + "=\"$HOME\" ;;"@).push(
            "  '~/'*) "@ + name + "=\"$HOME/${"@ + name + "#~/}\" ;;"@,
        ).push("esac"@),
        "\n"@,
    )
}

/// The shell lines that set a variable to a path.
pub fn remote_shell_assign(variable_name: &str, raw_path: &str) -> (r: String)
    ensures
        r@ == assign_lines(variable_name@, raw_path@),
{
    let mut first = variable_name.to_owned();
    first.append("=");
    first.append(ssh::shell_escape(raw_path).as_str());
    let mut second = "case \"$".to_owned();
    second.append(variable_name);
    second.append("\" in");
    let mut third = "  '~') ".to_owned();
    third.append(variable_name);
    third.append("=\"$HOME\" ;;");
    let mut fourth = "  '~/'*) ".to_owned();
    fourth.append(variable_name);
    fourth.append("=\"$HOME/${");
    fourth.append(variable_name);
    fourth.append("#~/}\" ;;");
    let lines = text::and_text(text::no_texts(), first.as_str());
    let lines = text::and_text(lines, second.as_str());
    let lines = text::and_text(lines, third.as_str());
    let lines = text::and_text(lines, fourth.as_str());
    let lines = text::and_text(lines, "esac");
    text::join_lines(&lines)
}

/// The script that makes a remote workspace and reports it.
pub open spec fn prepare_lines(workspace: Seq<char>) -> Seq<char> {
    text::join(
        Seq::empty().push("set -eu"@).push(assign_lines("workspace"@, workspace)).push(
            "if [ -d \"$workspace\" ]; then"@,
        ).push("  created=0"@).push("elif [ -e \"$workspace\" ]; then"@).push(
            "  rm -rf \"$workspace\""@,
        ).push("  mkdir -p \"$workspace\""@).push("  created=1"@).push("else"@).push(
            "  mkdir -p \"$workspace\""@,
        ).push("  created=1"@).push("fi"@).push("cd \"$workspace\""@).push(
            "printf '%s\\t%s\\t%s\\n' '__SYMPHONY_WORKSPACE__' \"$created\" \"$(pwd -P)\""@,
        ),
        "\n"@,
    )
}

/// The script that makes a remote workspace and reports it.
pub fn prepare_remote_script(workspace: &str) -> (r: String)
    ensures
        r@ == prepare_lines(workspace@),
{
    let lines = text::and_text(text::no_texts(), "set -eu");
    let lines = text::and_text(lines, remote_shell_assign("workspace", workspace).as_str());
    let lines = text::and_text(lines, "if [ -d \"$workspace\" ]; then");
    let lines = text::and_text(lines, "  created=0");
    let lines = text::and_text(lines, "elif [ -e \"$workspace\" ]; then");
    let lines = text::and_text(lines, "  rm -rf \"$workspace\"");
    let lines = text::and_text(lines, "  mkdir -p \"$workspace\"");
    let lines = text::and_text(lines, "  created=1");
    let lines = text::and_text(lines, "else");
    let lines = text::and_text(lines, "  mkdir -p \"$workspace\"");
    let lines = text::and_text(lines, "  created=1");
    let lines = text::and_text(lines, "fi");
    let lines = text::and_text(lines, "cd \"$workspace\"");
    let lines = text::and_text(
        lines,
        "printf '%s\\t%s\\t%s\\n' '__SYMPHONY_WORKSPACE__' \"$created\" \"$(pwd -P)\"",
    );
    text::join_lines(&lines)
}

/// The script that removes a remote workspace.
pub fn remove_remote_script(workspace: &str) -> (r: String)
    ensures
        r@ == text::join(
            Seq::empty().push(assign_lines("workspace"@, workspace@)).push(
                "rm -rf \"$workspace\""@,
            ),
            "\n"@,
        ),
{
    let lines = text::and_text(
        text::no_texts(),
        remote_shell_assign("workspace", workspace).as_str(),
    );
    let lines = text::and_text(lines, "rm -rf \"$workspace\"");
    text::join_lines(&lines)
}

/// The script that runs a hook in a remote workspace.
pub fn remote_hook_script(workspace: &str, script: &str) -> (r: String)
    ensures
        r@ == text::join(
            Seq::empty().push(assign_lines("workspace"@, workspace@)).push(
                "cd \"$workspace\" && "@ + script@,
            ),
            "\n"@,
        ),
{
    let lines = text::and_text(
        text::no_texts(),
        remote_shell_assign("workspace", workspace).as_str(),
    );
    let lines = text::and_text(
        lines,
        text::joined("cd \"$workspace\" && ", script).as_str(),
    );
    text::join_lines(&lines)
}

/// A line reports a workspace: its first field is the marker.
pub open spec fn is_report(line: Seq<char>) -> bool {
    line.subrange(0, text::find_char(line, 0, '\t')) == "__SYMPHONY_WORKSPACE__"@
}

/// The workspace that a line reports: its second field tells whether it is new, and the rest of the
/// line is its path.
pub open spec fn reported_workspace(line: Seq<char>) -> Option<WorkspaceView> {
    let first = text::find_char(line, 0, '\t');
    let second = text::find_char(line, first + 1, '\t');
    if first < line.len() && second < line.len() && second + 1 < line.len() {
        let flag = line.subrange(first + 1, second);
        let at = line.subrange(second + 1, line.len() as int);
        if flag == "0"@ {
            Some(WorkspaceView { path: at, created_now: false })
        } else if flag == "1"@ {
            Some(WorkspaceView { path: at, created_now: true })
        } else {
            None
        }
    } else {
        None
    }
}

/// The position of the first line from line `i` on that reports a workspace; the number of lines
/// where none does.
pub open spec fn first_report(lines: Seq<Seq<char>>, i: int) -> int
    decreases lines.len() - i,
{
    if i < 0 || i >= lines.len() {
        lines.len() as int
    } else if is_report(lines[i]) {
        i
    } else {
        first_report(lines, i + 1)
    }
}

/// The workspace that the output of a remote script reports. The first report counts.
pub open spec fn workspace_from_output(output: Seq<char>) -> Result<WorkspaceView, ErrorView> {
    let lines = text::lines_of(output);
    let at = first_report(lines, 0);
    if at >= lines.len() {
        Err(ErrorView::Workspace("missing remote workspace marker in output: "@ + output))
    } else {
        match reported_workspace(lines[at]) {
            Some(workspace) => Ok(workspace),
            None => Err(ErrorView::Workspace("invalid remote workspace output: "@ + output)),
        }
    }
}

fn tab_from(chars: &Vec<char>, from: usize) -> (r: usize)
    requires
        from <= chars@.len(),
    ensures
        r == text::find_char(chars@, from as int, '\t'),
        from <= r <= chars@.len(),
{
    let mut i: usize = from;
    while i < chars.len() && chars[i] != '\t'
        invariant
            from <= i <= chars@.len(),
            text::find_char(chars@, from as int, '\t') == text::find_char(chars@, i as int, '\t'),
        ensures
            i < chars@.len() ==> chars@[i as int] == '\t',
        decreases chars@.len() - i,
    {
        i = i + 1;
    }
    i
}

fn line_is_report(line: &str) -> (r: bool)
    ensures
        r == is_report(line@),
{
    let chars = text::to_chars(line);
    let end: usize = tab_from(&chars, 0);
    let marker = text::from_chars(&chars, 0, end);
    text::same(marker.as_str(), "__SYMPHONY_WORKSPACE__")
}

fn workspace_of_line(line: &str) -> (r: Option<WorkspaceInfo>)
    ensures
        match (r, reported_workspace(line@)) {
            (Some(info), Some(expected)) => info@ == expected,
            (None, None) => true,
            _ => false,
        },
{
    let chars = text::to_chars(line);
    let first: usize = tab_from(&chars, 0);
    if first >= chars.len() {
        return None;
    }
    let second: usize = tab_from(&chars, first + 1);
    if second >= chars.len() || second >= chars.len() - 1 {
        return None;
    }
    let flag = text::from_chars(&chars, first + 1, second);
    let path = text::from_chars(&chars, second + 1, chars.len());
    if text::same(flag.as_str(), "0") {
        return Some(WorkspaceInfo { path, created_now: false });
    }
    if text::same(flag.as_str(), "1") {
        return Some(WorkspaceInfo { path, created_now: true });
    }
    None
}

/// The workspace that the output of a remote script reports.
pub fn parse_remote_workspace_output(output: &str) -> (r: Result<WorkspaceInfo, SymphonyError>)
    ensures
        error::result_is(r, workspace_from_output(output@)),
{
    let lines = text::lines(output);
    let ghost all = text::texts(lines@);
    let mut i: usize = 0;
    while i < lines.len()
        invariant
            i <= lines@.len(),
            all == text::texts(lines@),
            all == text::lines_of(output@),
            first_report(all, 0) == first_report(all, i as int),
        decreases lines@.len() - i,
    {
        let line = lines[i].as_str();
        proof {
            assert(all[i as int] == line@);
        }
        if line_is_report(line) {
            return match workspace_of_line(line) {
                Some(info) => Ok(info),
                None => Err(
                    SymphonyError::Workspace(
                        text::joined("invalid remote workspace output: ", output),
                    ),
                ),
            };
        }
        i = i + 1;
    }
    Err(
        SymphonyError::Workspace(
            text::joined("missing remote workspace marker in output: ", output),
        ),
    )
}

/// A character that a remote path may not hold.
pub open spec fn breaks_path(c: char) -> bool {
    c == '\n' || c == '\r' || c == '\0'
}

/// What is wrong with a remote path.
pub open spec fn remote_path_fault(at: Seq<char>) -> Option<ErrorView> {
    if text::blank(at) {
        Some(ErrorView::Workspace("remote workspace path must not be empty"@))
    } else if exists|i: int| 0 <= i < at.len() && breaks_path(#[trigger] at[i]) {
        Some(ErrorView::Workspace("remote workspace path contains invalid characters"@))
    } else {
        None
    }
}

/// Checks a remote path: it is not blank, and holds neither line breaks nor a null character.
pub fn validate_remote_workspace_path(path: &str) -> (r: Result<(), SymphonyError>)
    ensures
        match remote_path_fault(path@) {
            Some(fault) => r matches Err(error) && error@ == fault,
            None => r is Ok,
        },
{
    if text::is_blank(path) {
        return Err(
            SymphonyError::Workspace("remote workspace path must not be empty".to_owned()),
        );
    }
    let chars = text::to_chars(path);
    let mut i: usize = 0;
    while i < chars.len()
        invariant
            chars@ == path@,
            !text::blank(path@),
            i <= chars@.len(),
            forall|k: int| 0 <= k < i ==> !breaks_path(#[trigger] path@[k]),
        decreases chars@.len() - i,
    {
        let c: char = chars[i];
        if c == '\n' || c == '\r' || c == '\0' {
            proof {
                assert(breaks_path(path@[i as int]));
            }
            return Err(
                SymphonyError::Workspace(
                    "remote workspace path contains invalid characters".to_owned(),
                ),
            );
        }
        i = i + 1;
    }
    Ok(())
}

/// The directory of the workspaces: the configured one, or `symphony_workspaces` below the
/// directory for temporary files.
pub open spec fn workspace_root(configured: Option<Seq<char>>, temp_dir: Seq<char>) -> Seq<char> {
    match configured {
        Some(root) => if text::blank(root) {
            path::below(temp_dir, "symphony_workspaces"@)
        } else {
            root
        },
        None => path::below(temp_dir, "symphony_workspaces"@),
    }
}

/// The directory of the workspaces.
pub fn default_workspace_root(configured_root: Option<&str>, temp_dir: &str) -> (r: String)
    ensures
        r@ == workspace_root(text::opt_str(configured_root), temp_dir@),
{
    if let Some(root) = configured_root {
        if !text::is_blank(root) {
            return root.to_owned();
        }
    }
    path::join_path(temp_dir, "symphony_workspaces")
}

/// What is at a path.
#[derive(Debug)]
pub enum PathState {
    Directory,
    NotADirectory,
    Missing,
    Failed(String),
}

/// What to do about a local workspace.
#[derive(Debug, Clone, Copy, PartialEq, Eq)]
pub enum WorkspaceStep {
    Use,
    Create,
}

/// What is wrong at the path of a workspace.
pub open spec fn path_fault(at: Seq<char>, state: PathState) -> Option<ErrorView> {
    match state {
        PathState::NotADirectory => Some(
            ErrorView::Workspace("workspace path is not a directory: "@ + at),
        ),
        PathState::Failed(source) => Some(io_failure("inspect workspace"@, at, source@)),
        _ => None,
    }
}

/// What to do about a local workspace, given what is at its path: a directory is used, and where
/// nothing is one is created.
pub fn ensure_step(at: &str, state: &PathState) -> (r: Result<WorkspaceStep, SymphonyError>)
    ensures
        match path_fault(at@, *state) {
            Some(fault) => r matches Err(error) && error@ == fault,
            None => r == Ok::<WorkspaceStep, SymphonyError>(
                if state is Missing {
                    WorkspaceStep::Create
                } else {
                    WorkspaceStep::Use
                },
            ),
        },
{
    match state {
        PathState::Directory => Ok(WorkspaceStep::Use),
        PathState::Missing => Ok(WorkspaceStep::Create),
        PathState::NotADirectory => Err(
            SymphonyError::Workspace(text::joined("workspace path is not a directory: ", at)),
        ),
        PathState::Failed(source) => Err(
            workspace_io_error("inspect workspace", at, source.as_str()),
        ),
    }
}

/// Tells whether a local workspace is to be removed, given what is at its path.
pub fn cleanup_step(at: &str, state: &PathState) -> (r: Result<bool, SymphonyError>)
    ensures
        match path_fault(at@, *state) {
            Some(fault) => r matches Err(error) && error@ == fault,
            None => r == Ok::<bool, SymphonyError>(state is Directory),
        },
{
    match state {
        PathState::Directory => Ok(true),
        PathState::Missing => Ok(false),
        PathState::NotADirectory => Err(
            SymphonyError::Workspace(text::joined("workspace path is not a directory: ", at)),
        ),
        PathState::Failed(source) => Err(
            workspace_io_error("inspect workspace", at, source.as_str()),
        ),
    }
}

/// A path that exists up to its first `existing` names: the canonical path of that part, and the names
/// that are missing after it.
pub open spec fn resolved_path(
    canonical: Seq<char>,
    names: Seq<Seq<char>>,
    existing: int,
) -> Seq<char> {
    path::path_through(
        path::is_absolute(canonical),
        path::names(canonical) + names.subrange(existing, names.len() as int),
    )
}

/// The path of a file or directory that exists up to its first `existing` names.
pub fn resolve_missing(canonical: &str, names: &Vec<String>, existing: usize) -> (r: String)
    requires
        existing <= names@.len(),
    ensures
        r@ == resolved_path(canonical@, text::texts(names@), existing as int),
{
    let mut all = path::path_names(canonical);
    let ghost start = text::texts(all@);
    let ghost rest = text::texts(names@);
    let mut i: usize = existing;
    proof {
        assert(start + rest.subrange(existing as int, existing as int) =~= start);
    }
    while i < names.len()
        invariant
            existing <= i <= names@.len(),
            rest == text::texts(names@),
            text::texts(all@) == start + rest.subrange(existing as int, i as int),
        decreases names@.len() - i,
    {
        text::push_text(&mut all, names[i].clone());
        proof {
            assert(start + rest.subrange(existing as int, i + 1) =~= (start + rest.subrange(
                existing as int,
                i as int,
            )).push(rest[i as int]));
        }
        i = i + 1;
    }
    proof {
        let whole = text::texts(all@);
        assert(whole.subrange(0, whole.len() as int) =~= whole);
    }
    path::path_of(path::absolute(canonical), &all, 0, all.len())
}

/// What is said of a workspace that lies outside the root.
pub open spec fn outside_root(workspace_path: Seq<char>) -> ErrorView {
    ErrorView::Workspace("path outside workspace root: "@ + workspace_path)
}

/// Checks that a workspace lies inside the root, given the canonical paths of both.
pub fn check_containment(
    workspace_path: &str,
    canonical_path: &str,
    canonical_root: &str,
) -> (r: Result<(), SymphonyError>)
    ensures
        if path::inside(canonical_path@, canonical_root@) {
            r is Ok
        } else {
            r matches Err(error) && error@ == outside_root(workspace_path@)
        },
{
    if path::is_inside(canonical_path, canonical_root) {
        return Ok(());
    }
    Err(SymphonyError::Workspace(text::joined("path outside workspace root: ", workspace_path)))
}

/// What is said of a workspace that leads out of the root.
pub open spec fn symlink_escape(
    workspace_path: Seq<char>,
    canonical_path: Seq<char>,
    canonical_root: Seq<char>,
) -> ErrorView {
    ErrorView::Workspace(
        "symlink escape detected: "@ + workspace_path + " resolves to "@ + canonical_path
            + " which is outside workspace root "@ + canonical_root,
    )
}

/// Checks that a workspace that exists does not lead out of the root, given the canonical paths of
/// both.
pub fn check_symlink_escape(
    workspace_path: &str,
    canonical_path: &str,
    canonical_root: &str,
) -> (r: Result<(), SymphonyError>)
    ensures
        if path::inside(canonical_path@, canonical_root@) {
            r is Ok
        } else {
            r matches Err(error) && error@ == symlink_escape(
                workspace_path@,
                canonical_path@,
                canonical_root@,
            )
        },
{
    if path::is_inside(canonical_path, canonical_root) {
        return Ok(());
    }
    let mut message = "symlink escape detected: ".to_owned();
    message.append(workspace_path);
    message.append(" resolves to ");
    message.append(canonical_path);
    message.append(" which is outside workspace root ");
    message.append(canonical_root);
    Err(SymphonyError::Workspace(message))
}

impl WorkspaceManager {
    /// A manager of the workspaces below a root.
    pub fn new(root: &str, hooks: HooksConfig, current_dir: &Result<String, String>) -> (r: Result<
        Self,
        SymphonyError,
    >)
        ensures
            match (r, located(root@, text_result(*current_dir))) {
                (Ok(manager), Ok(at)) => manager@ == (ManagerView {
                    root: at,
                    root_raw: root@,
                    hooks,
                }),
                (Err(error), Err(expected)) => error@ == expected,
                _ => false,
            },
    {
        match absolute_normalized_path(root, current_dir) {
            Ok(at) => Ok(WorkspaceManager { root: at, root_raw: root.to_owned(), hooks }),
            Err(error) => Err(error),
        }
    }

    /// The root in its shortest form.
    pub fn root(&self) -> (r: &str)
        ensures
            r@ == self@.root,
    {
        self.root.as_str()
    }

    /// How long a script may take.
    pub fn hook_timeout_ms(&self) -> (r: u64)
        ensures
            r == self@.hooks.timeout_ms,
    {
        self.hooks.timeout_ms
    }

    /// Where the workspace of an issue is.
    pub fn workspace_path(&self, identifier: &str) -> (r: String)
        ensures
            r@ == path::below(self@.root, domain::workspace_key(identifier@)),
    {
        let key = domain::sanitize_workspace_key(identifier);
        path::join_path(self.root.as_str(), key.as_str())
    }

    /// Where the workspace of an issue is on a remote host.
    pub fn remote_workspace_path(&self, identifier: &str) -> (r: String)
        ensures
            r@ == path::below(self@.root_raw, domain::workspace_key(identifier@)),
    {
        let key = domain::sanitize_workspace_key(identifier);
        path::join_path(self.root_raw.as_str(), key.as_str())
    }

    /// The script of a phase.
    pub fn hook_script(&self, phase: HookPhase, created_now: bool) -> (r: Option<&str>)
        ensures
            text::opt_str(r) == script_of(self@.hooks, phase, created_now),
    {
        let script = match phase {
            HookPhase::AfterCreate => {
                if !created_now {
                    return None;
                }
                &self.hooks.after_create
            },
            HookPhase::BeforeRun => &self.hooks.before_run,
            HookPhase::AfterRun => &self.hooks.after_run,
            HookPhase::BeforeRemove => &self.hooks.before_remove,
        };
        match script {
            Some(script) => Some(script.as_str()),
            None => None,
        }
    }
}

/// The workspace of an issue is a directory right below the root, named by the issue's key, unless
/// the key is empty or made of one or two dots.
pub proof fn lemma_workspace_is_below_root(root: Seq<char>, identifier: Seq<char>)
    requires
        path::is_absolute(root),
        identifier.len() > 0,
        domain::workspace_key(identifier) != "."@,
        domain::workspace_key(identifier) != ".."@,
    ensures
        path::names(path::below(root, domain::workspace_key(identifier))) == path::names(root).push(
            domain::workspace_key(identifier),
        ),
        path::inside(path::below(root, domain::workspace_key(identifier)), root),
{
    let key = domain::workspace_key(identifier);
    domain::lemma_workspace_key_alphabet(identifier);
    assert forall|k: int| 0 <= k < key.len() implies #[trigger] key[k] != '/' by {
        assert(domain::is_key_char(key[k]));
    }
    path::lemma_names_below(root, key);
}

/// An identifier that would lead out of the root is refused: its workspace is not inside the root.
pub proof fn lemma_parent_is_not_inside(root: Seq<char>, identifier: Seq<char>)
    requires
        path::is_absolute(root),
        path::names(root).len() > 0,
        domain::workspace_key(identifier) == ".."@,
    ensures
        !path::inside(path::below(root, domain::workspace_key(identifier)), root),
{
    path::lemma_names_parent(root);
}

/// A script that fails stops the work before a run, and never after it.
pub proof fn lemma_fatal_phases(phase: HookPhase)
    ensures
        is_fatal(phase) <==> phase != HookPhase::AfterRun && phase != HookPhase::BeforeRemove,
{
}

/// A path from the root is taken as it is and any other one from the current directory, which must
/// then be known; either comes in its shortest form.
pub proof fn lemma_path_is_located(
    at: Seq<char>,
    directory: Seq<char>,
    current_dir: Result<Seq<char>, Seq<char>>,
    source: Seq<char>,
)
    ensures
        at.len() > 0 && at[0] == '/' ==> located(at, current_dir) == Ok::<Seq<char>, ErrorView>(
            path::normal(at),
        ),
        at.len() == 0 || at[0] != '/' ==> located(at, Ok(directory)) == Ok::<Seq<char>, ErrorView>(
            path::normal(path::below(directory, at)),
        ),
        at.len() == 0 || at[0] != '/' ==> located(at, Err(source)) == Err::<Seq<char>, ErrorView>(
            ErrorView::Workspace(
                "resolve current directory"@ + " failed for "@ + at + ": "@ + source,
            ),
        ),
{
}

/// Each phase runs its own script, and the one for new workspaces runs for those alone.
pub proof fn lemma_phase_has_its_script(hooks: HooksConfig, created_now: bool)
    ensures
        hooks.after_create is Some ==> script_of(hooks, HookPhase::AfterCreate, true) == Some(
            hooks.after_create->0@,
        ),
        hooks.after_create is None ==> script_of(hooks, HookPhase::AfterCreate, true) is None,
        script_of(hooks, HookPhase::AfterCreate, false) is None,
        hooks.before_run is Some ==> script_of(hooks, HookPhase::BeforeRun, created_now) == Some(
            hooks.before_run->0@,
        ),
        hooks.before_run is None ==> script_of(hooks, HookPhase::BeforeRun, created_now) is None,
        hooks.after_run is Some ==> script_of(hooks, HookPhase::AfterRun, created_now) == Some(
            hooks.after_run->0@,
        ),
        hooks.after_run is None ==> script_of(hooks, HookPhase::AfterRun, created_now) is None,
        hooks.before_remove is Some ==> script_of(hooks, HookPhase::BeforeRemove, created_now)
            == Some(hooks.before_remove->0@),
        hooks.before_remove is None ==> script_of(hooks, HookPhase::BeforeRemove, created_now)
            is None,
{
}

/// What is said of an operation that fails names the operation, the path and the reason.
pub proof fn lemma_failure_is_explained(action: Seq<char>, at: Seq<char>, source: Seq<char>)
    ensures
        io_failure(action, at, source) is Workspace,
        text::occurs_at(io_failure(action, at, source)->Workspace_0, 0, action),
        text::shows(io_failure(action, at, source)->Workspace_0, at),
        text::shows(io_failure(action, at, source)->Workspace_0, source),
        remote_failure(action, at, source) is Workspace,
        text::occurs_at(remote_failure(action, at, source)->Workspace_0, 0, action),
        text::shows(remote_failure(action, at, source)->Workspace_0, at),
        text::shows(remote_failure(action, at, source)->Workspace_0, source),
        outside_root(at) is Workspace,
        text::shows(outside_root(at)->Workspace_0, at),
{
    let one = action + " failed for "@ + at;
    text::lemma_shows_end(action + " failed for "@, at);
    text::lemma_shows_more(one, ": "@, at);
    text::lemma_shows_more(one + ": "@, source, at);
    text::lemma_shows_end(one + ": "@, source);
    let two = action + " failed on "@ + at;
    text::lemma_shows_end(action + " failed on "@, at);
    text::lemma_shows_more(two, ": "@, at);
    text::lemma_shows_more(two + ": "@, source, at);
    text::lemma_shows_end(two + ": "@, source);
    text::lemma_shows_end("path outside workspace root: "@, at);
    assert((one + ": "@ + source).subrange(0, action.len() as int) =~= action);
    assert((two + ": "@ + source).subrange(0, action.len() as int) =~= action);
}

/// A remote command that ends with status zero gives its output; one that ends otherwise, fails or
/// takes too long is an error that names the host.
pub proof fn lemma_remote_command_is_judged(
    output: String,
    status: i32,
    reason: String,
    action: Seq<char>,
    exit_action: Seq<char>,
    host: Seq<char>,
    timeout_ms: u64,
)
    ensures
        remote_meaning(
            RemoteOutcome::Finished { output, status: 0 },
            action,
            exit_action,
            host,
            timeout_ms,
        ) == Ok::<Seq<char>, ErrorView>(output@),
        status != 0 ==> remote_meaning(
            RemoteOutcome::Finished { output, status },
            action,
            exit_action,
            host,
            timeout_ms,
        ) == Err::<Seq<char>, ErrorView>(
            ErrorView::Workspace(
                exit_action + " failed on "@ + host + " with exit code "@ + text::signed_decimal(
                    status as int,
                ) + ": "@ + text::trimmed(output@),
            ),
        ),
        remote_meaning(RemoteOutcome::Failed(reason), action, exit_action, host, timeout_ms)
            == Err::<Seq<char>, ErrorView>(
            ErrorView::Workspace(action + " failed on "@ + host + ": "@ + reason@),
        ),
        remote_meaning(RemoteOutcome::TimedOut, action, exit_action, host, timeout_ms) == Err::<
            Seq<char>,
            ErrorView,
        >(
            ErrorView::Workspace(
                action + " timed out on "@ + host + " after "@ + text::decimal(timeout_ms as nat)
                    + "ms"@,
            ),
        ),
{
}

/// An exit code is shown where there is one.
pub proof fn lemma_code_is_shown(code: i32)
    ensures
        code_text(Some(code)) == "Some("@ + text::signed_decimal(code as int) + ")"@,
        code_text(None) == "None"@,
{
}

/// The shell lines for a path set the variable to a word that a shell reads back as the path.
pub proof fn lemma_lines_set_the_variable(name: Seq<char>, raw_path: Seq<char>)
    ensures
        ({
            let lines = assign_lines(name, raw_path);
            let word = ssh::escaped(raw_path);
            &&& text::shows(lines, name + "="@ + word)
            &&& ssh::unquoted(word, ssh::QuoteMode::Outside) == Some(raw_path)
            &&& text::shows(lines, "  '~') "@ + name + "=\"$HOME\" ;;"@)
            &&& text::shows(lines, "  '~/'*) "@ + name + "=\"$HOME/${"@ + name + "#~/}\" ;;"@)
        }),
{
    let parts = Seq::empty().push(name + "="@ + ssh::escaped(raw_path)).push(
        "case \"$"@ + name + "\" in"@,
    ).push("  '~') "@ + name + "=\"$HOME\" ;;"@).push(
        "  '~/'*) "@ + name + "=\"$HOME/${"@ + name + "#~/}\" ;;"@,
    ).push("esac"@);
    text::lemma_join_shows(parts, "\n"@, 0);
    text::lemma_join_shows(parts, "\n"@, 2);
    text::lemma_join_shows(parts, "\n"@, 3);
    ssh::lemma_shell_reads_escaped_text(raw_path);
}

/// The script that makes a workspace sets its path, makes the directory, goes into it and reports it.
pub proof fn lemma_script_makes_the_workspace(workspace: Seq<char>)
    ensures
        text::shows(prepare_lines(workspace), "set -eu"@),
        text::shows(prepare_lines(workspace), assign_lines("workspace"@, workspace)),
        text::shows(prepare_lines(workspace), "if [ -d \"$workspace\" ]; then"@),
        text::shows(prepare_lines(workspace), "  created=0"@),
        text::shows(prepare_lines(workspace), "elif [ -e \"$workspace\" ]; then"@),
        text::shows(prepare_lines(workspace), "  rm -rf \"$workspace\""@),
        text::shows(prepare_lines(workspace), "  mkdir -p \"$workspace\""@),
        text::shows(prepare_lines(workspace), "  created=1"@),
        text::shows(prepare_lines(workspace), "cd \"$workspace\""@),
        text::shows(
            prepare_lines(workspace),
            "printf '%s\\t%s\\t%s\\n' '__SYMPHONY_WORKSPACE__' \"$created\" \"$(pwd -P)\""@,
        ),
{
    let parts = Seq::empty().push("set -eu"@).push(assign_lines("workspace"@, workspace)).push(
        "if [ -d \"$workspace\" ]; then"@,
    ).push("  created=0"@).push("elif [ -e \"$workspace\" ]; then"@).push(
        "  rm -rf \"$workspace\""@,
    ).push("  mkdir -p \"$workspace\""@).push("  created=1"@).push("else"@).push(
        "  mkdir -p \"$workspace\""@,
    ).push("  created=1"@).push("fi"@).push("cd \"$workspace\""@).push(
        "printf '%s\\t%s\\t%s\\n' '__SYMPHONY_WORKSPACE__' \"$created\" \"$(pwd -P)\""@,
    );
    text::lemma_join_shows(parts, "\n"@, 0);
    text::lemma_join_shows(parts, "\n"@, 1);
    text::lemma_join_shows(parts, "\n"@, 2);
    text::lemma_join_shows(parts, "\n"@, 3);
    text::lemma_join_shows(parts, "\n"@, 4);
    text::lemma_join_shows(parts, "\n"@, 5);
    text::lemma_join_shows(parts, "\n"@, 6);
    text::lemma_join_shows(parts, "\n"@, 7);
    text::lemma_join_shows(parts, "\n"@, 12);
    text::lemma_join_shows(parts, "\n"@, 13);
}

proof fn lemma_first_tab(s: Seq<char>, i: int, k: int)
    requires
        0 <= i <= k <= s.len(),
        k < s.len() ==> s[k] == '\t',
        forall|j: int| i <= j < k ==> (#[trigger] s[j]) != '\t',
    ensures
        text::find_char(s, i, '\t') == k,
{
    text::lemma_find_char(s, i, '\t');
}

/// A workspace that is reported is read back: its path, and whether it is new.
pub proof fn lemma_report_is_read_back(at: Seq<char>, created_now: bool)
    requires
        at.len() > 0,
    ensures
        ({
            let flag = if created_now {
                seq!['1']
            } else {
                seq!['0']
            };
            let line = "__SYMPHONY_WORKSPACE__"@ + seq!['\t'] + flag + seq!['\t'] + at;
            &&& is_report(line)
            &&& reported_workspace(line) == Some(WorkspaceView { path: at, created_now })
        }),
{
    reveal_strlit("__SYMPHONY_WORKSPACE__");
    reveal_strlit("0");
    reveal_strlit("1");
    let marker = "__SYMPHONY_WORKSPACE__"@;
    let flag = if created_now {
        seq!['1']
    } else {
        seq!['0']
    };
    let line = marker + seq!['\t'] + flag + seq!['\t'] + at;
    assert(marker.len() == 22);
    assert("0"@ =~= seq!['0']);
    assert("1"@ =~= seq!['1']);
    assert(seq!['0'][0] != seq!['1'][0]);
    assert forall|j: int| 0 <= j < 22 implies (#[trigger] line[j]) != '\t' by {
        assert(line[j] == marker[j]);
    }
    assert(line[22] == '\t');
    lemma_first_tab(line, 0, 22);
    assert(line[23] == flag[0]);
    assert(line[24] == '\t');
    lemma_first_tab(line, 23, 24);
    assert(line.subrange(0, 22) =~= marker);
    assert(line.subrange(23, 24) =~= flag);
    assert(line.subrange(25, line.len() as int) =~= at);
}

proof fn lemma_first_report(lines: Seq<Seq<char>>, from: int, k: int)
    requires
        0 <= from <= k <= lines.len(),
        k < lines.len() ==> is_report(lines[k]),
        forall|i: int| from <= i < k ==> !is_report(#[trigger] lines[i]),
    ensures
        first_report(lines, from) == k,
    decreases k - from,
{
    if from < k {
        lemma_first_report(lines, from + 1, k);
    }
}

/// The workspace of an output is the one that its first report tells of; an output without a report,
/// or with one that cannot be read, is an error.
pub proof fn lemma_output_is_read(output: Seq<char>, k: int, workspace: WorkspaceView)
    requires
        0 <= k <= text::lines_of(output).len(),
        k < text::lines_of(output).len() ==> is_report(text::lines_of(output)[k]),
        forall|i: int| 0 <= i < k ==> !is_report(#[trigger] text::lines_of(output)[i]),
    ensures
        k < text::lines_of(output).len() && reported_workspace(text::lines_of(output)[k]) == Some(
            workspace,
        ) ==> workspace_from_output(output) == Ok::<WorkspaceView, ErrorView>(workspace),
        k < text::lines_of(output).len() && reported_workspace(text::lines_of(output)[k]) is None
            ==> workspace_from_output(output) == Err::<WorkspaceView, ErrorView>(
            ErrorView::Workspace("invalid remote workspace output: "@ + output),
        ),
        k == text::lines_of(output).len() ==> workspace_from_output(output) == Err::<
            WorkspaceView,
            ErrorView,
        >(ErrorView::Workspace("missing remote workspace marker in output: "@ + output)),
{
    lemma_first_report(text::lines_of(output), 0, k);
}

/// A remote path is accepted exactly if it has more than white space and neither a line break nor a
/// null character.
pub proof fn lemma_remote_path_is_clean(at: Seq<char>)
    ensures
        remote_path_fault(at) is None <==> text::trimmed(at).len() > 0 && forall|i: int|
            0 <= i < at.len() ==> (#[trigger] at[i]) != '\n' && at[i] != '\r' && at[i] != '\0',
        text::trimmed(at).len() == 0 ==> remote_path_fault(at) == Some(
            ErrorView::Workspace("remote workspace path must not be empty"@),
        ),
{
    text::lemma_trimmed_empty(at);
    assert forall|i: int| 0 <= i < at.len() implies breaks_path(#[trigger] at[i]) == (at[i] == '\n'
        || at[i] == '\r' || at[i] == '\0') by {}
}

/// The workspaces lie in the configured directory if it has more than white space, and else below the
/// directory for temporary files.
pub proof fn lemma_root_is_the_configured_one(root: Seq<char>, temp_dir: Seq<char>)
    ensures
        text::trimmed(root).len() > 0 ==> workspace_root(Some(root), temp_dir) == root,
        text::trimmed(root).len() == 0 ==> workspace_root(Some(root), temp_dir) == path::below(
            temp_dir,
            "symphony_workspaces"@,
        ),
        workspace_root(None, temp_dir) == path::below(temp_dir, "symphony_workspaces"@),
{
    text::lemma_trimmed_empty(root);
}

/// Only something that is no directory, and a path that cannot be looked at, are faults.
pub proof fn lemma_faults_of_a_path(at: Seq<char>, source: String)
    ensures
        path_fault(at, PathState::Directory) is None,
        path_fault(at, PathState::Missing) is None,
        path_fault(at, PathState::NotADirectory) == Some(
            ErrorView::Workspace("workspace path is not a directory: "@ + at),
        ),
        path_fault(at, PathState::Failed(source)) == Some(
            ErrorView::Workspace("inspect workspace"@ + " failed for "@ + at + ": "@ + source@),
        ),
{
}

/// A path that exists in part leads through the names of that part and then through the missing ones.
pub proof fn lemma_missing_names_are_kept(
    canonical: Seq<char>,
    names: Seq<Seq<char>>,
    existing: int,
)
    requires
        canonical.len() > 0,
        canonical[0] == '/',
        0 <= existing <= names.len(),
        forall|i: int| 0 <= i < names.len() ==> path::is_name(#[trigger] names[i]),
    ensures
        path::names(resolved_path(canonical, names, existing)) == path::names(canonical)
            + names.subrange(existing, names.len() as int),
        path::is_absolute(resolved_path(canonical, names, existing)),
        path::inside(resolved_path(canonical, names, existing), canonical),
{
    let rest = names.subrange(existing, names.len() as int);
    let all = path::names(canonical) + rest;
    path::lemma_names_are_names(canonical);
    assert forall|p: int| 0 <= p < all.len() implies path::is_name(#[trigger] all[p]) by {
        if p < path::names(canonical).len() {
            assert(all[p] == path::names(canonical)[p]);
        } else {
            assert(all[p] == names[existing + p - path::names(canonical).len()]);
        }
    }
    path::lemma_path_leads_through(true, all);
    path::lemma_inside_goes_on(resolved_path(canonical, names, existing), canonical, rest);
}

/// What is said of a workspace that leads out names it, where it leads and the root.
pub proof fn lemma_escape_is_explained(at: Seq<char>, canonical: Seq<char>, root: Seq<char>)
    ensures
        symlink_escape(at, canonical, root) == ErrorView::Workspace(
            "symlink escape detected: "@ + at + " resolves to "@ + canonical
                + " which is outside workspace root "@ + root,
        ),
        outside_root(at) == ErrorView::Workspace("path outside workspace root: "@ + at),
{
}

/// The model of a workspace has its path, and whether it is new.
pub proof fn lemma_workspace_is_modelled(info: WorkspaceInfo)
    ensures
        info@.path == info.path@,
        info@.created_now == info.created_now,
{
}

} // verus!
