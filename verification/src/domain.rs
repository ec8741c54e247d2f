//! The records that the tracker, the orchestrator and the agent exchange.

use vstd::prelude::*;

use crate::text;
use crate::time;
use crate::time::Timestamp;
use crate::yaml::Yaml;

verus! {

/// An issue of the tracker.
#[derive(Debug)]
pub struct Issue {
    pub id: String,
    pub identifier: String,
    pub title: String,
    pub description: Option<String>,
    pub priority: Option<i32>,
    pub state: String,
    pub branch_name: Option<String>,
    pub url: Option<String>,
    pub labels: Vec<String>,
    pub blocked_by: Vec<BlockerRef>,
    pub created_at: Option<String>,
    pub updated_at: Option<String>,
}

/// The model of an issue.
#[verifier::ext_equal]
pub struct IssueView {
    pub id: Seq<char>,
    pub identifier: Seq<char>,
    pub title: Seq<char>,
    pub description: Option<Seq<char>>,
    pub priority: Option<i32>,
    pub state: Seq<char>,
    pub branch_name: Option<Seq<char>>,
    pub url: Option<Seq<char>>,
    pub labels: Seq<Seq<char>>,
    pub blocked_by: Seq<BlockerView>,
    pub created_at: Option<Seq<char>>,
    pub updated_at: Option<Seq<char>>,
}

/// An issue that blocks another one.
#[derive(Debug)]
pub struct BlockerRef {
    pub id: String,
    pub identifier: String,
    pub state: String,
}

/// The model of a blocking issue.
#[verifier::ext_equal]
pub struct BlockerView {
    pub id: Seq<char>,
    pub identifier: Seq<char>,
    pub state: Seq<char>,
}

impl View for BlockerRef {
    type V = BlockerView;

    open spec fn view(&self) -> BlockerView {
        BlockerView { id: self.id@, identifier: self.identifier@, state: self.state@ }
    }
}

/// The models of a sequence of blocking issues.
pub open spec fn blockers(items: Seq<BlockerRef>) -> Seq<BlockerView> {
    Seq::new(items.len(), |i: int| items[i]@)
}

impl View for Issue {
    type V = IssueView;

    open spec fn view(&self) -> IssueView {
        IssueView {
            id: self.id@,
            identifier: self.identifier@,
            title: self.title@,
            description: text::opt_text(self.description),
            priority: self.priority,
            state: self.state@,
            branch_name: text::opt_text(self.branch_name),
            url: text::opt_text(self.url),
            labels: text::texts(self.labels@),
            blocked_by: blockers(self.blocked_by@),
            created_at: text::opt_text(self.created_at),
            updated_at: text::opt_text(self.updated_at),
        }
    }
}

/// The models of a sequence of issues.
pub open spec fn issues(items: Seq<Issue>) -> Seq<IssueView> {
    Seq::new(items.len(), |i: int| items[i]@)
}

impl Clone for BlockerRef {
    fn clone(&self) -> (r: Self)
        ensures
            r@ == self@,
    {
        BlockerRef {
            id: self.id.clone(),
            identifier: self.identifier.clone(),
            state: self.state.clone(),
        }
    }
}

impl Clone for Issue {
    fn clone(&self) -> (r: Self)
        ensures
            r@ == self@,
    {
        let mut blocked_by: Vec<BlockerRef> = Vec::new();
        let mut i: usize = 0;
        while i < self.blocked_by.len()
            invariant
                i <= self.blocked_by@.len(),
                blocked_by@.len() == i,
                forall|k: int|
                    0 <= k < i ==> (#[trigger] blocked_by@[k])@ == self.blocked_by@[k]@,
            decreases self.blocked_by@.len() - i,
        {
            blocked_by.push(self.blocked_by[i].clone());
            i = i + 1;
        }
        proof {
            assert(blockers(blocked_by@) =~= blockers(self.blocked_by@));
        }
        Issue {
            id: self.id.clone(),
            identifier: self.identifier.clone(),
            title: self.title.clone(),
            description: text::clone_opt(&self.description),
            priority: self.priority,
            state: self.state.clone(),
            branch_name: text::clone_opt(&self.branch_name),
            url: text::clone_opt(&self.url),
            labels: text::clone_texts(&self.labels),
            blocked_by,
            created_at: text::clone_opt(&self.created_at),
            updated_at: text::clone_opt(&self.updated_at),
        }
    }
}

/// The characters that a workspace directory name keeps.
pub open spec fn is_key_char(c: char) -> bool {
    'A' <= c <= 'Z' || 'a' <= c <= 'z' || '0' <= c <= '9' || c == '.' || c == '_' || c == '-'
}

/// The workspace directory name of an issue identifier: every other character becomes `_`.
pub open spec fn workspace_key(identifier: Seq<char>) -> Seq<char> {
    Seq::new(
        identifier.len(),
        |i: int|
            if is_key_char(identifier[i]) {
                identifier[i]
            } else {
                '_'
            },
    )
}

/// The workspace directory name of an issue identifier.
pub fn sanitize_workspace_key(identifier: &str) -> (r: String)
    ensures
        r@ == workspace_key(identifier@),
{
    let chars = text::to_chars(identifier);
    let mut out: String = String::new();
    let mut i: usize = 0;
    while i < chars.len()
        invariant
            chars@ == identifier@,
            i <= chars@.len(),
            out@ == workspace_key(identifier@).take(i as int),
        decreases chars@.len() - i,
    {
        let c: char = chars[i];
        let keep = ('A' <= c && c <= 'Z') || ('a' <= c && c <= 'z') || ('0' <= c && c <= '9') || c
            == '.' || c == '_' || c == '-';
        out.push(
            if keep {
                c
            } else {
                '_'
            },
        );
        proof {
            let k = workspace_key(identifier@);
            assert(k.take(i + 1) =~= k.take(i as int).push(k[i as int]));
        }
        i = i + 1;
    }
    proof {
        let k = workspace_key(identifier@);
        assert(k.take(k.len() as int) =~= k);
    }
    out
}

/// A workspace directory name holds only letters, digits, dots, underscores and dashes, and has
/// one character for each of the identifier.
pub proof fn lemma_workspace_key_alphabet(identifier: Seq<char>)
    ensures
        workspace_key(identifier).len() == identifier.len(),
        forall|i: int|
            0 <= i < workspace_key(identifier).len() ==> is_key_char(
                #[trigger] workspace_key(identifier)[i],
            ),
{
}

/// A workspace directory name is its own workspace directory name.
pub proof fn lemma_workspace_key_idempotent(identifier: Seq<char>)
    ensures
        workspace_key(workspace_key(identifier)) == workspace_key(identifier),
{
    assert(workspace_key(workspace_key(identifier)) =~= workspace_key(identifier));
}

/// A workflow: its configuration and its prompt template.
#[derive(Debug)]
pub struct WorkflowDefinition {
    pub config: Yaml,
    pub prompt_template: String,
}

/// One attempt at an issue.
#[derive(Debug)]
pub struct RunAttempt {
    pub attempt_number: u32,
    pub started_at: Timestamp,
    pub ended_at: Option<Timestamp>,
    pub outcome: Option<RunOutcome>,
    pub session_id: Option<String>,
    pub tokens: TokenUsage,
}

/// How a turn ended.
#[derive(Debug)]
pub enum RunOutcome {
    Success,
    Failure(String),
    Timeout,
    Terminated,
}

/// The model of how a turn ended.
pub enum OutcomeView {
    Success,
    Failure(Seq<char>),
    Timeout,
    Terminated,
}

impl View for RunOutcome {
    type V = OutcomeView;

    open spec fn view(&self) -> OutcomeView {
        match self {
            RunOutcome::Success => OutcomeView::Success,
            RunOutcome::Failure(reason) => OutcomeView::Failure(reason@),
            RunOutcome::Timeout => OutcomeView::Timeout,
            RunOutcome::Terminated => OutcomeView::Terminated,
        }
    }
}

impl Clone for RunOutcome {
    fn clone(&self) -> (r: Self)
        ensures
            r@ == self@,
    {
        match self {
            RunOutcome::Success => RunOutcome::Success,
            RunOutcome::Failure(reason) => RunOutcome::Failure(reason.clone()),
            RunOutcome::Timeout => RunOutcome::Timeout,
            RunOutcome::Terminated => RunOutcome::Terminated,
        }
    }
}

/// Tokens spent.
#[derive(Debug, Clone, Copy, PartialEq, Eq)]
pub struct TokenUsage {
    pub input_tokens: u64,
    pub output_tokens: u64,
    pub total_tokens: u64,
}

/// A running agent session.
#[derive(Debug)]
pub struct LiveSession {
    pub session_id: String,
    pub issue_id: String,
    pub issue_identifier: String,
    pub issue_state: String,
    pub worker_host: Option<String>,
    pub workspace_path: String,
    pub started_at: Timestamp,
    pub turn_count: u32,
    pub last_codex_timestamp: Option<Timestamp>,
    pub tokens: TokenUsage,
}

/// The model of a running agent session.
#[verifier::ext_equal]
pub struct SessionView {
    pub session_id: Seq<char>,
    pub issue_id: Seq<char>,
    pub issue_identifier: Seq<char>,
    pub issue_state: Seq<char>,
    pub worker_host: Option<Seq<char>>,
    pub workspace_path: Seq<char>,
    pub started_at: int,
    pub turn_count: u32,
    pub last_codex_timestamp: Option<int>,
    pub tokens: TokenUsage,
}

impl View for LiveSession {
    type V = SessionView;

    open spec fn view(&self) -> SessionView {
        SessionView {
            session_id: self.session_id@,
            issue_id: self.issue_id@,
            issue_identifier: self.issue_identifier@,
            issue_state: self.issue_state@,
            worker_host: text::opt_text(self.worker_host),
            workspace_path: self.workspace_path@,
            started_at: self.started_at@,
            turn_count: self.turn_count,
            last_codex_timestamp: time::opt_time(self.last_codex_timestamp),
            tokens: self.tokens,
        }
    }
}

impl Clone for LiveSession {
    fn clone(&self) -> (r: Self)
        ensures
            r@ == self@,
    {
        LiveSession {
            session_id: self.session_id.clone(),
            issue_id: self.issue_id.clone(),
            issue_identifier: self.issue_identifier.clone(),
            issue_state: self.issue_state.clone(),
            worker_host: text::clone_opt(&self.worker_host),
            workspace_path: self.workspace_path.clone(),
            started_at: self.started_at,
            turn_count: self.turn_count,
            last_codex_timestamp: self.last_codex_timestamp,
            tokens: self.tokens,
        }
    }
}

/// A retry that waits for its time.
#[derive(Debug)]
pub struct RetryEntry {
    pub issue_id: String,
    pub issue_identifier: String,
    pub attempt: u32,
    pub scheduled_at: Timestamp,
    pub reason: Option<String>,
    pub worker_host: Option<String>,
}

/// The model of a waiting retry.
#[verifier::ext_equal]
pub struct RetryView {
    pub issue_id: Seq<char>,
    pub issue_identifier: Seq<char>,
    pub attempt: u32,
    pub scheduled_at: int,
    pub reason: Option<Seq<char>>,
    pub worker_host: Option<Seq<char>>,
}

impl View for RetryEntry {
    type V = RetryView;

    open spec fn view(&self) -> RetryView {
        RetryView {
            issue_id: self.issue_id@,
            issue_identifier: self.issue_identifier@,
            attempt: self.attempt,
            scheduled_at: self.scheduled_at@,
            reason: text::opt_text(self.reason),
            worker_host: text::opt_text(self.worker_host),
        }
    }
}

impl Clone for RetryEntry {
    fn clone(&self) -> (r: Self)
        ensures
            r@ == self@,
    {
        RetryEntry {
            issue_id: self.issue_id.clone(),
            issue_identifier: self.issue_identifier.clone(),
            attempt: self.attempt,
            scheduled_at: self.scheduled_at,
            reason: text::clone_opt(&self.reason),
            worker_host: text::clone_opt(&self.worker_host),
        }
    }
}

/// The model of an issue has what the issue has, field by field.
pub proof fn lemma_issue_is_modelled(issue: Issue, k: int)
    ensures
        issue@.id == issue.id@,
        issue@.identifier == issue.identifier@,
        issue@.title == issue.title@,
        issue.description is Some ==> issue@.description == Some(issue.description->0@),
        issue.description is None ==> issue@.description is None,
        issue@.priority == issue.priority,
        issue@.state == issue.state@,
        issue.branch_name is Some ==> issue@.branch_name == Some(issue.branch_name->0@),
        issue.branch_name is None ==> issue@.branch_name is None,
        issue.url is Some ==> issue@.url == Some(issue.url->0@),
        issue.url is None ==> issue@.url is None,
        issue@.labels.len() == issue.labels@.len(),
        0 <= k < issue.labels@.len() ==> issue@.labels[k] == issue.labels@[k]@,
        issue@.blocked_by.len() == issue.blocked_by@.len(),
        0 <= k < issue.blocked_by@.len() ==> issue@.blocked_by[k].id == issue.blocked_by@[k].id@
            && issue@.blocked_by[k].identifier == issue.blocked_by@[k].identifier@
            && issue@.blocked_by[k].state == issue.blocked_by@[k].state@,
        issue.created_at is Some ==> issue@.created_at == Some(issue.created_at->0@),
        issue.created_at is None ==> issue@.created_at is None,
        issue.updated_at is Some ==> issue@.updated_at == Some(issue.updated_at->0@),
        issue.updated_at is None ==> issue@.updated_at is None,
{
}

/// The model of a session has what the session has, field by field.
pub proof fn lemma_session_is_modelled(session: LiveSession)
    ensures
        session@.session_id == session.session_id@,
        session@.issue_id == session.issue_id@,
        session@.issue_identifier == session.issue_identifier@,
        session@.issue_state == session.issue_state@,
        session.worker_host is Some ==> session@.worker_host == Some(session.worker_host->0@),
        session.worker_host is None ==> session@.worker_host is None,
        session@.workspace_path == session.workspace_path@,
        session@.started_at == session.started_at@,
        session@.turn_count == session.turn_count,
        session.last_codex_timestamp is Some ==> session@.last_codex_timestamp == Some(
            session.last_codex_timestamp->0@,
        ),
        session.last_codex_timestamp is None ==> session@.last_codex_timestamp is None,
        session@.tokens == session.tokens,
{
}

/// The model of a waiting retry has what the retry has, field by field.
pub proof fn lemma_retry_is_modelled(entry: RetryEntry)
    ensures
        entry@.issue_id == entry.issue_id@,
        entry@.issue_identifier == entry.issue_identifier@,
        entry@.attempt == entry.attempt,
        entry@.scheduled_at == entry.scheduled_at@,
        entry.reason is Some ==> entry@.reason == Some(entry.reason->0@),
        entry.reason is None ==> entry@.reason is None,
        entry.worker_host is Some ==> entry@.worker_host == Some(entry.worker_host->0@),
        entry.worker_host is None ==> entry@.worker_host is None,
{
}

/// Lists are modelled item by item.
pub proof fn lemma_lists_are_modelled(issue_list: Seq<Issue>, blocker_list: Seq<BlockerRef>, k: int)
    ensures
        issues(issue_list).len() == issue_list.len(),
        0 <= k < issue_list.len() ==> issues(issue_list)[k] == issue_list[k]@,
        blockers(blocker_list).len() == blocker_list.len(),
        0 <= k < blocker_list.len() ==> blockers(blocker_list)[k].id == blocker_list[k].id@
            && blockers(blocker_list)[k].identifier == blocker_list[k].identifier@ && blockers(
            blocker_list,
        )[k].state == blocker_list[k].state@,
{
}

/// The name of a workspace keeps letters, digits, dots, underscores and hyphens where they are, and
/// has an underscore in the place of every other character.
pub proof fn lemma_workspace_key_by_character(identifier: Seq<char>, i: int)
    requires
        0 <= i < identifier.len(),
    ensures
        workspace_key(identifier).len() == identifier.len(),
        ({
            let c = identifier[i];
            let kept = 'A' <= c <= 'Z' || 'a' <= c <= 'z' || '0' <= c <= '9' || c == '.' || c == '_'
                || c == '-';
            &&& kept ==> workspace_key(identifier)[i] == c
            &&& !kept ==> workspace_key(identifier)[i] == '_'
        }),
{
}

/// The model of how a turn ended is of the same kind.
pub proof fn lemma_outcome_is_modelled(outcome: RunOutcome)
    ensures
        outcome is Success ==> outcome@ is Success,
        outcome is Failure ==> outcome@ == OutcomeView::Failure(outcome->Failure_0@),
        outcome is Timeout ==> outcome@ is Timeout,
        outcome is Terminated ==> outcome@ is Terminated,
{
}

} // verus!
