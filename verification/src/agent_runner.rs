//! One worker: it prepares a workspace, talks to the coding agent turn by turn, and cleans up.

use vstd::prelude::*;
use vstd::string::*;

use crate::codex::app_server;
use crate::codex::app_server::{SessionTokens, TurnResult};
use crate::config::CodexConfig;
use crate::domain::{BlockerRef, OutcomeView, RunOutcome, TokenUsage};
use crate::error;
use crate::error::SymphonyError;
use crate::json;
use crate::json::{Json, JsonView};
use crate::text;
use crate::time::Timestamp;
use crate::workspace::HookPhase;

verus! {

/// What a worker reports while it runs.
#[derive(Debug)]
pub enum WorkerUpdate {
    CodexUpdate {
        issue_id: String,
        tokens: TokenUsage,
        rate_limit: Option<Json>,
        timestamp: Timestamp,
    },
    SessionStarted { issue_id: String, session_id: String },
    TurnCompleted { issue_id: String, turn_number: u32, outcome: RunOutcome },
}

/// The model of what a worker reports.
pub enum UpdateView {
    CodexUpdate {
        issue_id: Seq<char>,
        tokens: TokenUsage,
        rate_limit: Option<JsonView>,
        timestamp: int,
    },
    SessionStarted { issue_id: Seq<char>, session_id: Seq<char> },
    TurnCompleted { issue_id: Seq<char>, turn_number: u32, outcome: OutcomeView },
}

impl View for WorkerUpdate {
    type V = UpdateView;

    open spec fn view(&self) -> UpdateView {
        match self {
            WorkerUpdate::CodexUpdate { issue_id, tokens, rate_limit, timestamp } =>
                UpdateView::CodexUpdate {
                issue_id: issue_id@,
                tokens: *tokens,
                rate_limit: json::opt_json(*rate_limit),
                timestamp: timestamp@,
            },
            WorkerUpdate::SessionStarted { issue_id, session_id } => UpdateView::SessionStarted {
                issue_id: issue_id@,
                session_id: session_id@,
            },
            WorkerUpdate::TurnCompleted { issue_id, turn_number, outcome } =>
                UpdateView::TurnCompleted {
                issue_id: issue_id@,
                turn_number: *turn_number,
                outcome: outcome@,
            },
        }
    }
}

/// The models of a list of reports.
pub open spec fn updates_view(updates: Seq<WorkerUpdate>) -> Seq<UpdateView> {
    Seq::new(updates.len(), |i: int| updates[i]@)
}

/// How a worker ended.
#[derive(Debug)]
pub enum WorkerOutcome {
    Normal,
    Failure(String),
}

/// The model of how a worker ended.
pub enum WorkerOutcomeView {
    Normal,
    Failure(Seq<char>),
}

impl View for WorkerOutcome {
    type V = WorkerOutcomeView;

    open spec fn view(&self) -> WorkerOutcomeView {
        match self {
            WorkerOutcome::Normal => WorkerOutcomeView::Normal,
            WorkerOutcome::Failure(reason) => WorkerOutcomeView::Failure(reason@),
        }
    }
}

impl Clone for WorkerOutcome {
    fn clone(&self) -> (r: Self)
        ensures
            r@ == self@,
    {
        match self {
            WorkerOutcome::Normal => WorkerOutcome::Normal,
            WorkerOutcome::Failure(reason) => WorkerOutcome::Failure(reason.clone()),
        }
    }
}

/// How a worker ended and what it used.
#[derive(Debug)]
pub struct WorkerResult {
    pub issue_id: String,
    pub issue_identifier: String,
    pub outcome: WorkerOutcome,
    pub total_tokens: TokenUsage,
}

/// The model of a worker's result.
#[verifier::ext_equal]
pub struct ResultView {
    pub issue_id: Seq<char>,
    pub issue_identifier: Seq<char>,
    pub outcome: WorkerOutcomeView,
    pub total_tokens: TokenUsage,
}

impl View for WorkerResult {
    type V = ResultView;

    open spec fn view(&self) -> ResultView {
        ResultView {
            issue_id: self.issue_id@,
            issue_identifier: self.issue_identifier@,
            outcome: self.outcome@,
            total_tokens: self.total_tokens,
        }
    }
}

/// What is left of a count after another one is taken away; nothing where it is larger.
pub open spec fn less(a: u64, b: u64) -> u64 {
    if a > b {
        (a - b) as u64
    } else {
        0
    }
}

/// The tokens used between two reports.
pub open spec fn tokens_between(previous: SessionTokens, current: SessionTokens) -> TokenUsage {
    TokenUsage {
        input_tokens: less(current.input_tokens, previous.input_tokens),
        output_tokens: less(current.output_tokens, previous.output_tokens),
        total_tokens: less(current.total_tokens, previous.total_tokens),
    }
}

/// The tokens of a report.
pub open spec fn usage_of(tokens: SessionTokens) -> TokenUsage {
    TokenUsage {
        input_tokens: tokens.input_tokens,
        output_tokens: tokens.output_tokens,
        total_tokens: tokens.total_tokens,
    }
}

/// No tokens.
pub open spec fn no_tokens() -> TokenUsage {
    TokenUsage { input_tokens: 0, output_tokens: 0, total_tokens: 0 }
}

fn reduced(a: u64, b: u64) -> (r: u64)
    ensures
        r == less(a, b),
{
    if a > b {
        a - b
    } else {
        0
    }
}

/// The tokens used between two reports.
pub fn diff_tokens(previous: &SessionTokens, current: &SessionTokens) -> (r: TokenUsage)
    ensures
        r == tokens_between(*previous, *current),
{
    TokenUsage {
        input_tokens: reduced(current.input_tokens, previous.input_tokens),
        output_tokens: reduced(current.output_tokens, previous.output_tokens),
        total_tokens: reduced(current.total_tokens, previous.total_tokens),
    }
}

/// The tokens of a report.
pub fn session_tokens_to_usage(tokens: &SessionTokens) -> (r: TokenUsage)
    ensures
        r == usage_of(*tokens),
{
    TokenUsage {
        input_tokens: tokens.input_tokens,
        output_tokens: tokens.output_tokens,
        total_tokens: tokens.total_tokens,
    }
}

/// No tokens.
pub fn zero_token_usage() -> (r: TokenUsage)
    ensures
        r == no_tokens(),
{
    TokenUsage { input_tokens: 0, output_tokens: 0, total_tokens: 0 }
}

/// The command that starts the coding agent.
pub fn codex_command(config: &CodexConfig) -> (r: String)
    ensures
        r@ == match text::filled(text::opt_text(config.command)) {
            Some(command) => command,
            None => "codex app-server"@,
        },
{
    match text::filled_value(&config.command) {
        Some(command) => command.to_owned(),
        None => "codex app-server".to_owned(),
    }
}

/// The policy that a configured one stands for: none, a blank text and `auto` stand for the
/// default.
pub open spec fn effective_policy(policy: Option<JsonView>) -> JsonView {
    match policy {
        None => app_server::default_policy(),
        Some(value) => match value {
            JsonView::Text(name) => if text::blank(name) || text::trimmed(name) == "auto"@ {
                app_server::default_policy()
            } else {
                value
            },
            _ => value,
        },
    }
}

/// The policy that a configured one stands for.
pub fn codex_approval_policy(approval_policy: &Option<Json>) -> (r: Json)
    ensures
        r@ == effective_policy(json::opt_json(*approval_policy)),
{
    match approval_policy {
        None => app_server::default_approval_policy(),
        Some(value) => {
            if let Json::Text(name) = value {
                if text::is_blank(name.as_str()) || text::same(text::trim(name.as_str()), "auto") {
                    return app_server::default_approval_policy();
                }
            }
            value.clone()
        },
    }
}

/// The sandbox that threads run in: `thread_sandbox`, else `sandbox`, else `workspace-write`.
pub open spec fn thread_sandbox(config: CodexConfig) -> Seq<char> {
    match text::filled(text::opt_text(config.thread_sandbox)) {
        Some(sandbox) => sandbox,
        None => match text::filled(text::opt_text(config.sandbox)) {
            Some(sandbox) => sandbox,
            None => "workspace-write"@,
        },
    }
}

/// The sandbox that threads run in.
pub fn codex_thread_sandbox(config: &CodexConfig) -> (r: String)
    ensures
        r@ == thread_sandbox(*config),
{
    if let Some(sandbox) = text::filled_value(&config.thread_sandbox) {
        return sandbox.to_owned();
    }
    match text::filled_value(&config.sandbox) {
        Some(sandbox) => sandbox.to_owned(),
        None => "workspace-write".to_owned(),
    }
}

/// The sandbox policy of turns where none is configured: under `workspace-write` the workspace may
/// be written, any other sandbox goes by its name.
pub open spec fn generated_sandbox_policy(config: CodexConfig, workspace_cwd: Seq<char>) -> JsonView {
    if thread_sandbox(config) == "workspace-write"@ {
        JsonView::Object(
            Seq::empty().push(("type"@, JsonView::Text("workspaceWrite"@))).push(
                ("writableRoots"@, JsonView::Array(seq![JsonView::Text(workspace_cwd)])),
            ).push(
                (
                    "readOnlyAccess"@,
                    JsonView::Object(seq![("type"@, JsonView::Text("fullAccess"@))]),
                ),
            ).push(("networkAccess"@, JsonView::Bool(false))).push(
                ("excludeTmpdirEnvVar"@, JsonView::Bool(false)),
            ).push(("excludeSlashTmp"@, JsonView::Bool(false))),
        )
    } else {
        JsonView::Text(thread_sandbox(config))
    }
}

/// The sandbox policy of turns where none is configured.
pub fn generate_turn_sandbox_policy(config: &CodexConfig, workspace_cwd: &str) -> (r: Json)
    ensures
        r@ == generated_sandbox_policy(*config, workspace_cwd@),
{
    let sandbox = codex_thread_sandbox(config);
    if !text::same(sandbox.as_str(), "workspace-write") {
        return Json::Text(sandbox);
    }
    let access = json::and_member(json::no_members(), "type", json::text_value("fullAccess"));
    let members = json::and_member(json::no_members(), "type", json::text_value("workspaceWrite"));
    let members = json::and_member(
        members,
        "writableRoots",
        json::array_of_one(json::text_value(workspace_cwd)),
    );
    let members = json::and_member(members, "readOnlyAccess", json::object(access));
    let members = json::and_member(members, "networkAccess", Json::Bool(false));
    let members = json::and_member(members, "excludeTmpdirEnvVar", Json::Bool(false));
    let members = json::and_member(members, "excludeSlashTmp", Json::Bool(false));
    json::object(members)
}

/// The sandbox policy of turns: the configured one, else the generated one.
pub fn codex_turn_sandbox_policy(config: &CodexConfig, workspace_cwd: &str) -> (r: Json)
    ensures
        r@ == match config.turn_sandbox_policy {
            Some(policy) => policy@,
            None => generated_sandbox_policy(*config, workspace_cwd@),
        },
{
    match &config.turn_sandbox_policy {
        Some(policy) => policy.clone(),
        None => generate_turn_sandbox_policy(config, workspace_cwd),
    }
}

/// What a worker is doing.
#[derive(Debug, Clone, Copy, PartialEq, Eq)]
pub enum WorkerPhase {
    Workspace,
    AfterCreate,
    BeforeRun,
    Prompt,
    Launch,
    Handshake,
    Thread,
    TurnStart,
    Turn,
    IssueCheck,
    Shutdown,
    AfterRun,
    Finished,
}

/// What came of what a worker was doing.
#[derive(Debug)]
pub enum WorkerEvent {
    Done,
    Failed(SymphonyError),
    Prompt(String),
    Session(String),
    Thread(String),
    TurnFinished { result: TurnResult, now: Timestamp },
    IssueChecked(Option<Vec<BlockerRef>>),
}

/// One worker.
#[derive(Debug)]
pub struct Worker {
    pub issue_id: String,
    pub issue_identifier: String,
    pub max_turns: u32,
    pub active_states: Vec<String>,
    pub phase: WorkerPhase,
    pub has_workspace: bool,
    pub launched: bool,
    pub session_id: String,
    pub thread_id: String,
    pub prompt: String,
    pub turn_number: u32,
    pub previous: SessionTokens,
    pub total_tokens: TokenUsage,
    pub outcome: WorkerOutcome,
}

/// The model of a worker.
#[verifier::ext_equal]
pub struct WorkerView {
    pub issue_id: Seq<char>,
    pub issue_identifier: Seq<char>,
    pub max_turns: u32,
    pub active_states: Seq<Seq<char>>,
    pub phase: WorkerPhase,
    pub has_workspace: bool,
    pub launched: bool,
    pub session_id: Seq<char>,
    pub thread_id: Seq<char>,
    pub prompt: Seq<char>,
    pub turn_number: u32,
    pub previous: SessionTokens,
    pub total_tokens: TokenUsage,
    pub outcome: WorkerOutcomeView,
}

impl View for Worker {
    type V = WorkerView;

    open spec fn view(&self) -> WorkerView {
        WorkerView {
            issue_id: self.issue_id@,
            issue_identifier: self.issue_identifier@,
            max_turns: self.max_turns,
            active_states: text::texts(self.active_states@),
            phase: self.phase,
            has_workspace: self.has_workspace,
            launched: self.launched,
            session_id: self.session_id@,
            thread_id: self.thread_id@,
            prompt: self.prompt@,
            turn_number: self.turn_number,
            previous: self.previous,
            total_tokens: self.total_tokens,
            outcome: self.outcome@,
        }
    }
}

/// Whether an issue is still worked on, given what asking for its state gave: where the question
/// failed it is, and where the issue is gone it is not.
pub open spec fn still_active(
    refreshed: Option<Vec<BlockerRef>>,
    active_states: Seq<Seq<char>>,
) -> bool {
    match refreshed {
        Some(found) => found@.len() > 0 && text::state_listed(found@[0].state@, active_states),
        None => true,
    }
}

/// Tells whether an issue is still worked on, given what asking for its state gave; nothing where
/// the question failed.
pub fn issue_is_active(refreshed: &Option<Vec<BlockerRef>>, active_states: &[String]) -> (r:
    bool)
    ensures
        r == still_active(*refreshed, text::texts(active_states@)),
{
    match refreshed {
        Some(found) => found.len() > 0 && text::state_matches(
            found[0].state.as_str(),
            active_states,
        ),
        None => true,
    }
}

impl WorkerView {
    /// The worker stops: the agent is shut down where it was started, and the workspace's last
    /// script runs where there is a workspace.
    pub open spec fn wind_down(self, outcome: WorkerOutcomeView) -> WorkerView {
        WorkerView {
            phase: if self.launched {
                WorkerPhase::Shutdown
            } else if self.has_workspace {
                WorkerPhase::AfterRun
            } else {
                WorkerPhase::Finished
            },
            outcome,
            ..self
        }
    }

    /// The worker after a turn.
    pub open spec fn after_turn(self, result: TurnResult) -> WorkerView {
        let counted = WorkerView {
            previous: result.tokens,
            total_tokens: usage_of(result.tokens),
            ..self
        };
        if result.outcome@ != OutcomeView::Success || self.turn_number >= self.max_turns {
            counted.wind_down(WorkerOutcomeView::Normal)
        } else {
            WorkerView { phase: WorkerPhase::IssueCheck, ..counted }
        }
    }

    /// The worker has stopped working and only cleans up.
    pub open spec fn winding_down(self) -> bool {
        self.phase == WorkerPhase::Shutdown || self.phase == WorkerPhase::AfterRun || self.phase
            == WorkerPhase::Finished
    }

    /// The worker after an event. A failure stops it; an event that does not belong to what it is
    /// doing changes nothing.
    pub open spec fn after(self, event: WorkerEvent) -> WorkerView {
        if self.winding_down() {
            match self.phase {
                WorkerPhase::Shutdown => WorkerView {
                    phase: if self.has_workspace {
                        WorkerPhase::AfterRun
                    } else {
                        WorkerPhase::Finished
                    },
                    ..self
                },
                _ => WorkerView { phase: WorkerPhase::Finished, ..self },
            }
        } else {
            match event {
                WorkerEvent::Failed(reason) => self.wind_down(
                    WorkerOutcomeView::Failure(error::error_text(reason@)),
                ),
                WorkerEvent::Done => match self.phase {
                    WorkerPhase::Workspace => WorkerView {
                        phase: WorkerPhase::AfterCreate,
                        has_workspace: true,
                        ..self
                    },
                    WorkerPhase::AfterCreate => WorkerView { phase: WorkerPhase::BeforeRun, ..self },
                    WorkerPhase::BeforeRun => WorkerView { phase: WorkerPhase::Prompt, ..self },
                    WorkerPhase::Launch => WorkerView {
                        phase: WorkerPhase::Handshake,
                        launched: true,
                        ..self
                    },
                    WorkerPhase::TurnStart => WorkerView { phase: WorkerPhase::Turn, ..self },
                    _ => self,
                },
                WorkerEvent::Prompt(prompt) => if self.phase == WorkerPhase::Prompt {
                    WorkerView {
                        phase: if self.launched {
                            WorkerPhase::TurnStart
                        } else {
                            WorkerPhase::Launch
                        },
                        prompt: prompt@,
                        ..self
                    }
                } else {
                    self
                },
                WorkerEvent::Session(id) => if self.phase == WorkerPhase::Handshake {
                    WorkerView { phase: WorkerPhase::Thread, session_id: id@, ..self }
                } else {
                    self
                },
                WorkerEvent::Thread(id) => if self.phase == WorkerPhase::Thread {
                    let started = WorkerView { thread_id: id@, ..self };
                    if self.max_turns == 0 {
                        started.wind_down(WorkerOutcomeView::Normal)
                    } else {
                        WorkerView { phase: WorkerPhase::TurnStart, ..started }
                    }
                } else {
                    self
                },
                WorkerEvent::TurnFinished { result, now: _ } => if self.phase == WorkerPhase::Turn {
                    self.after_turn(result)
                } else {
                    self
                },
                WorkerEvent::IssueChecked(refreshed) => if self.phase == WorkerPhase::IssueCheck {
                    if still_active(refreshed, self.active_states) && self.turn_number
                        < self.max_turns {
                        WorkerView {
                            phase: WorkerPhase::Prompt,
                            turn_number: (self.turn_number + 1) as u32,
                            ..self
                        }
                    } else {
                        self.wind_down(WorkerOutcomeView::Normal)
                    }
                } else {
                    self
                },
            }
        }
    }

    /// What the worker reports at an event.
    pub open spec fn reports(self, event: WorkerEvent) -> Seq<UpdateView> {
        match event {
            WorkerEvent::Thread(_) => if self.phase == WorkerPhase::Thread {
                seq![
                    UpdateView::SessionStarted {
                        issue_id: self.issue_id,
                        session_id: self.session_id,
                    },
                ]
            } else {
                Seq::empty()
            },
            WorkerEvent::TurnFinished { result, now } => if self.phase == WorkerPhase::Turn {
                Seq::empty().push(
                    UpdateView::CodexUpdate {
                        issue_id: self.issue_id,
                        tokens: tokens_between(self.previous, result.tokens),
                        rate_limit: json::opt_json(result.rate_limit),
                        timestamp: now@,
                    },
                ).push(
                    UpdateView::TurnCompleted {
                        issue_id: self.issue_id,
                        turn_number: self.turn_number,
                        outcome: result.outcome@,
                    },
                )
            } else {
                Seq::empty()
            },
            _ => Seq::empty(),
        }
    }
}

fn is_success(outcome: &RunOutcome) -> (r: bool)
    ensures
        r == (outcome@ == OutcomeView::Success),
{
    match outcome {
        RunOutcome::Success => true,
        _ => false,
    }
}

impl Worker {
    /// A worker that has not begun.
    pub fn new(
        issue_id: &str,
        issue_identifier: &str,
        max_turns: u32,
        active_states: &[String],
    ) -> (r: Self)
        ensures
            r@ == (WorkerView {
                issue_id: issue_id@,
                issue_identifier: issue_identifier@,
                max_turns,
                active_states: text::texts(active_states@),
                phase: WorkerPhase::Workspace,
                has_workspace: false,
                launched: false,
                session_id: Seq::empty(),
                thread_id: Seq::empty(),
                prompt: Seq::empty(),
                turn_number: 1,
                previous: app_server::reported(0, 0, 0),
                total_tokens: no_tokens(),
                outcome: WorkerOutcomeView::Normal,
            }),
            worker_sound(r@),
    {
        Worker {
            issue_id: issue_id.to_owned(),
            issue_identifier: issue_identifier.to_owned(),
            max_turns,
            active_states: text::clone_texts(active_states),
            phase: WorkerPhase::Workspace,
            has_workspace: false,
            launched: false,
            session_id: String::new(),
            thread_id: String::new(),
            prompt: String::new(),
            turn_number: 1,
            previous: SessionTokens::default(),
            total_tokens: zero_token_usage(),
            outcome: WorkerOutcome::Normal,
        }
    }

    fn wind_down(&mut self, outcome: WorkerOutcome)
        ensures
            final(self)@ == old(self)@.wind_down(outcome@),
    {
        self.phase = if self.launched {
            WorkerPhase::Shutdown
        } else if self.has_workspace {
            WorkerPhase::AfterRun
        } else {
            WorkerPhase::Finished
        };
        self.outcome = outcome;
    }

    fn after_done(&mut self)
        requires
            !old(self)@.winding_down(),
        ensures
            final(self)@ == old(self)@.after(WorkerEvent::Done),
    {
        match self.phase {
            WorkerPhase::Workspace => {
                self.phase = WorkerPhase::AfterCreate;
                self.has_workspace = true;
            },
            WorkerPhase::AfterCreate => {
                self.phase = WorkerPhase::BeforeRun;
            },
            WorkerPhase::BeforeRun => {
                self.phase = WorkerPhase::Prompt;
            },
            WorkerPhase::Launch => {
                self.phase = WorkerPhase::Handshake;
                self.launched = true;
            },
            WorkerPhase::TurnStart => {
                self.phase = WorkerPhase::Turn;
            },
            _ => {},
        }
    }

    fn after_issue_check(&mut self, active: bool)
        requires
            old(self)@.phase == WorkerPhase::IssueCheck,
        ensures
            final(self)@ == (if active && old(self)@.turn_number < old(self)@.max_turns {
                WorkerView {
                    phase: WorkerPhase::Prompt,
                    turn_number: (old(self)@.turn_number + 1) as u32,
                    ..old(self)@
                }
            } else {
                old(self)@.wind_down(WorkerOutcomeView::Normal)
            }),
    {
        if active && self.turn_number < self.max_turns {
            self.turn_number = self.turn_number + 1;
            self.phase = WorkerPhase::Prompt;
        } else {
            self.wind_down(WorkerOutcome::Normal);
        }
    }

    fn after_turn(&mut self, result: TurnResult, now: Timestamp) -> (r: Vec<WorkerUpdate>)
        requires
            old(self)@.phase == WorkerPhase::Turn,
        ensures
            final(self)@ == old(self)@.after_turn(result),
            updates_view(r@) == old(self)@.reports(WorkerEvent::TurnFinished { result, now }),
    {
        let TurnResult { outcome, tokens, rate_limit } = result;
        let stop = !is_success(&outcome) || self.turn_number >= self.max_turns;
        let delta = diff_tokens(&self.previous, &tokens);
        self.total_tokens = session_tokens_to_usage(&tokens);
        self.previous = tokens;
        let mut updates: Vec<WorkerUpdate> = Vec::new();
        updates.push(
            WorkerUpdate::CodexUpdate {
                issue_id: self.issue_id.clone(),
                tokens: delta,
                rate_limit,
                timestamp: now,
            },
        );
        updates.push(
            WorkerUpdate::TurnCompleted {
                issue_id: self.issue_id.clone(),
                turn_number: self.turn_number,
                outcome,
            },
        );
        if stop {
            self.wind_down(WorkerOutcome::Normal);
        } else {
            self.phase = WorkerPhase::IssueCheck;
        }
        proof {
            assert(updates_view(updates@) =~= old(self)@.reports(
                WorkerEvent::TurnFinished { result, now },
            ));
        }
        updates
    }

    fn after_thread(&mut self, id: String) -> (r: Vec<WorkerUpdate>)
        requires
            old(self)@.phase == WorkerPhase::Thread,
        ensures
            final(self)@ == old(self)@.after(WorkerEvent::Thread(id)),
            updates_view(r@) == old(self)@.reports(WorkerEvent::Thread(id)),
    {
        self.thread_id = id;
        let mut updates: Vec<WorkerUpdate> = Vec::new();
        updates.push(
            WorkerUpdate::SessionStarted {
                issue_id: self.issue_id.clone(),
                session_id: self.session_id.clone(),
            },
        );
        if self.max_turns == 0 {
            self.wind_down(WorkerOutcome::Normal);
        } else {
            self.phase = WorkerPhase::TurnStart;
        }
        proof {
            assert(updates_view(updates@) =~= old(self)@.reports(WorkerEvent::Thread(id)));
        }
        updates
    }

    /// Takes an event into account and hands out what is to be reported. What the worker does next
    /// follows from its phase.
    pub fn advance(&mut self, event: WorkerEvent) -> (r: Vec<WorkerUpdate>)
        ensures
            final(self)@ == old(self)@.after(event),
            updates_view(r@) == (if old(self)@.winding_down() {
                Seq::empty()
            } else {
                old(self)@.reports(event)
            }),
    {
        let none: Vec<WorkerUpdate> = Vec::new();
        proof {
            assert(updates_view(none@) =~= Seq::<UpdateView>::empty());
        }
        match self.phase {
            WorkerPhase::Shutdown => {
                self.phase = if self.has_workspace {
                    WorkerPhase::AfterRun
                } else {
                    WorkerPhase::Finished
                };
                return none;
            },
            WorkerPhase::AfterRun => {
                self.phase = WorkerPhase::Finished;
                return none;
            },
            WorkerPhase::Finished => {
                return none;
            },
            _ => {},
        }
        match event {
            WorkerEvent::Failed(reason) => {
                let message = reason.message();
                self.wind_down(WorkerOutcome::Failure(message));
            },
            WorkerEvent::Done => {
                self.after_done();
            },
            WorkerEvent::Prompt(prompt) => {
                if let WorkerPhase::Prompt = self.phase {
                    self.prompt = prompt;
                    self.phase = if self.launched {
                        WorkerPhase::TurnStart
                    } else {
                        WorkerPhase::Launch
                    };
                }
            },
            WorkerEvent::Session(id) => {
                if let WorkerPhase::Handshake = self.phase {
                    self.session_id = id;
                    self.phase = WorkerPhase::Thread;
                }
            },
            WorkerEvent::Thread(id) => {
                if let WorkerPhase::Thread = self.phase {
                    return self.after_thread(id);
                }
            },
            WorkerEvent::TurnFinished { result, now } => {
                if let WorkerPhase::Turn = self.phase {
                    return self.after_turn(result, now);
                }
            },
            WorkerEvent::IssueChecked(refreshed) => {
                if let WorkerPhase::IssueCheck = self.phase {
                    let active = issue_is_active(&refreshed, &self.active_states);
                    self.after_issue_check(active);
                }
            },
        }
        none
    }

    /// The script that runs in the worker's phase.
    pub fn hook_phase(&self) -> (r: Option<HookPhase>)
        ensures
            r == match self@.phase {
                WorkerPhase::AfterCreate => Some(HookPhase::AfterCreate),
                WorkerPhase::BeforeRun => Some(HookPhase::BeforeRun),
                WorkerPhase::AfterRun => Some(HookPhase::AfterRun),
                _ => None,
            },
    {
        match self.phase {
            WorkerPhase::AfterCreate => Some(HookPhase::AfterCreate),
            WorkerPhase::BeforeRun => Some(HookPhase::BeforeRun),
            WorkerPhase::AfterRun => Some(HookPhase::AfterRun),
            _ => None,
        }
    }

    /// The result of the worker.
    pub fn result(&self) -> (r: WorkerResult)
        ensures
            r@ == (ResultView {
                issue_id: self@.issue_id,
                issue_identifier: self@.issue_identifier,
                outcome: self@.outcome,
                total_tokens: self@.total_tokens,
            }),
    {
        WorkerResult {
            issue_id: self.issue_id.clone(),
            issue_identifier: self.issue_identifier.clone(),
            outcome: self.outcome.clone(),
            total_tokens: self.total_tokens,
        }
    }
}

/// What holds of a worker at every moment: an agent runs in a workspace only, the phases with an
/// agent have one, and no more turns are taken than allowed.
pub open spec fn worker_sound(w: WorkerView) -> bool {
    &&& w.launched ==> w.has_workspace
    &&& (w.phase == WorkerPhase::Handshake || w.phase == WorkerPhase::Thread || w.phase
        == WorkerPhase::TurnStart || w.phase == WorkerPhase::Turn || w.phase
        == WorkerPhase::IssueCheck || w.phase == WorkerPhase::Shutdown) ==> w.launched
    &&& (w.phase == WorkerPhase::AfterCreate || w.phase == WorkerPhase::BeforeRun || w.phase
        == WorkerPhase::Prompt || w.phase == WorkerPhase::Launch || w.phase
        == WorkerPhase::AfterRun) ==> w.has_workspace
    &&& (w.phase == WorkerPhase::TurnStart || w.phase == WorkerPhase::Turn || w.phase
        == WorkerPhase::IssueCheck || (w.phase == WorkerPhase::Prompt && w.launched)) ==> 1
        <= w.turn_number <= w.max_turns
    &&& (w.phase == WorkerPhase::Workspace || w.phase == WorkerPhase::AfterCreate || w.phase
        == WorkerPhase::BeforeRun || w.phase == WorkerPhase::Launch) ==> !w.launched
    &&& !w.launched && !w.winding_down() ==> w.turn_number == 1
    &&& (w.phase == WorkerPhase::Handshake || w.phase == WorkerPhase::Thread) ==> w.turn_number == 1
}

/// Every event keeps a worker sound.
pub proof fn lemma_worker_stays_sound(w: WorkerView, event: WorkerEvent)
    requires
        worker_sound(w),
    ensures
        worker_sound(w.after(event)),
{
}

/// A worker that has a workspace never finishes without its last script, and one that has started
/// an agent never runs that script before shutting the agent down.
pub proof fn lemma_worker_cleans_up(w: WorkerView, event: WorkerEvent)
    requires
        worker_sound(w),
        w.after(event).phase == WorkerPhase::Finished,
        w.phase != WorkerPhase::Finished,
    ensures
        w.has_workspace ==> w.phase == WorkerPhase::AfterRun,
        w.launched ==> w.phase == WorkerPhase::AfterRun,
{
}

/// A failure stops a worker from whatever it is doing, and its text becomes the outcome.
pub proof fn lemma_failure_stops_worker(w: WorkerView, reason: SymphonyError)
    requires
        !w.winding_down(),
    ensures
        w.after(WorkerEvent::Failed(reason)).winding_down(),
        w.after(WorkerEvent::Failed(reason)).outcome == WorkerOutcomeView::Failure(
            error::error_text(reason@),
        ),
{
}

/// Reports that never go down.
pub open spec fn growing(reports: Seq<SessionTokens>) -> bool {
    forall|i: int, j: int| #![trigger reports[i], reports[j]]
        0 <= i < j < reports.len() ==> reports[i].input_tokens <= reports[j].input_tokens
            && reports[i].output_tokens <= reports[j].output_tokens && reports[i].total_tokens
            <= reports[j].total_tokens
}

/// The tokens that a worker passes on over a series of reports, added up.
pub open spec fn passed_on(reports: Seq<SessionTokens>) -> (int, int, int)
    decreases reports.len(),
{
    if reports.len() == 0 {
        (0, 0, 0)
    } else {
        let before = passed_on(reports.drop_last());
        let previous = if reports.len() == 1 {
            app_server::reported(0, 0, 0)
        } else {
            reports[reports.len() - 2]
        };
        let delta = tokens_between(previous, reports.last());
        (
            before.0 + delta.input_tokens,
            before.1 + delta.output_tokens,
            before.2 + delta.total_tokens,
        )
    }
}

/// What a worker passes on turn by turn adds up to the last report: nothing is counted twice and
/// nothing is lost, where the reports never go down.
pub proof fn lemma_deltas_add_up(reports: Seq<SessionTokens>)
    requires
        growing(reports),
        reports.len() > 0,
    ensures
        passed_on(reports) == (
            reports.last().input_tokens as int,
            reports.last().output_tokens as int,
            reports.last().total_tokens as int,
        ),
    decreases reports.len(),
{
    if reports.len() > 1 {
        let front = reports.drop_last();
        assert(growing(front)) by {
            assert forall|i: int, j: int| #![trigger front[i], front[j]]
                0 <= i < j < front.len() implies front[i].input_tokens <= front[j].input_tokens
                && front[i].output_tokens <= front[j].output_tokens && front[i].total_tokens
                <= front[j].total_tokens by {
                assert(front[i] == reports[i] && front[j] == reports[j]);
            }
        }
        lemma_deltas_add_up(front);
        assert(front.last() == reports[reports.len() - 2]);
        assert(reports[reports.len() - 2].input_tokens <= reports[reports.len() - 1].input_tokens);
    } else {
        assert(reports.drop_last().len() == 0);
        assert(passed_on(reports.drop_last()) == (0int, 0int, 0int));
    }
}

/// A worker that has finished a turn stops, with a normal outcome and no further turn, where its issue
/// is gone or no longer in an active state; where it is, or where that could not be learnt, it takes
/// the next turn as long as turns are left.
pub proof fn lemma_worker_follows_its_issue(w: WorkerView, found: Vec<BlockerRef>)
    requires
        w.phase == WorkerPhase::IssueCheck,
    ensures
        ({
            let told = w.after(WorkerEvent::IssueChecked(Some(found)));
            let listed = found@.len() > 0 && exists|i: int|
                0 <= i < w.active_states.len() && text::lower(
                    text::trimmed(#[trigger] w.active_states[i]),
                ) == text::lower(text::trimmed(found@[0].state@));
            &&& !listed ==> told.winding_down() && told.outcome == WorkerOutcomeView::Normal
                && told.turn_number == w.turn_number
            &&& listed && w.turn_number < w.max_turns ==> told.phase == WorkerPhase::Prompt
                && told.turn_number == w.turn_number + 1
        }),
        ({
            let untold = w.after(WorkerEvent::IssueChecked(None));
            w.turn_number < w.max_turns ==> untold.phase == WorkerPhase::Prompt
                && untold.turn_number == w.turn_number + 1
        }),
        w.turn_number >= w.max_turns ==> w.after(WorkerEvent::IssueChecked(Some(found))).winding_down()
            && w.after(WorkerEvent::IssueChecked(None)).winding_down(),
{
    if found@.len() > 0 {
        text::lemma_state_is_listed(found@[0].state@, w.active_states);
    }
}

/// A turn that succeeds is followed by a look at the issue while turns are left, and by the end
/// otherwise; a turn that does not succeed ends the worker's turns. Either way the outcome is normal
/// and the tokens of the turn are those of the worker.
pub proof fn lemma_turn_is_followed(w: WorkerView, result: TurnResult, now: Timestamp)
    requires
        w.phase == WorkerPhase::Turn,
    ensures
        ({
            let after = w.after(WorkerEvent::TurnFinished { result, now });
            let succeeded = result.outcome is Success;
            &&& succeeded && w.turn_number < w.max_turns ==> after.phase == WorkerPhase::IssueCheck
            &&& !succeeded || w.turn_number >= w.max_turns ==> after.winding_down() && after.outcome
                == WorkerOutcomeView::Normal
            &&& after.turn_number == w.turn_number
            &&& after.total_tokens.input_tokens == result.tokens.input_tokens
            &&& after.total_tokens.output_tokens == result.tokens.output_tokens
            &&& after.total_tokens.total_tokens == result.tokens.total_tokens
            &&& after.previous == result.tokens
        }),
{
}

/// A worker that nothing fails goes from step to step: the workspace, its two scripts, the prompt, the
/// agent, the handshake, the thread and the turn. What each step gave is what is kept.
pub proof fn lemma_worker_goes_step_by_step(w: WorkerView, text: String)
    ensures
        w.phase == WorkerPhase::Workspace ==> w.after(WorkerEvent::Done).phase
            == WorkerPhase::AfterCreate && w.after(WorkerEvent::Done).has_workspace,
        w.phase == WorkerPhase::AfterCreate ==> w.after(WorkerEvent::Done).phase
            == WorkerPhase::BeforeRun,
        w.phase == WorkerPhase::BeforeRun ==> w.after(WorkerEvent::Done).phase
            == WorkerPhase::Prompt,
        w.phase == WorkerPhase::Prompt ==> w.after(WorkerEvent::Prompt(text)).prompt == text@,
        w.phase == WorkerPhase::Prompt && !w.launched ==> w.after(WorkerEvent::Prompt(text)).phase
            == WorkerPhase::Launch,
        w.phase == WorkerPhase::Prompt && w.launched ==> w.after(WorkerEvent::Prompt(text)).phase
            == WorkerPhase::TurnStart,
        w.phase == WorkerPhase::Launch ==> w.after(WorkerEvent::Done).phase
            == WorkerPhase::Handshake && w.after(WorkerEvent::Done).launched,
        w.phase == WorkerPhase::Handshake ==> w.after(WorkerEvent::Session(text)).phase
            == WorkerPhase::Thread && w.after(WorkerEvent::Session(text)).session_id == text@,
        w.phase == WorkerPhase::Thread && w.max_turns > 0 ==> w.after(WorkerEvent::Thread(text)).phase
            == WorkerPhase::TurnStart,
        w.phase == WorkerPhase::Thread && w.max_turns == 0 ==> w.after(
            WorkerEvent::Thread(text),
        ).winding_down(),
        w.phase == WorkerPhase::Thread ==> w.after(WorkerEvent::Thread(text)).thread_id == text@,
        w.phase == WorkerPhase::TurnStart ==> w.after(WorkerEvent::Done).phase == WorkerPhase::Turn,
{
}

/// A worker that stops shuts its agent down where it has one, then runs its last script where it has a
/// workspace, and then is finished; its outcome does not change on the way.
pub proof fn lemma_worker_stops_in_order(w: WorkerView, event: WorkerEvent)
    ensures
        w.phase == WorkerPhase::Shutdown && w.has_workspace ==> w.after(event).phase
            == WorkerPhase::AfterRun,
        w.phase == WorkerPhase::Shutdown && !w.has_workspace ==> w.after(event).phase
            == WorkerPhase::Finished,
        w.phase == WorkerPhase::AfterRun || w.phase == WorkerPhase::Finished ==> w.after(event).phase
            == WorkerPhase::Finished,
        w.winding_down() ==> w.after(event).outcome == w.outcome && w.after(event).total_tokens
            == w.total_tokens,
        !w.winding_down() && w.launched && event is Failed ==> w.after(event).phase
            == WorkerPhase::Shutdown,
        !w.winding_down() && !w.launched && w.has_workspace && event is Failed ==> w.after(event).phase
            == WorkerPhase::AfterRun,
        !w.winding_down() && !w.launched && !w.has_workspace && event is Failed ==> w.after(
            event,
        ).phase == WorkerPhase::Finished,
{
}

/// Whatever happens, a worker stays that of its issue, with the turns and the active states that it was
/// given.
pub proof fn lemma_worker_keeps_its_task(w: WorkerView, event: WorkerEvent)
    ensures
        w.after(event).issue_id == w.issue_id,
        w.after(event).issue_identifier == w.issue_identifier,
        w.after(event).max_turns == w.max_turns,
        w.after(event).active_states == w.active_states,
        w.after(event).turn_number <= w.turn_number + 1,
        w.turn_number <= w.after(event).turn_number,
{
}

/// A worker reports the start of its session under its issue and its session's id, and of each turn
/// the tokens that it added, its rate limits, its time, its number and its outcome, all under its
/// issue; and it reports nothing else.
pub proof fn lemma_worker_reports(
    w: WorkerView,
    id: String,
    result: TurnResult,
    now: Timestamp,
    event: WorkerEvent,
)
    ensures
        w.phase == WorkerPhase::Thread ==> {
            let told = w.reports(WorkerEvent::Thread(id));
            &&& told.len() == 1
            &&& told[0] == (UpdateView::SessionStarted {
                issue_id: w.issue_id,
                session_id: w.session_id,
            })
        },
        w.phase == WorkerPhase::Turn ==> {
            let told = w.reports(WorkerEvent::TurnFinished { result, now });
            &&& told.len() == 2
            &&& told[0] matches UpdateView::CodexUpdate { issue_id, tokens, rate_limit, timestamp }
            &&& issue_id == w.issue_id
            &&& timestamp == now@
            &&& rate_limit == json::opt_json(result.rate_limit)
            &&& result.tokens.input_tokens >= w.previous.input_tokens ==> tokens.input_tokens
                + w.previous.input_tokens == result.tokens.input_tokens
            &&& result.tokens.output_tokens >= w.previous.output_tokens ==> tokens.output_tokens
                + w.previous.output_tokens == result.tokens.output_tokens
            &&& result.tokens.total_tokens >= w.previous.total_tokens ==> tokens.total_tokens
                + w.previous.total_tokens == result.tokens.total_tokens
            &&& told[1] == (UpdateView::TurnCompleted {
                issue_id: w.issue_id,
                turn_number: w.turn_number,
                outcome: result.outcome@,
            })
        },
        event !is Thread && event !is TurnFinished ==> w.reports(event).len() == 0,
{
}

/// The policy is the configured one, and the default where none is configured, or where a text is that
/// is blank or `auto`.
pub proof fn lemma_policy_is_the_configured_one(value: JsonView, name: Seq<char>)
    ensures
        effective_policy(None) == app_server::default_policy(),
        value !is Text ==> effective_policy(Some(value)) == value,
        text::trimmed(name).len() > 0 && text::trimmed(name) != "auto"@ ==> effective_policy(
            Some(JsonView::Text(name)),
        ) == JsonView::Text(name),
        text::trimmed(name).len() == 0 || text::trimmed(name) == "auto"@ ==> effective_policy(
            Some(JsonView::Text(name)),
        ) == app_server::default_policy(),
{
    text::lemma_trimmed_empty(name);
}

/// The sandbox of threads is the one named for threads, else the one named for all, and else
/// `workspace-write`.
pub proof fn lemma_sandbox_is_the_configured_one(config: CodexConfig)
    ensures
        config.thread_sandbox is Some && text::trimmed(config.thread_sandbox->0@).len() > 0
            ==> thread_sandbox(config) == text::trimmed(config.thread_sandbox->0@),
        config.thread_sandbox is None && config.sandbox is Some && text::trimmed(
            config.sandbox->0@,
        ).len() > 0 ==> thread_sandbox(config) == text::trimmed(config.sandbox->0@),
        config.thread_sandbox is None && config.sandbox is None ==> thread_sandbox(config)
            == "workspace-write"@,
{
    if config.thread_sandbox is Some {
        text::lemma_trimmed_empty(config.thread_sandbox->0@);
    }
    if config.sandbox is Some {
        text::lemma_trimmed_empty(config.sandbox->0@);
    }
}

/// The policy that is generated for `workspace-write` lets the workspace be written and nothing else,
/// and lets nothing reach the network; another sandbox goes by its name.
pub proof fn lemma_generated_policy_confines(config: CodexConfig, cwd: Seq<char>)
    ensures
        thread_sandbox(config) == "workspace-write"@ ==> {
            let policy = generated_sandbox_policy(config, cwd);
            &&& json::member(policy, "type"@) == Some(JsonView::Text("workspaceWrite"@))
            &&& json::member(policy, "writableRoots"@) matches Some(JsonView::Array(roots))
            &&& roots.len() == 1
            &&& roots[0] == JsonView::Text(cwd)
            &&& json::member(policy, "networkAccess"@) == Some(JsonView::Bool(false))
            &&& json::member(policy, "excludeTmpdirEnvVar"@) == Some(JsonView::Bool(false))
            &&& json::member(policy, "excludeSlashTmp"@) == Some(JsonView::Bool(false))
        },
        thread_sandbox(config) != "workspace-write"@ ==> generated_sandbox_policy(config, cwd)
            == JsonView::Text(thread_sandbox(config)),
{
    broadcast use {json::lemma_member_push, json::lemma_no_member};

    reveal_strlit("type");
    reveal_strlit("writableRoots");
    reveal_strlit("readOnlyAccess");
    reveal_strlit("networkAccess");
    reveal_strlit("excludeTmpdirEnvVar");
    reveal_strlit("excludeSlashTmp");
    assert("type"@.len() == 4);
    assert("writableRoots"@.len() == 13);
    assert("readOnlyAccess"@.len() == 14);
    assert("networkAccess"@.len() == 13);
    assert("excludeTmpdirEnvVar"@.len() == 19);
    assert("excludeSlashTmp"@.len() == 15);
    assert("networkAccess"@[0] == 'n');
    assert("writableRoots"@[0] == 'w');
}

/// What is used between two reports is the difference, count by count, and nothing where a count went
/// down.
pub proof fn lemma_tokens_between(previous: SessionTokens, current: SessionTokens)
    ensures
        ({
            let used = tokens_between(previous, current);
            &&& current.input_tokens >= previous.input_tokens ==> used.input_tokens
                == current.input_tokens - previous.input_tokens
            &&& current.input_tokens < previous.input_tokens ==> used.input_tokens == 0
            &&& current.output_tokens >= previous.output_tokens ==> used.output_tokens
                == current.output_tokens - previous.output_tokens
            &&& current.output_tokens < previous.output_tokens ==> used.output_tokens == 0
            &&& current.total_tokens >= previous.total_tokens ==> used.total_tokens
                == current.total_tokens - previous.total_tokens
            &&& current.total_tokens < previous.total_tokens ==> used.total_tokens == 0
        }),
{
}

/// The model of a worker's result has what the result has.
pub proof fn lemma_result_is_modelled(result: WorkerResult, reason: String)
    ensures
        result@.issue_id == result.issue_id@,
        result@.issue_identifier == result.issue_identifier@,
        result@.outcome == result.outcome@,
        result@.total_tokens == result.total_tokens,
        WorkerOutcome::Normal@ is Normal,
        WorkerOutcome::Failure(reason)@ == WorkerOutcomeView::Failure(reason@),
{
}

/// What a worker reports is modelled as it is, in order.
pub proof fn lemma_updates_are_modelled(updates: Seq<WorkerUpdate>, i: int)
    requires
        0 <= i < updates.len(),
    ensures
        updates_view(updates).len() == updates.len(),
        updates[i] is CodexUpdate ==> {
            let model = updates_view(updates)[i];
            &&& model is CodexUpdate
            &&& model->CodexUpdate_issue_id == updates[i]->CodexUpdate_issue_id@
            &&& model->CodexUpdate_tokens == updates[i]->CodexUpdate_tokens
            &&& model->CodexUpdate_rate_limit == json::opt_json(updates[i]->CodexUpdate_rate_limit)
            &&& model->CodexUpdate_timestamp == updates[i]->CodexUpdate_timestamp@
        },
        updates[i] is SessionStarted ==> updates_view(updates)[i] == (UpdateView::SessionStarted {
            issue_id: updates[i]->SessionStarted_issue_id@,
            session_id: updates[i]->SessionStarted_session_id@,
        }),
        updates[i] is TurnCompleted ==> updates_view(updates)[i] == (UpdateView::TurnCompleted {
            issue_id: updates[i]->TurnCompleted_issue_id@,
            turn_number: updates[i]->TurnCompleted_turn_number,
            outcome: updates[i]->TurnCompleted_outcome@,
        }),
{
}

/// The model of a worker has what the worker has.
pub proof fn lemma_worker_is_modelled(worker: Worker)
    ensures
        worker@.issue_id == worker.issue_id@,
        worker@.issue_identifier == worker.issue_identifier@,
        worker@.max_turns == worker.max_turns,
        worker@.active_states == text::texts(worker.active_states@),
        worker@.phase == worker.phase,
        worker@.has_workspace == worker.has_workspace,
        worker@.launched == worker.launched,
        worker@.session_id == worker.session_id@,
        worker@.thread_id == worker.thread_id@,
        worker@.prompt == worker.prompt@,
        worker@.turn_number == worker.turn_number,
        worker@.previous == worker.previous,
        worker@.total_tokens == worker.total_tokens,
        worker@.outcome == worker.outcome@,
{
}

/// No tokens are none of any kind.
pub proof fn lemma_no_tokens_are_none()
    ensures
        no_tokens().input_tokens == 0,
        no_tokens().output_tokens == 0,
        no_tokens().total_tokens == 0,
{
}

} // verus!
