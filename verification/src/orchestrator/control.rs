//! What the orchestrator does on each message.

use vstd::prelude::*;

use crate::agent_runner::{UpdateView, WorkerOutcome, WorkerOutcomeView, WorkerResult, WorkerUpdate};
use crate::config::{AgentConfig, TrackerConfig, WorkerConfig};
use crate::domain;
use crate::domain::{
    BlockerRef, BlockerView, Issue, IssueView, LiveSession, RetryEntry, RetryView, SessionView,
    TokenUsage, WorkflowDefinition,
};
use crate::orchestrator::dispatch;
use crate::orchestrator::retry;
use crate::orchestrator::retry::{RetryQueue, RetryTimer};
use crate::orchestrator::state;
use crate::orchestrator::state::{AggregateTokens, OrchestratorState, StateSnapshot, StateView};
use crate::text;
use crate::time;
use crate::time::Timestamp;

verus! {

/// A message to the orchestrator.
#[derive(Debug)]
pub enum OrchestratorMsg {
    Tick,
    WorkerExit(WorkerResult),
    CodexUpdate(WorkerUpdate),
    RetryTimer { issue_id: String },
    WorkflowReload(WorkflowDefinition),
    RefreshRequest,
    Shutdown,
}

/// The time, by the calendar and by a monotonic clock.
#[derive(Debug, Clone, Copy)]
pub struct Clock {
    pub now: Timestamp,
    pub monotonic_ms: u64,
}

/// A delay ends at a point in time that can be named.
pub open spec fn can_wait(clock: Clock, delay_ms: u64) -> bool {
    time::in_calendar(clock.now@ + delay_ms * 1_000_000)
}

/// Tells whether a delay ends at a point in time that can be named.
pub fn delay_fits(clock: &Clock, delay_ms: u64) -> (r: bool)
    ensures
        r == can_wait(*clock, delay_ms),
{
    let nanos: i128 = clock.now.unix_nanos() + delay_ms as i128 * 1_000_000;
    -8_334_601_228_800_000_000_000 <= nanos && nanos <= 8_210_266_876_799_999_999_999
}

/// What the orchestrator knows: its state and the timers of its retries.
#[derive(Debug)]
pub struct Orchestrator {
    pub state: OrchestratorState,
    pub retry_queue: RetryQueue,
}

/// The model of what the orchestrator knows.
#[verifier::ext_equal]
pub struct ControlView {
    pub state: StateView,
    pub timers: Map<Seq<char>, RetryTimer>,
}

impl View for Orchestrator {
    type V = ControlView;

    open spec fn view(&self) -> ControlView {
        ControlView { state: self.state@, timers: self.retry_queue@ }
    }
}

impl ControlView {
    /// A retry is scheduled: the issue is claimed, its attempt is remembered, and its timer runs.
    pub open spec fn schedule(
        self,
        entry: RetryView,
        delay_ms: u64,
        clock: Clock,
    ) -> ControlView {
        let id = entry.issue_id;
        ControlView {
            state: StateView {
                claimed: self.state.claimed.insert(id),
                retry_attempts: self.state.retry_attempts.insert(id, entry.attempt),
                retrying: self.state.retrying.insert(id, entry),
                ..self.state
            },
            timers: self.timers.insert(
                id,
                RetryTimer {
                    attempt: entry.attempt,
                    fire_at_ms: (clock.monotonic_ms + delay_ms) as u128,
                },
            ),
        }
    }

    /// The attempt that follows on the failure of an issue's session.
    pub open spec fn next_attempt(self, id: Seq<char>) -> u32 {
        following(self.state.attempt(id))
    }

    /// A session starts on an issue.
    pub open spec fn dispatch(self, session: SessionView, attempt: u32) -> ControlView {
        let id = session.issue_id;
        ControlView {
            state: StateView {
                claimed: self.state.claimed.insert(id),
                retry_attempts: self.state.retry_attempts.insert(id, attempt),
                retrying: self.state.retrying.remove(id),
                running: self.state.running.insert(id, session),
                ..self.state
            },
            timers: self.timers.remove(id),
        }
    }

    /// The timer of a retry has fired: it is taken out and the claim is released.
    pub open spec fn fire(self, id: Seq<char>) -> ControlView {
        ControlView { state: self.state.release(id), timers: self.timers.remove(id) }
    }

    /// The attempt that a timer starts.
    pub open spec fn timer_attempt(self, id: Seq<char>) -> u32 {
        if self.timers.contains_key(id) {
            self.timers[id].attempt
        } else {
            at_least_one(self.state.attempt(id))
        }
    }

    /// The host that a retry would rather run on.
    pub open spec fn retry_host(self, id: Seq<char>) -> Option<Seq<char>> {
        if self.state.retrying.contains_key(id) {
            self.state.retrying[id].worker_host
        } else {
            None
        }
    }

    /// The identifier under which a waiting retry is known; the id where none waits.
    pub open spec fn retry_identifier(self, id: Seq<char>) -> Seq<char> {
        if self.state.retrying.contains_key(id) {
            self.state.retrying[id].issue_identifier
        } else {
            id
        }
    }
}

/// The number of an attempt; the first one is 1.
pub open spec fn at_least_one(attempt: u32) -> u32 {
    if attempt == 0 {
        1
    } else {
        attempt
    }
}

/// The attempt after another one.
pub open spec fn following(attempt: u32) -> u32 {
    if attempt == u32::MAX {
        u32::MAX
    } else {
        (attempt + 1) as u32
    }
}

fn following_attempt(attempt: u32) -> (r: u32)
    ensures
        r == following(attempt),
{
    if attempt == u32::MAX {
        u32::MAX
    } else {
        attempt + 1
    }
}

/// The attempt and the reason of the retry that follows on a worker's end: a continuation after a
/// normal end, another attempt after a failure.
pub open spec fn retry_after(result: WorkerOutcomeView, next_attempt: u32) -> (u32, Seq<char>) {
    match result {
        WorkerOutcomeView::Normal => (1, "continuation"@),
        WorkerOutcomeView::Failure(reason) => (next_attempt, reason),
    }
}

/// What is known after a worker's end, before the retry is scheduled: the session is over, and a
/// normal end completes the issue.
pub open spec fn worker_gone(
    s: StateView,
    id: Seq<char>,
    outcome: WorkerOutcomeView,
    now: int,
) -> StateView {
    let dropped = s.drop_session(id, now);
    match outcome {
        WorkerOutcomeView::Normal => StateView { completed: dropped.completed.insert(id), ..dropped },
        WorkerOutcomeView::Failure(_) => dropped,
    }
}

/// What is known after a worker's end: the session is over and a retry is scheduled, on the same
/// host where possible.
pub open spec fn after_exit(
    c: ControlView,
    id: Seq<char>,
    identifier: Seq<char>,
    outcome: WorkerOutcomeView,
    max_backoff_ms: u64,
    clock: Clock,
) -> ControlView {
    let (attempt, reason) = retry_after(outcome, c.next_attempt(id));
    let delay = retry::retry_delay(outcome, attempt, max_backoff_ms);
    let gone = ControlView { state: worker_gone(c.state, id, outcome, clock.now@), ..c };
    gone.schedule(
        RetryView {
            issue_id: id,
            issue_identifier: identifier,
            attempt,
            scheduled_at: clock.now@ + delay * 1_000_000,
            reason: Some(reason),
            worker_host: if c.state.running.contains_key(id) {
                c.state.running[id].worker_host
            } else {
                None
            },
        },
        delay,
        clock,
    )
}

/// The delay of the retry that follows on a worker's end.
pub open spec fn exit_delay(
    c: ControlView,
    id: Seq<char>,
    outcome: WorkerOutcomeView,
    max_backoff_ms: u64,
) -> u64 {
    retry::retry_delay(outcome, retry_after(outcome, c.next_attempt(id)).0, max_backoff_ms)
}

/// What is known after a worker's report.
pub open spec fn after_update(s: StateView, update: UpdateView) -> StateView {
    match update {
        UpdateView::CodexUpdate { issue_id, tokens, rate_limit, timestamp } => {
            let seen = s.change(
                issue_id,
                SessionView {
                    last_codex_timestamp: Some(timestamp),
                    tokens: state::with_tokens(s.running[issue_id].tokens, tokens),
                    ..s.running[issue_id]
                },
            );
            StateView {
                codex_totals: AggregateTokens {
                    input_tokens: state::capped_sum(
                        s.codex_totals.input_tokens,
                        tokens.input_tokens,
                    ),
                    output_tokens: state::capped_sum(
                        s.codex_totals.output_tokens,
                        tokens.output_tokens,
                    ),
                    total_tokens: state::capped_sum(
                        s.codex_totals.total_tokens,
                        tokens.total_tokens,
                    ),
                    ..s.codex_totals
                },
                codex_rate_limits: rate_limit,
                ..seen
            }
        },
        UpdateView::SessionStarted { issue_id, session_id } => s.change(
            issue_id,
            SessionView { session_id, ..s.running[issue_id] },
        ),
        UpdateView::TurnCompleted { issue_id, turn_number: _, outcome: _ } => s.change(
            issue_id,
            SessionView {
                turn_count: if s.running[issue_id].turn_count == u32::MAX {
                    u32::MAX
                } else {
                    (s.running[issue_id].turn_count + 1) as u32
                },
                ..s.running[issue_id]
            },
        ),
    }
}

/// The first issue with an id.
pub open spec fn issue_with_id(candidates: Seq<IssueView>, i: int, id: Seq<char>) -> Option<
    IssueView,
>
    decreases candidates.len() - i,
{
    if i < 0 || i >= candidates.len() {
        None
    } else if candidates[i].id == id {
        Some(candidates[i])
    } else {
        issue_with_id(candidates, i + 1, id)
    }
}

/// No session can be started on an issue for want of a slot.
pub open spec fn no_slots(s: StateView, issue_state: Seq<char>, agent: AgentConfig) -> bool {
    dispatch::free_slots(agent.max_concurrent_agents, s.running.dom().len()) == 0
        || dispatch::free_state_slots(s, issue_state, agent.max_concurrent_agents_by_state@) == Some(
        0u32,
    )
}

/// What becomes of a retry whose timer has fired.
pub enum RetryVerdict {
    Dispatch { issue: IssueView },
    Requeue { identifier: Seq<char>, reason: Seq<char> },
    Forget,
}

/// What becomes of a retry whose timer has fired, given the candidates that the tracker names: it
/// waits again where there is no answer or no slot, it is forgotten where the issue is gone or not
/// to be worked on, and else the issue is dispatched.
pub open spec fn retry_verdict(
    c: ControlView,
    id: Seq<char>,
    candidates: Option<Seq<IssueView>>,
    agent: AgentConfig,
    active: Seq<Seq<char>>,
    terminal: Seq<Seq<char>>,
) -> RetryVerdict {
    match candidates {
        None => RetryVerdict::Requeue {
            identifier: c.retry_identifier(id),
            reason: "retry poll failed"@,
        },
        Some(candidates) => match issue_with_id(candidates, 0, id) {
            None => RetryVerdict::Forget,
            Some(issue) => if dispatch::eligible(
                issue,
                c.state,
                agent.max_concurrent_agents,
                agent.max_concurrent_agents_by_state@,
                active,
                terminal,
            ) {
                RetryVerdict::Dispatch { issue }
            } else if no_slots(c.state, issue.state, agent) {
                RetryVerdict::Requeue {
                    identifier: issue.identifier,
                    reason: "no available orchestrator slots"@,
                }
            } else {
                RetryVerdict::Forget
            },
        },
    }
}

/// The delay before the next attempt at a retry that waits again.
pub open spec fn requeue_delay(attempt: u32, max_backoff_ms: u64) -> u64 {
    retry::retry_delay(
        WorkerOutcomeView::Failure(Seq::empty()),
        following(attempt),
        max_backoff_ms,
    )
}

/// What is known once it is decided what becomes of a retry.
pub open spec fn after_verdict(
    c: ControlView,
    id: Seq<char>,
    attempt: u32,
    host: Option<Seq<char>>,
    verdict: RetryVerdict,
    max_backoff_ms: u64,
    clock: Clock,
) -> ControlView {
    match verdict {
        RetryVerdict::Dispatch { .. } => c,
        RetryVerdict::Forget => ControlView { state: c.state.forget_retry(id), ..c },
        RetryVerdict::Requeue { identifier, reason } => {
            let delay = requeue_delay(attempt, max_backoff_ms);
            c.schedule(
                RetryView {
                    issue_id: id,
                    issue_identifier: identifier,
                    attempt: following(attempt),
                    scheduled_at: clock.now@ + delay * 1_000_000,
                    reason: Some(reason),
                    worker_host: host,
                },
                delay,
                clock,
            )
        },
    }
}

/// What is to be done about a retry whose timer has fired.
#[derive(Debug)]
pub enum RetryDecision {
    Dispatch { issue: Issue, attempt: u32 },
    Scheduled { delay_ms: u64 },
    Forgotten,
}

/// What is to be done about an issue of a tick.
#[derive(Debug, Clone, Copy, PartialEq, Eq)]
pub enum DispatchGate {
    Go,
    Skip,
    Stop,
}

/// Whether an issue that has been looked up again is still to be dispatched.
#[derive(Debug)]
pub enum RevalidateResult {
    Current(Issue),
    Skip(String),
    Error(String),
}

/// An issue is looked up again before it is dispatched: it goes on with its current state unless it
/// is gone or finished.
pub fn revalidate_issue(
    issue: &Issue,
    refreshed: &Result<Vec<BlockerRef>, String>,
    terminal_states: &[String],
) -> (r: RevalidateResult)
    ensures
        match *refreshed {
            Err(error) => r matches RevalidateResult::Error(message) && message@ == error@,
            Ok(issues) => if issues@.len() == 0 {
                r matches RevalidateResult::Skip(reason) && reason@ == "issue no longer visible"@
            } else if text::state_listed(issues@[0]@.state, text::texts(terminal_states@)) {
                r matches RevalidateResult::Skip(reason) && reason@
                    == "issue in terminal state: "@ + issues@[0]@.state
            } else {
                r matches RevalidateResult::Current(updated) && updated@ == (IssueView {
                    state: issues@[0]@.state,
                    ..issue@
                })
            },
        },
{
    match refreshed {
        Err(error) => RevalidateResult::Error(error.clone()),
        Ok(issues) => {
            if issues.len() == 0 {
                return RevalidateResult::Skip("issue no longer visible".to_owned());
            }
            let current = &issues[0];
            if text::state_matches(current.state.as_str(), terminal_states) {
                return RevalidateResult::Skip(
                    text::joined("issue in terminal state: ", current.state.as_str()),
                );
            }
            let mut updated = issue.clone();
            updated.state = current.state.clone();
            RevalidateResult::Current(updated)
        },
    }
}

/// The identifiers of finished issues whose workspaces are removed at the start: those that are not
/// blank.
pub fn cleanup_identifiers(finished: &[BlockerRef]) -> (r: Vec<String>)
    ensures
        text::texts(r@) == Seq::new(
            finished@.len(),
            |i: int| finished@[i]@.identifier,
        ).filter(|identifier: Seq<char>| !text::blank(identifier)),
{
    let ghost all = Seq::new(finished@.len(), |i: int| finished@[i]@.identifier);
    let ghost p = |identifier: Seq<char>| !text::blank(identifier);
    let mut out: Vec<String> = text::no_texts();
    let mut i: usize = 0;
    proof {
        reveal(Seq::filter);
        assert(text::texts(out@) =~= all.take(0).filter(p));
    }
    while i < finished.len()
        invariant
            i <= finished@.len(),
            all == Seq::new(finished@.len(), |k: int| finished@[k]@.identifier),
            p == |identifier: Seq<char>| !text::blank(identifier),
            text::texts(out@) == all.take(i as int).filter(p),
        decreases finished@.len() - i,
    {
        proof {
            reveal(Seq::filter);
            assert(all.take(i + 1).drop_last() =~= all.take(i as int));
            assert(all.take(i + 1).last() == finished@[i as int]@.identifier);
        }
        if !text::is_blank(finished[i].identifier.as_str()) {
            text::push_text(&mut out, finished[i].identifier.clone());
        }
        i = i + 1;
    }
    proof {
        assert(all.take(all.len() as int) =~= all);
    }
    out
}

fn find_issue<'a>(candidates: &'a Vec<Issue>, id: &str) -> (r: Option<&'a Issue>)
    ensures
        match r {
            Some(issue) => issue_with_id(domain::issues(candidates@), 0, id@) == Some(issue@),
            None => issue_with_id(domain::issues(candidates@), 0, id@) is None,
        },
{
    let ghost all = domain::issues(candidates@);
    let mut i: usize = 0;
    while i < candidates.len()
        invariant
            i <= candidates@.len(),
            all == domain::issues(candidates@),
            issue_with_id(all, 0, id@) == issue_with_id(all, i as int, id@),
        decreases candidates@.len() - i,
    {
        if text::same(candidates[i].id.as_str(), id) {
            return Some(&candidates[i]);
        }
        i = i + 1;
    }
    None
}

/// The issues to dispatch in a tick: those that may be dispatched, in dispatch order.
pub open spec fn tick_order(
    s: StateView,
    candidates: Seq<IssueView>,
    agent: AgentConfig,
    active: Seq<Seq<char>>,
    terminal: Seq<Seq<char>>,
    chosen: Seq<IssueView>,
) -> bool {
    dispatch::dispatch_sorted(
        candidates.filter(
            |issue: IssueView|
                dispatch::eligible(
                    issue,
                    s,
                    agent.max_concurrent_agents,
                    agent.max_concurrent_agents_by_state@,
                    active,
                    terminal,
                ),
        ),
        chosen,
    )
}

/// Whether an issue of a tick is dispatched: the tick stops when no slot is left, and passes an issue
/// over when its state has none left.
pub open spec fn gate_of(s: StateView, issue_state: Seq<char>, agent: AgentConfig) -> DispatchGate {
    if dispatch::free_slots(agent.max_concurrent_agents, s.running.dom().len()) == 0 {
        DispatchGate::Stop
    } else if dispatch::free_state_slots(s, issue_state, agent.max_concurrent_agents_by_state@) == Some(
        0u32,
    ) {
        DispatchGate::Skip
    } else {
        DispatchGate::Go
    }
}

/// The position of the next issue of a tick that is dispatched, from a position on.
pub open spec fn next_of(s: StateView, plan: Seq<IssueView>, from: int, agent: AgentConfig) -> Option<
    int,
>
    decreases plan.len() - from,
{
    if from < 0 || from >= plan.len() {
        None
    } else {
        match gate_of(s, plan[from].state, agent) {
            DispatchGate::Stop => None,
            DispatchGate::Skip => next_of(s, plan, from + 1, agent),
            DispatchGate::Go => Some(from),
        }
    }
}

impl Default for Orchestrator {
    fn default() -> (r: Self)
        ensures
            r@ == (ControlView { state: StateView::initial(), timers: Map::empty() }),
    {
        Orchestrator { state: OrchestratorState::default(), retry_queue: RetryQueue::default() }
    }
}

impl Orchestrator {
    /// The state at one point in time, for display.
    pub fn snapshot(&self, now: Timestamp) -> (r: StateSnapshot)
        ensures
            r.generated_at@ == now@,
            r.counts.running == self@.state.running.dom().len(),
            r.counts.claimed == self@.state.claimed.len(),
            r.counts.completed == self@.state.completed.len(),
            r.counts.retrying == self@.state.retrying.dom().len(),
            state::running_listed(r.running@, self@.state.running),
            state::retrying_listed(r.retrying@, self@.state.retrying),
            r.codex_totals == state::with_runtime(
                self@.state.codex_totals,
                state::total_runtime(self@.state.running, now@),
            ),
            crate::json::opt_json(r.rate_limits) == self@.state.codex_rate_limits,
    {
        self.state.snapshot(now)
    }

    /// The issues to dispatch in a tick, in dispatch order.
    pub fn plan_tick<'a>(
        &self,
        candidates: &'a Vec<Issue>,
        agent: &AgentConfig,
        tracker: &TrackerConfig,
    ) -> (r: Vec<&'a Issue>)
        ensures
            tick_order(
                self@.state,
                domain::issues(candidates@),
                *agent,
                text::texts(tracker.active_states@),
                text::texts(tracker.terminal_states@),
                dispatch::refs_view(r@),
            ),
    {
        let mut chosen = dispatch::select_eligible(
            candidates,
            &self.state,
            agent,
            &tracker.active_states,
            &tracker.terminal_states,
        );
        dispatch::sort_candidates(&mut chosen);
        chosen
    }

    /// Whether an issue of a tick is dispatched.
    pub fn dispatch_gate(&self, issue: &Issue, agent: &AgentConfig) -> (r: DispatchGate)
        ensures
            r == gate_of(self@.state, issue@.state, *agent),
    {
        if dispatch::available_global_slots(&self.state, agent.max_concurrent_agents) == 0 {
            return DispatchGate::Stop;
        }
        if let Some(slots) = dispatch::available_state_slots(
            &self.state,
            issue.state.as_str(),
            agent,
        ) {
            if slots == 0 {
                return DispatchGate::Skip;
            }
        }
        DispatchGate::Go
    }

    /// The position of the next issue of a tick that is dispatched, from a position on.
    pub fn next_dispatch(&self, plan: &[&Issue], from: usize, agent: &AgentConfig) -> (r: Option<
        usize,
    >)
        ensures
            match r {
                Some(i) => next_of(self@.state, dispatch::refs_view(plan@), from as int, *agent)
                    == Some(i as int),
                None => next_of(self@.state, dispatch::refs_view(plan@), from as int, *agent)
                    is None,
            },
    {
        let ghost all = dispatch::refs_view(plan@);
        let mut i: usize = from;
        while i < plan.len()
            invariant
                all == dispatch::refs_view(plan@),
                next_of(self@.state, all, from as int, *agent) == next_of(
                    self@.state,
                    all,
                    i as int,
                    *agent,
                ),
            decreases plan@.len() - i,
        {
            match self.dispatch_gate(plan[i], agent) {
                DispatchGate::Stop => {
                    return None;
                },
                DispatchGate::Skip => {
                    i = i + 1;
                },
                DispatchGate::Go => {
                    return Some(i);
                },
            }
        }
        None
    }

    /// Starts a session on an issue and hands out the host that it runs on.
    pub fn dispatch_issue(
        &mut self,
        issue: &Issue,
        attempt: Option<u32>,
        preferred_worker_host: Option<&str>,
        worker: &WorkerConfig,
        agent: &AgentConfig,
        workspace_path: &str,
        now: Timestamp,
    ) -> (r: Option<String>)
        ensures
            dispatch::host_chosen(
                old(self)@.state,
                text::texts(worker.ssh_hosts@),
                dispatch::host_limit(*worker, *agent),
                text::opt_str(preferred_worker_host),
                text::opt_text(r),
            ),
            final(self)@ == old(self)@.dispatch(
                (SessionView {
                    session_id: Seq::empty(),
                    issue_id: issue@.id,
                    issue_identifier: issue@.identifier,
                    issue_state: issue@.state,
                    worker_host: text::opt_text(r),
                    workspace_path: workspace_path@,
                    started_at: now@,
                    turn_count: 0,
                    last_codex_timestamp: None,
                    tokens: TokenUsage { input_tokens: 0, output_tokens: 0, total_tokens: 0 },
                }),
                match attempt {
                    Some(n) => n,
                    None => 0,
                },
            ),
    {
        let host = dispatch::select_worker_host(&self.state, worker, agent, preferred_worker_host);
        let id = issue.id.as_str();
        let _ = self.retry_queue.cancel(id);
        self.state.claim_issue(id);
        self.state.set_retry_attempt(
            id,
            match attempt {
                Some(n) => n,
                None => 0,
            },
        );
        self.state.clear_retry_entry(id);
        self.state.add_running(
            LiveSession {
                session_id: String::new(),
                issue_id: issue.id.clone(),
                issue_identifier: issue.identifier.clone(),
                issue_state: issue.state.clone(),
                worker_host: text::clone_opt(&host),
                workspace_path: workspace_path.to_owned(),
                started_at: now,
                turn_count: 0,
                last_codex_timestamp: None,
                tokens: TokenUsage { input_tokens: 0, output_tokens: 0, total_tokens: 0 },
            },
        );
        host
    }

    /// Schedules a retry and hands out its delay.
    pub fn schedule_retry(
        &mut self,
        issue_id: &str,
        issue_identifier: &str,
        attempt: u32,
        outcome: &WorkerOutcome,
        reason: Option<&str>,
        worker_host: Option<String>,
        max_backoff_ms: u64,
        clock: &Clock,
    ) -> (r: u64)
        requires
            can_wait(*clock, retry::retry_delay(outcome@, attempt, max_backoff_ms)),
        ensures
            r == retry::retry_delay(outcome@, attempt, max_backoff_ms),
            final(self)@ == old(self)@.schedule(
                (RetryView {
                    issue_id: issue_id@,
                    issue_identifier: issue_identifier@,
                    attempt,
                    scheduled_at: clock.now@ + r * 1_000_000,
                    reason: text::opt_str(reason),
                    worker_host: text::opt_text(worker_host),
                }),
                r,
                *clock,
            ),
    {
        let delay: u64 = retry::compute_retry_delay(outcome, attempt, max_backoff_ms);
        let scheduled_at = clock.now.plus_millis(delay);
        self.state.claim_issue(issue_id);
        self.state.set_retry_attempt(issue_id, attempt);
        self.state.set_retry_entry(
            RetryEntry {
                issue_id: issue_id.to_owned(),
                issue_identifier: issue_identifier.to_owned(),
                attempt,
                scheduled_at,
                reason: match reason {
                    Some(reason) => Some(reason.to_owned()),
                    None => None,
                },
                worker_host,
            },
        );
        let _ = self.retry_queue.schedule(issue_id, attempt, delay, clock.monotonic_ms);
        delay
    }

    /// The delay of the retry that would follow on a worker's end.
    pub fn exit_retry_delay(&self, result: &WorkerResult, max_backoff_ms: u64) -> (r: u64)
        ensures
            r == exit_delay(self@, result@.issue_id, result@.outcome, max_backoff_ms),
    {
        match &result.outcome {
            WorkerOutcome::Normal => retry::compute_retry_delay(&result.outcome, 1, max_backoff_ms),
            WorkerOutcome::Failure(_) => {
                let attempt: u32 = following_attempt(
                    self.state.retry_attempt(result.issue_id.as_str()),
                );
                retry::compute_retry_delay(&result.outcome, attempt, max_backoff_ms)
            },
        }
    }

    /// Takes a worker's end into account and hands out the delay of the retry that follows.
    pub fn handle_worker_exit(
        &mut self,
        result: &WorkerResult,
        max_backoff_ms: u64,
        clock: &Clock,
    ) -> (r: u64)
        requires
            can_wait(
                *clock,
                exit_delay(old(self)@, result@.issue_id, result@.outcome, max_backoff_ms),
            ),
        ensures
            r == exit_delay(old(self)@, result@.issue_id, result@.outcome, max_backoff_ms),
            final(self)@ == after_exit(
                old(self)@,
                result@.issue_id,
                result@.issue_identifier,
                result@.outcome,
                max_backoff_ms,
                *clock,
            ),
    {
        let id = result.issue_id.as_str();
        let host = match self.state.retire(id, clock.now) {
            Some(session) => session.worker_host,
            None => None,
        };
        self.state.release_claim(id);
        match &result.outcome {
            WorkerOutcome::Normal => {
                self.state.mark_completed(id);
                self.schedule_retry(
                    id,
                    result.issue_identifier.as_str(),
                    1,
                    &result.outcome,
                    Some("continuation"),
                    host,
                    max_backoff_ms,
                    clock,
                )
            },
            WorkerOutcome::Failure(reason) => {
                let attempt: u32 = following_attempt(self.state.retry_attempt(id));
                self.schedule_retry(
                    id,
                    result.issue_identifier.as_str(),
                    attempt,
                    &result.outcome,
                    Some(reason.as_str()),
                    host,
                    max_backoff_ms,
                    clock,
                )
            },
        }
    }

    /// Takes a worker's report into account.
    pub fn handle_codex_update(&mut self, update: WorkerUpdate)
        ensures
            final(self)@ == (ControlView {
                state: after_update(old(self)@.state, update@),
                ..old(self)@
            }),
    {
        match update {
            WorkerUpdate::CodexUpdate { issue_id, tokens, rate_limit, timestamp } => {
                self.state.update_session_timestamp(issue_id.as_str(), timestamp);
                self.state.add_session_tokens(issue_id.as_str(), &tokens);
                self.state.add_aggregate_tokens(&tokens);
                self.state.set_rate_limits(rate_limit);
                proof {
                    assert(self@.state =~= after_update(old(self)@.state, update@));
                }
            },
            WorkerUpdate::SessionStarted { issue_id, session_id } => {
                self.state.update_session_started(issue_id.as_str(), session_id.as_str());
            },
            WorkerUpdate::TurnCompleted { issue_id, turn_number: _, outcome: _ } => {
                self.state.increment_turn_count(issue_id.as_str());
            },
        }
    }

    /// Takes the timer of a retry out when it fires, and hands out the attempt that it starts and
    /// the host that it would rather run on.
    pub fn begin_retry(&mut self, issue_id: &str) -> (r: (u32, Option<String>))
        ensures
            r.0 == old(self)@.timer_attempt(issue_id@),
            text::opt_text(r.1) == old(self)@.retry_host(issue_id@),
            final(self)@ == old(self)@.fire(issue_id@),
    {
        let attempt: u32 = match self.retry_queue.attempt(issue_id) {
            Some(attempt) => attempt,
            None => {
                let attempt: u32 = self.state.retry_attempt(issue_id);
                if attempt == 0 {
                    1
                } else {
                    attempt
                }
            },
        };
        let host = match self.state.retry_entry(issue_id) {
            Some(entry) => entry.worker_host,
            None => None,
        };
        let _ = self.retry_queue.remove(issue_id);
        self.state.release_claim(issue_id);
        (attempt, host)
    }

    fn requeue(
        &mut self,
        issue_id: &str,
        identifier: &str,
        attempt: u32,
        reason: &str,
        host: Option<String>,
        max_backoff_ms: u64,
        clock: &Clock,
    ) -> (r: u64)
        requires
            can_wait(*clock, requeue_delay(attempt, max_backoff_ms)),
        ensures
            r == requeue_delay(attempt, max_backoff_ms),
            final(self)@ == after_verdict(
                old(self)@,
                issue_id@,
                attempt,
                text::opt_text(host),
                RetryVerdict::Requeue { identifier: identifier@, reason: reason@ },
                max_backoff_ms,
                *clock,
            ),
    {
        let outcome = WorkerOutcome::Failure(reason.to_owned());
        self.schedule_retry(
            issue_id,
            identifier,
            following_attempt(attempt),
            &outcome,
            Some(reason),
            host,
            max_backoff_ms,
            clock,
        )
    }

    /// Tells whether a retry whose timer has fired will have to wait again, given the candidates that
    /// the tracker names.
    pub fn retry_waits(
        &self,
        issue_id: &str,
        candidates: Option<&Vec<Issue>>,
        agent: &AgentConfig,
        tracker: &TrackerConfig,
    ) -> (r: bool)
        ensures
            r == (retry_verdict(
                self@,
                issue_id@,
                match candidates {
                    Some(issues) => Some(domain::issues(issues@)),
                    None => None,
                },
                *agent,
                text::texts(tracker.active_states@),
                text::texts(tracker.terminal_states@),
            ) is Requeue),
    {
        let candidates = match candidates {
            Some(candidates) => candidates,
            None => {
                return true;
            },
        };
        let issue = match find_issue(candidates, issue_id) {
            Some(issue) => issue,
            None => {
                return false;
            },
        };
        if dispatch::is_eligible(
            issue,
            &self.state,
            agent,
            &tracker.active_states,
            &tracker.terminal_states,
        ) {
            return false;
        }
        match self.dispatch_gate(issue, agent) {
            DispatchGate::Go => false,
            _ => true,
        }
    }

    /// Decides what becomes of a retry whose timer has fired, given the candidates that the tracker
    /// names. An issue that is to be dispatched is handed out.
    pub fn finish_retry(
        &mut self,
        issue_id: &str,
        attempt: u32,
        preferred_worker_host: Option<String>,
        candidates: Option<&Vec<Issue>>,
        agent: &AgentConfig,
        tracker: &TrackerConfig,
        clock: &Clock,
    ) -> (r: RetryDecision)
        requires
            retry_verdict(
                old(self)@,
                issue_id@,
                match candidates {
                    Some(issues) => Some(domain::issues(issues@)),
                    None => None,
                },
                *agent,
                text::texts(tracker.active_states@),
                text::texts(tracker.terminal_states@),
            ) is Requeue ==> can_wait(
                *clock,
                requeue_delay(attempt, agent.max_retry_backoff_ms),
            ),
        ensures
            ({
                let verdict = retry_verdict(
                    old(self)@,
                    issue_id@,
                    match candidates {
                        Some(issues) => Some(domain::issues(issues@)),
                        None => None,
                    },
                    *agent,
                    text::texts(tracker.active_states@),
                    text::texts(tracker.terminal_states@),
                );
                &&& final(self)@ == after_verdict(
                    old(self)@,
                    issue_id@,
                    attempt,
                    text::opt_text(preferred_worker_host),
                    verdict,
                    agent.max_retry_backoff_ms,
                    *clock,
                )
                &&& match verdict {
                    RetryVerdict::Dispatch { issue } => r matches RetryDecision::Dispatch {
                        issue: chosen,
                        attempt: next,
                    } && chosen@ == issue && next == at_least_one(attempt),
                    RetryVerdict::Requeue { .. } => r matches RetryDecision::Scheduled { delay_ms }
                        && delay_ms == requeue_delay(attempt, agent.max_retry_backoff_ms),
                    RetryVerdict::Forget => r is Forgotten,
                }
            }),
    {
        let candidates = match candidates {
            Some(candidates) => candidates,
            None => {
                let identifier = match self.state.retry_entry(issue_id) {
                    Some(entry) => entry.issue_identifier,
                    None => issue_id.to_owned(),
                };
                let delay_ms: u64 = self.requeue(
                    issue_id,
                    identifier.as_str(),
                    attempt,
                    "retry poll failed",
                    preferred_worker_host,
                    agent.max_retry_backoff_ms,
                    clock,
                );
                return RetryDecision::Scheduled { delay_ms };
            },
        };
        let issue = match find_issue(candidates, issue_id) {
            Some(issue) => issue,
            None => {
                self.state.clear_retry_attempt(issue_id);
                return RetryDecision::Forgotten;
            },
        };
        if dispatch::is_eligible(
            issue,
            &self.state,
            agent,
            &tracker.active_states,
            &tracker.terminal_states,
        ) {
            let next: u32 = if attempt == 0 {
                1
            } else {
                attempt
            };
            return RetryDecision::Dispatch { issue: issue.clone(), attempt: next };
        }
        match self.dispatch_gate(issue, agent) {
            DispatchGate::Go => {
                self.state.clear_retry_attempt(issue_id);
                RetryDecision::Forgotten
            },
            _ => {
                let delay_ms: u64 = self.requeue(
                    issue_id,
                    issue.identifier.as_str(),
                    attempt,
                    "no available orchestrator slots",
                    preferred_worker_host,
                    agent.max_retry_backoff_ms,
                    clock,
                );
                RetryDecision::Scheduled { delay_ms }
            },
        }
    }

    /// Drops all timers at the end.
    pub fn shutdown(&mut self)
        ensures
            final(self)@ == (ControlView { timers: Map::empty(), ..old(self)@ }),
    {
        self.retry_queue.clear();
    }
}

/// What holds of the orchestrator at every moment: sessions and retries are filed under their
/// issues, what runs is claimed, and what runs has no timer.
pub open spec fn sound(c: ControlView) -> bool {
    &&& c.state.keyed()
    &&& forall|id: Seq<char>| #[trigger]
        c.state.running.contains_key(id) ==> c.state.claimed.contains(id)
            && !c.timers.contains_key(id)
}

/// The orchestrator is sound at the start.
pub proof fn lemma_sound_at_start()
    ensures
        sound(ControlView { state: StateView::initial(), timers: Map::empty() }),
{
}

/// A dispatch keeps the orchestrator sound, and the issue then runs, is claimed and waits for
/// nothing.
pub proof fn lemma_dispatch_is_sound(c: ControlView, session: SessionView, attempt: u32)
    requires
        sound(c),
    ensures
        sound(c.dispatch(session, attempt)),
        c.dispatch(session, attempt).state.running.contains_key(session.issue_id),
        c.dispatch(session, attempt).state.claimed.contains(session.issue_id),
        !c.dispatch(session, attempt).state.retrying.contains_key(session.issue_id),
        !c.dispatch(session, attempt).timers.contains_key(session.issue_id),
{
}

/// A worker's end keeps the orchestrator sound; the issue no longer runs, stays claimed, and has a
/// timer.
pub proof fn lemma_exit_is_sound(
    c: ControlView,
    id: Seq<char>,
    identifier: Seq<char>,
    outcome: WorkerOutcomeView,
    max_backoff_ms: u64,
    clock: Clock,
)
    requires
        sound(c),
    ensures
        ({
            let after = after_exit(c, id, identifier, outcome, max_backoff_ms, clock);
            &&& sound(after)
            &&& !after.state.running.contains_key(id)
            &&& after.state.claimed.contains(id)
            &&& after.state.retrying.contains_key(id)
            &&& after.timers.contains_key(id)
        }),
{
}

/// A worker's report keeps the orchestrator sound and neither starts nor ends a session.
pub proof fn lemma_update_is_sound(c: ControlView, update: UpdateView)
    requires
        sound(c),
    ensures
        sound(ControlView { state: after_update(c.state, update), ..c }),
        after_update(c.state, update).running.dom() == c.state.running.dom(),
{
    assert(after_update(c.state, update).running.dom() =~= c.state.running.dom());
}

/// The timer of an issue that does not run fires, and what becomes of the retry is decided: the
/// orchestrator stays sound.
pub proof fn lemma_retry_is_sound(
    c: ControlView,
    id: Seq<char>,
    attempt: u32,
    host: Option<Seq<char>>,
    verdict: RetryVerdict,
    max_backoff_ms: u64,
    clock: Clock,
)
    requires
        sound(c),
        !c.state.running.contains_key(id),
    ensures
        sound(c.fire(id)),
        sound(after_verdict(c.fire(id), id, attempt, host, verdict, max_backoff_ms, clock)),
{
}

/// What the tracker reports keeps the orchestrator sound.
pub proof fn lemma_reports_are_sound(
    c: ControlView,
    reports: Seq<BlockerView>,
    active: Seq<Seq<char>>,
    terminal: Seq<Seq<char>>,
    now: int,
)
    requires
        sound(c),
    ensures
        sound(ControlView { state: c.state.after_reports(reports, active, terminal, now), ..c }),
    decreases reports.len(),
{
    if reports.len() > 0 {
        lemma_reports_are_sound(c, reports.drop_last(), active, terminal, now);
    }
}

/// Giving stalled sessions up keeps the orchestrator sound.
pub proof fn lemma_reaping_is_sound(c: ControlView, ids: Seq<Seq<char>>, now: int)
    requires
        sound(c),
    ensures
        sound(ControlView { state: c.state.drop_sessions(ids, now), ..c }),
    decreases ids.len(),
{
    if ids.len() > 0 {
        lemma_reaping_is_sound(c, ids.drop_last(), now);
    }
}

/// An issue that may be dispatched finds a free slot: after it the running sessions are no more than
/// allowed.
pub proof fn lemma_dispatch_respects_slots(
    c: ControlView,
    session: SessionView,
    attempt: u32,
    max_agents: u32,
)
    requires
        dispatch::free_slots(max_agents, c.state.running.dom().len()) > 0,
        c.state.running.dom().finite(),
    ensures
        c.dispatch(session, attempt).state.running.dom().len() <= max_agents,
{
    let before = c.state.running.dom();
    let after = c.dispatch(session, attempt).state.running.dom();
    assert(after =~= before.insert(session.issue_id));
}

/// Sessions start one after another, as in a tick.
pub open spec fn dispatch_all(c: ControlView, sessions: Seq<SessionView>) -> ControlView
    decreases sessions.len(),
{
    if sessions.len() == 0 {
        c
    } else {
        dispatch_all(c, sessions.drop_last()).dispatch(sessions.last(), 0)
    }
}

/// Every one of the sessions finds a free slot when its turn comes.
pub open spec fn slots_found(c: ControlView, sessions: Seq<SessionView>, max_agents: u32) -> bool
    decreases sessions.len(),
{
    sessions.len() > 0 ==> slots_found(c, sessions.drop_last(), max_agents)
        && dispatch::free_slots(
        max_agents,
        dispatch_all(c, sessions.drop_last()).state.running.dom().len(),
    ) > 0
}

/// A whole tick keeps the orchestrator sound and runs no more sessions than allowed, or than ran
/// before it where that were more; what ran before it still runs, and so does every issue that it
/// started on.
pub proof fn lemma_tick_respects_slots(
    c: ControlView,
    sessions: Seq<SessionView>,
    max_agents: u32,
)
    requires
        sound(c),
        c.state.running.dom().finite(),
        slots_found(c, sessions, max_agents),
    ensures
        sound(dispatch_all(c, sessions)),
        dispatch_all(c, sessions).state.running.dom().finite(),
        dispatch_all(c, sessions).state.running.dom().len() <= (if c.state.running.dom().len()
            > max_agents {
            c.state.running.dom().len()
        } else {
            max_agents as nat
        }),
        c.state.running.dom().subset_of(dispatch_all(c, sessions).state.running.dom()),
        forall|i: int|
            0 <= i < sessions.len() ==> dispatch_all(c, sessions).state.running.contains_key(
                (#[trigger] sessions[i]).issue_id,
            ),
    decreases sessions.len(),
{
    if sessions.len() > 0 {
        let earlier = sessions.drop_last();
        let before = dispatch_all(c, earlier);
        lemma_tick_respects_slots(c, earlier, max_agents);
        lemma_dispatch_is_sound(before, sessions.last(), 0);
        lemma_dispatch_respects_slots(before, sessions.last(), 0, max_agents);
        assert forall|i: int| 0 <= i < sessions.len() implies dispatch_all(
            c,
            sessions,
        ).state.running.contains_key((#[trigger] sessions[i]).issue_id) by {
            if i < earlier.len() {
                assert(earlier[i] == sessions[i]);
            }
        }
    }
}

proof fn lemma_one_more(
    running: Map<Seq<char>, SessionView>,
    session: SessionView,
    p: spec_fn(SessionView) -> bool,
)
    requires
        running.dom().finite(),
    ensures
        crate::collections::count_where(running.insert(session.issue_id, session), p)
            <= crate::collections::count_where(running, p) + 1,
{
    let id = session.issue_id;
    let after = running.insert(id, session);
    let q = |key: Seq<char>| p(running[key]);
    let q_after = |key: Seq<char>| p(after[key]);
    let before_set = running.dom().filter(q);
    let after_set = after.dom().filter(q_after);
    assert(after_set.subset_of(before_set.insert(id)));
    vstd::set_lib::lemma_len_subset(after_set, before_set.insert(id));
}

/// A dispatch into a state with a free slot leaves no more sessions in the state than allowed.
pub proof fn lemma_dispatch_respects_state_slots(
    c: ControlView,
    session: SessionView,
    attempt: u32,
    limits: Map<Seq<char>, u32>,
)
    requires
        c.state.running.dom().finite(),
        limits.contains_key(text::state_key(session.issue_state)),
        dispatch::free_state_slots(c.state, session.issue_state, limits) != Some(0u32),
    ensures
        c.dispatch(session, attempt).state.count_in_state(session.issue_state)
            <= limits[text::state_key(session.issue_state)],
{
    lemma_one_more(
        c.state.running,
        session,
        |s: SessionView| text::state_key(s.issue_state) == text::state_key(session.issue_state),
    );
}

/// A dispatch onto a host that was chosen leaves no more sessions on it than allowed.
pub proof fn lemma_dispatch_respects_host(
    c: ControlView,
    session: SessionView,
    attempt: u32,
    hosts: Seq<Seq<char>>,
    limit: u32,
    preferred: Option<Seq<char>>,
    host: Seq<char>,
)
    requires
        c.state.running.dom().finite(),
        dispatch::host_chosen(c.state, hosts, limit, preferred, Some(host)),
        session.worker_host == Some(host),
    ensures
        c.dispatch(session, attempt).state.count_on_host(host) <= limit,
{
    lemma_one_more(c.state.running, session, |s: SessionView| s.worker_host == Some(host));
}

/// Claiming and releasing an issue that was free leaves everything as it was.
pub proof fn lemma_claim_and_release(s: StateView, id: Seq<char>)
    requires
        !s.claimed.contains(id),
    ensures
        s.claim(id).release(id) == s,
        s.claim(id).claimed.contains(id),
{
    assert(s.claim(id).release(id).claimed =~= s.claimed);
}

/// A retry that is scheduled keeps its issue claimed, is remembered as it was given, and has a timer
/// that fires when its delay is over; what runs, and what is known of any other issue, stays as it was.
pub proof fn lemma_scheduled_retry_waits(
    c: ControlView,
    entry: RetryView,
    delay_ms: u64,
    clock: Clock,
    other: Seq<char>,
)
    requires
        other != entry.issue_id,
    ensures
        ({
            let after = c.schedule(entry, delay_ms, clock);
            let id = entry.issue_id;
            &&& after.state.claimed.contains(id)
            &&& after.state.attempt(id) == entry.attempt
            &&& after.state.retrying.contains_key(id) && after.state.retrying[id] == entry
            &&& after.timers.contains_key(id)
            &&& after.timers[id].attempt == entry.attempt
            &&& after.timers[id].fire_at_ms - clock.monotonic_ms == delay_ms
            &&& after.state.running == c.state.running
            &&& after.state.completed == c.state.completed
            &&& after.state.codex_totals == c.state.codex_totals
            &&& after.state.codex_rate_limits == c.state.codex_rate_limits
            &&& after.state.claimed.contains(other) == c.state.claimed.contains(other)
            &&& after.state.attempt(other) == c.state.attempt(other)
            &&& after.timers.contains_key(other) == c.timers.contains_key(other)
            &&& c.timers.contains_key(other) ==> after.timers[other] == c.timers[other]
            &&& after.state.retrying.contains_key(other) == c.state.retrying.contains_key(other)
            &&& c.state.retrying.contains_key(other) ==> after.state.retrying[other]
                == c.state.retrying[other]
        }),
{
}

/// A dispatch starts the session that it is given, on its issue alone: the issue runs it, is claimed,
/// is at the given attempt and waits for nothing, and what is known of any other issue stays as it was.
pub proof fn lemma_dispatch_starts_the_session(
    c: ControlView,
    session: SessionView,
    attempt: u32,
    other: Seq<char>,
)
    requires
        other != session.issue_id,
    ensures
        ({
            let after = c.dispatch(session, attempt);
            let id = session.issue_id;
            &&& after.state.running.contains_key(id) && after.state.running[id] == session
            &&& after.state.claimed.contains(id)
            &&& after.state.attempt(id) == attempt
            &&& !after.state.retrying.contains_key(id)
            &&& !after.timers.contains_key(id)
            &&& after.state.running.contains_key(other) == c.state.running.contains_key(other)
            &&& c.state.running.contains_key(other) ==> after.state.running[other]
                == c.state.running[other]
            &&& after.state.claimed.contains(other) == c.state.claimed.contains(other)
            &&& after.state.attempt(other) == c.state.attempt(other)
            &&& after.state.retrying.contains_key(other) == c.state.retrying.contains_key(other)
            &&& after.timers.contains_key(other) == c.timers.contains_key(other)
            &&& c.timers.contains_key(other) ==> after.timers[other] == c.timers[other]
            &&& after.state.completed == c.state.completed
            &&& after.state.codex_totals == c.state.codex_totals
        }),
{
}

/// A timer that fires is gone, and the issue is free again; the attempt that it starts is the one that
/// was scheduled, on the host that was scheduled. No other timer or claim changes.
pub proof fn lemma_timer_fires(
    c: ControlView,
    entry: RetryView,
    delay_ms: u64,
    clock: Clock,
    other: Seq<char>,
)
    requires
        other != entry.issue_id,
    ensures
        ({
            let waiting = c.schedule(entry, delay_ms, clock);
            let id = entry.issue_id;
            let fired = waiting.fire(id);
            &&& waiting.timer_attempt(id) == entry.attempt
            &&& waiting.retry_host(id) == entry.worker_host
            &&& waiting.retry_identifier(id) == entry.issue_identifier
            &&& !fired.timers.contains_key(id)
            &&& !fired.state.claimed.contains(id)
            &&& fired.timers.contains_key(other) == c.timers.contains_key(other)
            &&& fired.state.claimed.contains(other) == c.state.claimed.contains(other)
            &&& fired.state.running == c.state.running
            &&& fired.state.attempt(id) == entry.attempt
            &&& fired.state.retrying == waiting.state.retrying
        }),
{
}

/// A timer that is not known starts the attempt that is remembered, the first one at least, on any
/// host, under the id of the issue.
pub proof fn lemma_unknown_timer(c: ControlView, id: Seq<char>)
    ensures
        !c.timers.contains_key(id) && c.state.retry_attempts.contains_key(id)
            && c.state.retry_attempts[id] > 0 ==> c.timer_attempt(id) == c.state.retry_attempts[id],
        !c.timers.contains_key(id) && !c.state.retry_attempts.contains_key(id) ==> c.timer_attempt(
            id,
        ) == 1,
        !c.timers.contains_key(id) ==> c.timer_attempt(id) >= 1,
        !c.state.retrying.contains_key(id) ==> c.retry_host(id) is None && c.retry_identifier(id)
            == id,
{
}

/// Attempts are counted one by one, from the first one on.
pub proof fn lemma_attempts_go_up(attempt: u32)
    ensures
        attempt < u32::MAX ==> following(attempt) == attempt + 1,
        following(attempt) >= attempt,
        attempt >= 1 ==> at_least_one(attempt) == attempt,
        at_least_one(0) == 1,
{
}

/// A worker that ends normally completes its issue, which is looked at again after a second, as a
/// first attempt, on the host that it ran on.
pub proof fn lemma_normal_exit_continues(
    c: ControlView,
    id: Seq<char>,
    identifier: Seq<char>,
    max_backoff_ms: u64,
    clock: Clock,
    other: Seq<char>,
)
    requires
        other != id,
    ensures
        ({
            let after = after_exit(
                c,
                id,
                identifier,
                WorkerOutcomeView::Normal,
                max_backoff_ms,
                clock,
            );
            &&& exit_delay(c, id, WorkerOutcomeView::Normal, max_backoff_ms) == 1_000
            &&& after.state.completed.contains(id)
            &&& !after.state.running.contains_key(id)
            &&& after.state.claimed.contains(id)
            &&& after.state.attempt(id) == 1
            &&& after.timers[id].attempt == 1
            &&& after.timers[id].fire_at_ms == clock.monotonic_ms + 1_000
            &&& after.state.retrying[id].issue_identifier == identifier
            &&& after.state.retrying[id].reason == Some("continuation"@)
            &&& after.state.retrying[id].scheduled_at == clock.now@ + 1_000_000_000
            &&& c.state.running.contains_key(id) ==> after.state.retrying[id].worker_host
                == c.state.running[id].worker_host
            &&& !c.state.running.contains_key(id) ==> after.state.retrying[id].worker_host is None
            &&& after.state.running.contains_key(other) == c.state.running.contains_key(other)
            &&& after.state.claimed.contains(other) == c.state.claimed.contains(other)
            &&& after.state.completed.contains(other) == c.state.completed.contains(other)
            &&& after.timers.contains_key(other) == c.timers.contains_key(other)
        }),
{
}

/// A worker that fails does not complete its issue, which is tried once more, as the next attempt, for
/// the reason of the failure and on the host that it ran on, after the delay of that attempt.
pub proof fn lemma_failed_exit_retries(
    c: ControlView,
    id: Seq<char>,
    identifier: Seq<char>,
    reason: Seq<char>,
    max_backoff_ms: u64,
    clock: Clock,
    other: Seq<char>,
)
    requires
        other != id,
        c.state.attempt(id) < u32::MAX,
    ensures
        ({
            let failure = WorkerOutcomeView::Failure(reason);
            let after = after_exit(c, id, identifier, failure, max_backoff_ms, clock);
            let delay = exit_delay(c, id, failure, max_backoff_ms);
            let next = (c.state.attempt(id) + 1) as u32;
            &&& delay == retry::retry_delay(failure, next, max_backoff_ms)
            &&& after.state.completed == c.state.completed
            &&& !after.state.running.contains_key(id)
            &&& after.state.claimed.contains(id)
            &&& after.state.attempt(id) == next
            &&& after.timers[id].attempt == next
            &&& after.timers[id].fire_at_ms == clock.monotonic_ms + delay
            &&& after.state.retrying[id].attempt == next
            &&& after.state.retrying[id].issue_id == id
            &&& after.state.retrying[id].issue_identifier == identifier
            &&& after.state.retrying[id].reason == Some(reason)
            &&& after.state.retrying[id].scheduled_at == clock.now@ + delay * 1_000_000
            &&& c.state.running.contains_key(id) ==> after.state.retrying[id].worker_host
                == c.state.running[id].worker_host
            &&& after.state.running.contains_key(other) == c.state.running.contains_key(other)
            &&& after.state.claimed.contains(other) == c.state.claimed.contains(other)
            &&& after.timers.contains_key(other) == c.timers.contains_key(other)
        }),
{
}

/// A worker that ends adds the time that it ran to the running time, and touches no token count.
pub proof fn lemma_exit_counts_the_time(
    c: ControlView,
    id: Seq<char>,
    identifier: Seq<char>,
    outcome: WorkerOutcomeView,
    max_backoff_ms: u64,
    clock: Clock,
)
    ensures
        ({
            let after = after_exit(c, id, identifier, outcome, max_backoff_ms, clock).state;
            let elapsed = clock.now@ - c.state.running[id].started_at;
            &&& c.state.running.contains_key(id) && elapsed >= 0 && c.state.codex_totals.millis_running
                + elapsed / 1_000_000 <= u64::MAX ==> after.codex_totals.millis_running
                == c.state.codex_totals.millis_running + elapsed / 1_000_000
            &&& !c.state.running.contains_key(id) ==> after.codex_totals == c.state.codex_totals
            &&& after.codex_totals.input_tokens == c.state.codex_totals.input_tokens
            &&& after.codex_totals.output_tokens == c.state.codex_totals.output_tokens
            &&& after.codex_totals.total_tokens == c.state.codex_totals.total_tokens
            &&& after.codex_rate_limits == c.state.codex_rate_limits
        }),
{
}

/// Tokens that are reported for a session are added to it and to the totals, and the report's time and
/// rate limits are remembered; no other session changes.
pub proof fn lemma_report_is_counted(
    s: StateView,
    id: Seq<char>,
    tokens: TokenUsage,
    rate_limit: Option<crate::json::JsonView>,
    timestamp: int,
    other: Seq<char>,
)
    ensures
        ({
            let after = after_update(
                s,
                UpdateView::CodexUpdate { issue_id: id, tokens, rate_limit, timestamp },
            );
            let before = s.running[id].tokens;
            let now = after.running[id].tokens;
            let totals = s.codex_totals;
            &&& after.running.contains_key(other) == s.running.contains_key(other)
            &&& other != id && s.running.contains_key(other) ==> after.running[other]
                == s.running[other]
            &&& s.running.contains_key(id) ==> {
                &&& after.running[id].last_codex_timestamp == Some(timestamp)
                &&& before.input_tokens + tokens.input_tokens <= u64::MAX ==> now.input_tokens
                    == before.input_tokens + tokens.input_tokens
                &&& before.output_tokens + tokens.output_tokens <= u64::MAX ==> now.output_tokens
                    == before.output_tokens + tokens.output_tokens
                &&& before.total_tokens + tokens.total_tokens <= u64::MAX ==> now.total_tokens
                    == before.total_tokens + tokens.total_tokens
                &&& after.running[id].turn_count == s.running[id].turn_count
                &&& after.running[id].session_id == s.running[id].session_id
                &&& after.running[id].issue_state == s.running[id].issue_state
                &&& after.running[id].started_at == s.running[id].started_at
                &&& after.running[id].worker_host == s.running[id].worker_host
            }
            &&& totals.input_tokens + tokens.input_tokens <= u64::MAX
                ==> after.codex_totals.input_tokens == totals.input_tokens + tokens.input_tokens
            &&& totals.output_tokens + tokens.output_tokens <= u64::MAX
                ==> after.codex_totals.output_tokens == totals.output_tokens + tokens.output_tokens
            &&& totals.total_tokens + tokens.total_tokens <= u64::MAX
                ==> after.codex_totals.total_tokens == totals.total_tokens + tokens.total_tokens
            &&& after.codex_totals.millis_running == totals.millis_running
            &&& after.codex_rate_limits == rate_limit
            &&& after.claimed == s.claimed
            &&& after.retrying == s.retrying
            &&& after.completed == s.completed
        }),
{
}

/// A session that starts is known by its name from then on, and a turn that is over is counted, each in
/// its own session alone.
pub proof fn lemma_session_is_followed(
    s: StateView,
    id: Seq<char>,
    session_id: Seq<char>,
    turn: UpdateView,
    other: Seq<char>,
)
    requires
        s.running.contains_key(id),
        turn is TurnCompleted && turn->TurnCompleted_issue_id == id,
    ensures
        ({
            let named = after_update(s, UpdateView::SessionStarted { issue_id: id, session_id });
            let counted = after_update(s, turn);
            &&& named.running[id].session_id == session_id
            &&& named.running[id].turn_count == s.running[id].turn_count
            &&& named.running[id].tokens == s.running[id].tokens
            &&& s.running[id].turn_count < u32::MAX ==> counted.running[id].turn_count
                == s.running[id].turn_count + 1
            &&& counted.running[id].session_id == s.running[id].session_id
            &&& counted.running[id].tokens == s.running[id].tokens
            &&& counted.running[id].started_at == s.running[id].started_at
            &&& other != id && s.running.contains_key(other) ==> named.running[other]
                == s.running[other] && counted.running[other] == s.running[other]
            &&& named.codex_totals == s.codex_totals
            &&& counted.codex_totals == s.codex_totals
            &&& named.codex_rate_limits == s.codex_rate_limits
            &&& counted.codex_rate_limits == s.codex_rate_limits
        }),
{
}

/// An issue is found by its id, and the first of several is.
pub proof fn lemma_issue_is_found(candidates: Seq<IssueView>, from: int, id: Seq<char>, k: int)
    requires
        0 <= from <= k < candidates.len(),
        candidates[k].id == id,
        forall|i: int| from <= i < k ==> (#[trigger] candidates[i]).id != id,
    ensures
        issue_with_id(candidates, from, id) == Some(candidates[k]),
    decreases k - from,
{
    if from < k {
        lemma_issue_is_found(candidates, from + 1, id, k);
    }
}

/// An issue that no candidate is, is not found.
pub proof fn lemma_no_issue_is_found(candidates: Seq<IssueView>, from: int, id: Seq<char>)
    requires
        0 <= from,
        forall|i: int| 0 <= i < candidates.len() ==> (#[trigger] candidates[i]).id != id,
    ensures
        issue_with_id(candidates, from, id) is None,
    decreases candidates.len() - from,
{
    if from < candidates.len() {
        lemma_no_issue_is_found(candidates, from + 1, id);
    }
}

/// A retry without an answer of the tracker waits again, under the identifier that it waited under.
pub proof fn lemma_unanswered_retry_waits(
    c: ControlView,
    entry: RetryView,
    agent: AgentConfig,
    active: Seq<Seq<char>>,
    terminal: Seq<Seq<char>>,
)
    requires
        c.state.retrying.contains_key(entry.issue_id),
        c.state.retrying[entry.issue_id] == entry,
    ensures
        retry_verdict(c, entry.issue_id, None, agent, active, terminal) == (RetryVerdict::Requeue {
            identifier: entry.issue_identifier,
            reason: "retry poll failed"@,
        }),
{
}

/// A retry of an issue that the tracker no longer names is forgotten.
pub proof fn lemma_vanished_retry_is_forgotten(
    c: ControlView,
    id: Seq<char>,
    candidates: Seq<IssueView>,
    agent: AgentConfig,
    active: Seq<Seq<char>>,
    terminal: Seq<Seq<char>>,
)
    requires
        forall|i: int| 0 <= i < candidates.len() ==> (#[trigger] candidates[i]).id != id,
    ensures
        retry_verdict(c, id, Some(candidates), agent, active, terminal) is Forget,
{
    lemma_no_issue_is_found(candidates, 0, id);
}

/// A retry of an issue that the tracker names is dispatched if there is a slot for it and it is still
/// to be worked on; with no slot left, in all or in its state, it waits again under its identifier; and
/// with a slot, but in no active state or in a finished one, it is forgotten.
pub proof fn lemma_named_retry_is_decided(
    c: ControlView,
    candidates: Seq<IssueView>,
    k: int,
    agent: AgentConfig,
    active: Seq<Seq<char>>,
    terminal: Seq<Seq<char>>,
)
    requires
        0 <= k < candidates.len(),
        forall|i: int| 0 <= i < k ==> (#[trigger] candidates[i]).id != candidates[k].id,
    ensures
        ({
            let issue = candidates[k];
            let verdict = retry_verdict(c, issue.id, Some(candidates), agent, active, terminal);
            let key = text::lower(text::trimmed(issue.state));
            let limits = agent.max_concurrent_agents_by_state@;
            let slot = c.state.running.dom().len() < agent.max_concurrent_agents && (
            limits.contains_key(key) ==> c.state.count_in_state(issue.state) < limits[key]);
            let named = text::trimmed(issue.id).len() > 0 && text::trimmed(issue.identifier).len() > 0
                && text::trimmed(issue.title).len() > 0 && text::trimmed(issue.state).len() > 0;
            let blocked = key == "todo"@ && !(forall|i: int|
                0 <= i < issue.blocked_by.len() ==> text::state_listed(
                    (#[trigger] issue.blocked_by[i]).state,
                    terminal,
                ));
            let wanted = named && text::state_listed(issue.state, active) && !text::state_listed(
                issue.state,
                terminal,
            ) && !c.state.claimed.contains(issue.id) && !blocked;
            &&& slot && wanted ==> verdict == (RetryVerdict::Dispatch { issue })
            &&& slot && !wanted ==> verdict is Forget
            &&& !slot ==> verdict == (RetryVerdict::Requeue {
                identifier: issue.identifier,
                reason: "no available orchestrator slots"@,
            })
        }),
{
    let issue = candidates[k];
    lemma_issue_is_found(candidates, 0, issue.id, k);
    text::lemma_trimmed_empty(issue.id);
    text::lemma_trimmed_empty(issue.identifier);
    text::lemma_trimmed_empty(issue.title);
    text::lemma_trimmed_empty(issue.state);
}

/// A retry that waits again does so for its next attempt, on the host that it would rather run on; one
/// that is forgotten leaves nothing behind; and a dispatch is left to be started.
pub proof fn lemma_verdict_is_carried_out(
    c: ControlView,
    id: Seq<char>,
    attempt: u32,
    host: Option<Seq<char>>,
    identifier: Seq<char>,
    reason: Seq<char>,
    issue: IssueView,
    max_backoff_ms: u64,
    clock: Clock,
)
    requires
        attempt < u32::MAX,
    ensures
        ({
            let again = after_verdict(
                c,
                id,
                attempt,
                host,
                RetryVerdict::Requeue { identifier, reason },
                max_backoff_ms,
                clock,
            );
            let next = (attempt + 1) as u32;
            let delay = retry::retry_delay(WorkerOutcomeView::Failure(reason), next, max_backoff_ms);
            &&& requeue_delay(attempt, max_backoff_ms) == delay
            &&& again.state.claimed.contains(id)
            &&& again.state.attempt(id) == next
            &&& again.timers.contains_key(id)
            &&& again.timers[id].attempt == next
            &&& again.timers[id].fire_at_ms == clock.monotonic_ms + delay
            &&& again.state.retrying[id] == (RetryView {
                issue_id: id,
                issue_identifier: identifier,
                attempt: next,
                scheduled_at: clock.now@ + delay * 1_000_000,
                reason: Some(reason),
                worker_host: host,
            })
            &&& again.state.running == c.state.running
        }),
        ({
            let over = after_verdict(
                c,
                id,
                attempt,
                host,
                RetryVerdict::Forget,
                max_backoff_ms,
                clock,
            );
            &&& !over.state.retrying.contains_key(id)
            &&& over.state.attempt(id) == 0
            &&& over.state.running == c.state.running
            &&& over.state.claimed == c.state.claimed
            &&& over.timers == c.timers
        }),
        after_verdict(
            c,
            id,
            attempt,
            host,
            RetryVerdict::Dispatch { issue },
            max_backoff_ms,
            clock,
        ) == c,
{
}

/// A tick goes on with an issue exactly if a slot is free in all and in its state; it stops with no
/// slot left in all, and passes an issue over with none left in its state.
pub proof fn lemma_gate_counts_slots(s: StateView, issue_state: Seq<char>, agent: AgentConfig)
    ensures
        ({
            let key = text::lower(text::trimmed(issue_state));
            let limits = agent.max_concurrent_agents_by_state@;
            let full = s.running.dom().len() >= agent.max_concurrent_agents;
            let state_full = limits.contains_key(key) && s.count_in_state(issue_state)
                >= limits[key];
            &&& full ==> gate_of(s, issue_state, agent) is Stop && no_slots(s, issue_state, agent)
            &&& !full && state_full ==> gate_of(s, issue_state, agent) is Skip && no_slots(
                s,
                issue_state,
                agent,
            )
            &&& !full && !state_full ==> gate_of(s, issue_state, agent) is Go && !no_slots(
                s,
                issue_state,
                agent,
            )
        }),
{
}

/// The next issue of a tick is the first one with a slot, as long as there are slots at all.
pub proof fn lemma_next_has_a_slot(
    s: StateView,
    plan: Seq<IssueView>,
    from: int,
    agent: AgentConfig,
    k: int,
)
    requires
        0 <= from <= k < plan.len(),
        s.running.dom().len() < agent.max_concurrent_agents,
        forall|i: int|
            from <= i < k ==> agent.max_concurrent_agents_by_state@.contains_key(
                text::lower(text::trimmed((#[trigger] plan[i]).state)),
            ) && s.count_in_state(plan[i].state)
                >= agent.max_concurrent_agents_by_state@[text::lower(text::trimmed(plan[i].state))],
        agent.max_concurrent_agents_by_state@.contains_key(
            text::lower(text::trimmed(plan[k].state)),
        ) ==> s.count_in_state(plan[k].state) < agent.max_concurrent_agents_by_state@[text::lower(
            text::trimmed(plan[k].state),
        )],
    ensures
        next_of(s, plan, from, agent) == Some(k),
    decreases k - from,
{
    if from < k {
        assert(agent.max_concurrent_agents_by_state@.contains_key(
            text::lower(text::trimmed(plan[from].state)),
        ));
        lemma_next_has_a_slot(s, plan, from + 1, agent, k);
    }
}

/// A tick ends with no slot left, and where no issue is left.
pub proof fn lemma_tick_ends(s: StateView, plan: Seq<IssueView>, from: int, agent: AgentConfig)
    ensures
        s.running.dom().len() >= agent.max_concurrent_agents ==> next_of(s, plan, from, agent)
            is None,
        from >= plan.len() ==> next_of(s, plan, from, agent) is None,
{
}

/// A tick dispatches each issue that may be dispatched, and no other, in an order in which none goes
/// ahead of another that it must follow.
pub proof fn lemma_tick_is_complete(
    s: StateView,
    candidates: Seq<IssueView>,
    agent: AgentConfig,
    active: Seq<Seq<char>>,
    terminal: Seq<Seq<char>>,
    chosen: Seq<IssueView>,
    issue: IssueView,
    i: int,
    j: int,
)
    requires
        tick_order(s, candidates, agent, active, terminal, chosen),
    ensures
        chosen.contains(issue) <==> candidates.contains(issue) && dispatch::eligible(
            issue,
            s,
            agent.max_concurrent_agents,
            agent.max_concurrent_agents_by_state@,
            active,
            terminal,
        ),
        0 <= i < j < chosen.len() ==> !dispatch::issue_before(chosen[j], chosen[i]),
{
    let p = |issue: IssueView|
        dispatch::eligible(
            issue,
            s,
            agent.max_concurrent_agents,
            agent.max_concurrent_agents_by_state@,
            active,
            terminal,
        );
    let selected = candidates.filter(p);
    dispatch::lemma_sorted_keeps_issues(selected, chosen);
    if selected.contains(issue) {
        let k = choose|k: int| 0 <= k < selected.len() && selected[k] == issue;
        candidates.lemma_filter_pred(p, k);
        candidates.lemma_filter_contains_rev(p, issue);
    }
    if candidates.contains(issue) && p(issue) {
        let k = choose|k: int| 0 <= k < candidates.len() && candidates[k] == issue;
        candidates.lemma_filter_contains(p, k);
    }
}

/// A delay can be waited for if it ends in the years that the calendar has.
pub proof fn lemma_end_of_delay_is_in_calendar(clock: Clock, delay_ms: u64)
    ensures
        can_wait(clock, delay_ms) <==> -8_334_601_228_800_000_000_000 <= clock.now@ + delay_ms
            * 1_000_000 <= 8_210_266_876_799_999_999_999,
{
}

/// The model of the orchestrator has its state and its timers.
pub proof fn lemma_orchestrator_is_modelled(o: Orchestrator)
    ensures
        o@.state == o.state@,
        o@.timers == o.retry_queue@,
{
}

} // verus!
