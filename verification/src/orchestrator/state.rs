//! The state of the orchestrator.

use vstd::prelude::*;

use crate::collections;
use crate::collections::{TextMap, TextSet};
use crate::domain::{LiveSession, RetryEntry, RetryView, SessionView, TokenUsage};
use crate::json;
use crate::json::{Json, JsonView};
use crate::sorting;
use crate::sorting::TextKey;
use crate::text;
use crate::time;
use crate::time::Timestamp;

verus! {

/// What all sessions spent together.
#[derive(Debug, Clone, Copy, PartialEq, Eq)]
pub struct AggregateTokens {
    pub input_tokens: u64,
    pub output_tokens: u64,
    pub total_tokens: u64,
    pub millis_running: u64,
}

impl Default for AggregateTokens {
    fn default() -> (r: Self)
        ensures
            r == (AggregateTokens {
                input_tokens: 0,
                output_tokens: 0,
                total_tokens: 0,
                millis_running: 0,
            }),
    {
        AggregateTokens { input_tokens: 0, output_tokens: 0, total_tokens: 0, millis_running: 0 }
    }
}

/// What is running, claimed, waiting and done.
#[derive(Debug)]
pub struct OrchestratorState {
    pub running: TextMap<LiveSession>,
    pub claimed: TextSet,
    pub retry_attempts: TextMap<u32>,
    pub retrying: TextMap<RetryEntry>,
    pub completed: TextSet,
    pub codex_totals: AggregateTokens,
    pub codex_rate_limits: Option<Json>,
}

/// The model of the orchestrator's state. Issues are known by their ids.
#[verifier::ext_equal]
pub struct StateView {
    pub running: Map<Seq<char>, SessionView>,
    pub claimed: Set<Seq<char>>,
    pub retry_attempts: Map<Seq<char>, u32>,
    pub retrying: Map<Seq<char>, RetryView>,
    pub completed: Set<Seq<char>>,
    pub codex_totals: AggregateTokens,
    pub codex_rate_limits: Option<JsonView>,
}

impl View for OrchestratorState {
    type V = StateView;

    open spec fn view(&self) -> StateView {
        StateView {
            running: self.running@,
            claimed: self.claimed@,
            retry_attempts: self.retry_attempts@,
            retrying: self.retrying@,
            completed: self.completed@,
            codex_totals: self.codex_totals,
            codex_rate_limits: json::opt_json(self.codex_rate_limits),
        }
    }
}

/// The sum of two counts, or the largest count where it does not fit.
pub open spec fn capped_sum(a: u64, b: u64) -> u64 {
    if a + b > u64::MAX {
        u64::MAX
    } else {
        (a + b) as u64
    }
}

/// The milliseconds that a session has run; none where it starts in the future.
pub open spec fn runtime_millis(started_at: int, now: int) -> nat {
    let elapsed = time::whole_millis(now - started_at);
    if elapsed > 0 {
        elapsed as nat
    } else {
        0
    }
}

/// Totals with another stretch of running time.
pub open spec fn with_runtime(totals: AggregateTokens, millis: nat) -> AggregateTokens {
    AggregateTokens {
        millis_running: if totals.millis_running + millis > u64::MAX {
            u64::MAX
        } else {
            (totals.millis_running + millis) as u64
        },
        ..totals
    }
}

/// Tokens added up.
pub open spec fn with_tokens(a: TokenUsage, b: TokenUsage) -> TokenUsage {
    TokenUsage {
        input_tokens: capped_sum(a.input_tokens, b.input_tokens),
        output_tokens: capped_sum(a.output_tokens, b.output_tokens),
        total_tokens: capped_sum(a.total_tokens, b.total_tokens),
    }
}

impl StateView {
    /// The state at the start.
    pub open spec fn initial() -> StateView {
        StateView {
            running: Map::empty(),
            claimed: Set::empty(),
            retry_attempts: Map::empty(),
            retrying: Map::empty(),
            completed: Set::empty(),
            codex_totals: AggregateTokens {
                input_tokens: 0,
                output_tokens: 0,
                total_tokens: 0,
                millis_running: 0,
            },
            codex_rate_limits: None,
        }
    }

    pub open spec fn claim(self, id: Seq<char>) -> StateView {
        StateView { claimed: self.claimed.insert(id), ..self }
    }

    pub open spec fn release(self, id: Seq<char>) -> StateView {
        StateView { claimed: self.claimed.remove(id), ..self }
    }

    pub open spec fn start(self, session: SessionView) -> StateView {
        StateView { running: self.running.insert(session.issue_id, session), ..self }
    }

    pub open spec fn stop(self, id: Seq<char>) -> StateView {
        StateView { running: self.running.remove(id), ..self }
    }

    /// The session of an issue is over: it no longer runs, and its running time is counted.
    pub open spec fn retire(self, id: Seq<char>, now: int) -> StateView {
        if self.running.contains_key(id) {
            StateView {
                running: self.running.remove(id),
                codex_totals: with_runtime(
                    self.codex_totals,
                    runtime_millis(self.running[id].started_at, now),
                ),
                ..self
            }
        } else {
            self
        }
    }

    /// The session of an issue after a change; nothing where the issue does not run.
    pub open spec fn change(self, id: Seq<char>, session: SessionView) -> StateView {
        if self.running.contains_key(id) {
            StateView { running: self.running.insert(id, session), ..self }
        } else {
            self
        }
    }

    pub open spec fn attempt(self, id: Seq<char>) -> u32 {
        if self.retry_attempts.contains_key(id) {
            self.retry_attempts[id]
        } else {
            0
        }
    }

    pub open spec fn forget_retry(self, id: Seq<char>) -> StateView {
        StateView {
            retry_attempts: self.retry_attempts.remove(id),
            retrying: self.retrying.remove(id),
            ..self
        }
    }

    /// How many sessions run on issues in a state.
    pub open spec fn count_in_state(self, state: Seq<char>) -> nat {
        collections::count_where(
            self.running,
            |s: SessionView| text::state_key(s.issue_state) == text::state_key(state),
        )
    }

    /// How many sessions run on a host.
    pub open spec fn count_on_host(self, host: Seq<char>) -> nat {
        collections::count_where(self.running, |s: SessionView| s.worker_host == Some(host))
    }

    /// The sessions in a state are those on issues whose state has that name, whatever its case and
    /// the white space around it.
    pub proof fn lemma_count_in_state(self, state: Seq<char>)
        ensures
            self.count_in_state(state) == self.running.dom().filter(
                |id: Seq<char>|
                    text::lower(text::trimmed(self.running[id].issue_state)) == text::lower(
                        text::trimmed(state),
                    ),
            ).len(),
    {
        text::lemma_state_is_listed(state, Seq::empty());
        let p = |s: SessionView| text::state_key(s.issue_state) == text::state_key(state);
        let q = |id: Seq<char>|
            text::lower(text::trimmed(self.running[id].issue_state)) == text::lower(
                text::trimmed(state),
            );
        assert(self.running.dom().filter(|id: Seq<char>| p(self.running[id]))
            =~= self.running.dom().filter(q));
    }

    /// The sessions on a host are those that run there.
    pub proof fn lemma_count_on_host(self, host: Seq<char>)
        ensures
            self.count_on_host(host) == self.running.dom().filter(
                |id: Seq<char>| self.running[id].worker_host == Some(host),
            ).len(),
    {
        let p = |s: SessionView| s.worker_host == Some(host);
        let q = |id: Seq<char>| self.running[id].worker_host == Some(host);
        assert(self.running.dom().filter(|id: Seq<char>| p(self.running[id]))
            =~= self.running.dom().filter(q));
    }
}

/// The keys of a map, each once.
pub open spec fn lists<T>(keys: Seq<Seq<char>>, m: Map<Seq<char>, T>) -> bool {
    keys.no_duplicates() && keys.to_set() == m.dom()
}

/// The running time of all sessions of a map.
pub open spec fn total_runtime(running: Map<Seq<char>, SessionView>, now: int) -> nat
    decreases running.dom().len(),
    when running.dom().finite()
{
    if running.dom().len() == 0 {
        0
    } else {
        let id = running.dom().choose();
        runtime_millis(running[id].started_at, now) + total_runtime(running.remove(id), now)
    }
}

/// The running time of all sessions is that of any one of them and of the rest.
pub proof fn lemma_total_runtime(running: Map<Seq<char>, SessionView>, id: Seq<char>, now: int)
    requires
        running.dom().finite(),
        running.contains_key(id),
    ensures
        total_runtime(running, now) == runtime_millis(running[id].started_at, now) + total_runtime(
            running.remove(id),
            now,
        ),
    decreases running.dom().len(),
{
    assert(running.dom().len() > 0);
    let c = running.dom().choose();
    if c != id {
        let without_c = running.remove(c);
        let without_id = running.remove(id);
        lemma_total_runtime(without_c, id, now);
        lemma_total_runtime(without_id, c, now);
        assert(without_c.remove(id) =~= without_id.remove(c));
    }
}

/// The running time that is shown at a moment does not change when a session ends at that moment.
pub proof fn lemma_end_keeps_runtime(s: StateView, id: Seq<char>, now: int)
    requires
        s.running.dom().finite(),
    ensures
        with_runtime(
            s.retire(id, now).codex_totals,
            total_runtime(s.retire(id, now).running, now),
        ) == with_runtime(s.codex_totals, total_runtime(s.running, now)),
{
    if s.running.contains_key(id) {
        lemma_total_runtime(s.running, id, now);
    }
}

/// One line about a running session.
#[derive(Debug)]
pub struct RunningSnapshot {
    pub issue_id: String,
    pub issue_identifier: String,
    pub state: String,
    pub worker_host: Option<String>,
    pub session_id: String,
    pub turn_count: u32,
    pub workspace_path: String,
    pub started_at: Timestamp,
    pub last_event_at: Option<Timestamp>,
    pub tokens: TokenUsage,
}

/// A line shows a session when it has the session's data.
pub open spec fn shows(row: RunningSnapshot, session: SessionView) -> bool {
    &&& row.issue_id@ == session.issue_id
    &&& row.issue_identifier@ == session.issue_identifier
    &&& row.state@ == session.issue_state
    &&& text::opt_text(row.worker_host) == session.worker_host
    &&& row.session_id@ == session.session_id
    &&& row.turn_count == session.turn_count
    &&& row.workspace_path@ == session.workspace_path
    &&& row.started_at@ == session.started_at
    &&& time::opt_time(row.last_event_at) == session.last_codex_timestamp
    &&& row.tokens == session.tokens
}

/// The numbers of a snapshot.
#[derive(Debug, Clone, Copy, PartialEq, Eq)]
pub struct SnapshotCounts {
    pub running: usize,
    pub claimed: usize,
    pub completed: usize,
    pub retrying: usize,
}

/// The state at one point in time, for display.
#[derive(Debug)]
pub struct StateSnapshot {
    pub generated_at: Timestamp,
    pub counts: SnapshotCounts,
    pub running: Vec<RunningSnapshot>,
    pub retrying: Vec<RetryEntry>,
    pub codex_totals: AggregateTokens,
    pub rate_limits: Option<Json>,
}

impl StateSnapshot {
    /// The state before anything is known.
    pub fn empty(now: Timestamp) -> (r: Self)
        ensures
            r.generated_at@ == now@,
            r.counts == (SnapshotCounts { running: 0, claimed: 0, completed: 0, retrying: 0 }),
            r.running@.len() == 0,
            r.retrying@.len() == 0,
            r.codex_totals == (AggregateTokens {
                input_tokens: 0,
                output_tokens: 0,
                total_tokens: 0,
                millis_running: 0,
            }),
            r.rate_limits is None,
    {
        StateSnapshot {
            generated_at: now,
            counts: SnapshotCounts { running: 0, claimed: 0, completed: 0, retrying: 0 },
            running: Vec::new(),
            retrying: Vec::new(),
            codex_totals: AggregateTokens::default(),
            rate_limits: None,
        }
    }
}

/// The lines show every session once, by identifier.
pub open spec fn running_listed(
    rows: Seq<RunningSnapshot>,
    running: Map<Seq<char>, SessionView>,
) -> bool {
    &&& exists|keys: Seq<Seq<char>>| #[trigger]
        lists(keys, running) && rows.len() == keys.len() && forall|i: int|
            0 <= i < rows.len() ==> shows(#[trigger] rows[i], running[keys[i]])
    &&& forall|i: int, j: int|
        0 <= i < j < rows.len() ==> !text::text_lt(
            (#[trigger] rows[j]).issue_identifier@,
            (#[trigger] rows[i]).issue_identifier@,
        )
}

/// The entries are those of every waiting retry once, by identifier.
pub open spec fn retrying_listed(rows: Seq<RetryEntry>, retrying: Map<Seq<char>, RetryView>) -> bool {
    &&& exists|keys: Seq<Seq<char>>| #[trigger]
        lists(keys, retrying) && rows.len() == keys.len() && forall|i: int|
            0 <= i < rows.len() ==> (#[trigger] rows[i])@ == retrying[keys[i]]
    &&& forall|i: int, j: int|
        0 <= i < j < rows.len() ==> !text::text_lt(
            (#[trigger] rows[j]).issue_identifier@,
            (#[trigger] rows[i]).issue_identifier@,
        )
}

fn capped(a: u64, b: u64) -> (r: u64)
    ensures
        r == capped_sum(a, b),
{
    if b > u64::MAX - a {
        u64::MAX
    } else {
        a + b
    }
}

fn add_tokens(a: &TokenUsage, b: &TokenUsage) -> (r: TokenUsage)
    ensures
        r == with_tokens(*a, *b),
{
    TokenUsage {
        input_tokens: capped(a.input_tokens, b.input_tokens),
        output_tokens: capped(a.output_tokens, b.output_tokens),
        total_tokens: capped(a.total_tokens, b.total_tokens),
    }
}

fn running_millis(started_at: Timestamp, now: Timestamp) -> (r: u64)
    ensures
        r == runtime_millis(started_at@, now@),
{
    let elapsed: i64 = started_at.millis_until(now);
    if elapsed > 0 {
        elapsed as u64
    } else {
        0
    }
}

impl Default for OrchestratorState {
    fn default() -> (r: Self)
        ensures
            r@ == StateView::initial(),
    {
        OrchestratorState {
            running: TextMap::new(),
            claimed: TextSet::new(),
            retry_attempts: TextMap::new(),
            retrying: TextMap::new(),
            completed: TextSet::new(),
            codex_totals: AggregateTokens::default(),
            codex_rate_limits: None,
        }
    }
}

impl OrchestratorState {
    /// Claims an issue.
    pub fn claim_issue(&mut self, issue_id: &str)
        ensures
            final(self)@ == old(self)@.claim(issue_id@),
    {
        self.claimed.insert(issue_id.to_owned());
    }

    /// Gives a claim up.
    pub fn release_claim(&mut self, issue_id: &str)
        ensures
            final(self)@ == old(self)@.release(issue_id@),
    {
        self.claimed.remove(issue_id);
    }

    /// Adds a running session under its issue.
    pub fn add_running(&mut self, session: LiveSession)
        ensures
            final(self)@ == old(self)@.start(session@),
    {
        let id = session.issue_id.clone();
        self.running.insert(id, session);
    }

    /// Takes a running session out.
    pub fn remove_running(&mut self, issue_id: &str) -> (r: Option<LiveSession>)
        ensures
            final(self)@ == old(self)@.stop(issue_id@),
            match r {
                Some(session) => old(self)@.running.contains_key(issue_id@)
                    && old(self)@.running[issue_id@] == session@,
                None => !old(self)@.running.contains_key(issue_id@),
            },
    {
        self.running.remove(issue_id)
    }

    /// Tells whether an issue is claimed.
    pub fn is_claimed(&self, issue_id: &str) -> (r: bool)
        ensures
            r == self@.claimed.contains(issue_id@),
    {
        self.claimed.contains(issue_id)
    }

    /// The number of running sessions.
    pub fn running_count(&self) -> (r: usize)
        ensures
            r == self@.running.dom().len(),
    {
        self.running.len()
    }

    /// The number of sessions that run on issues in a state.
    pub fn running_count_by_state(&self, state: &str) -> (r: usize)
        ensures
            r == self@.count_in_state(state@),
            r <= self@.running.dom().len(),
    {
        let normalized = text::normalize_state(state);
        let n: usize = self.running.len();
        let ghost keys = self.running.order();
        let ghost p = |s: SessionView| text::state_key(s.issue_state) == text::state_key(state@);
        let ghost q = |key: Seq<char>| p(self@.running[key]);
        let mut count: usize = 0;
        let mut i: usize = 0;
        proof {
            assert(keys.take(0).to_set().filter(q) =~= Set::<Seq<char>>::empty());
        }
        while i < n
            invariant
                i <= n,
                count <= i,
                n == keys.len(),
                keys == self.running.order(),
                keys.no_duplicates(),
                normalized@ == text::state_key(state@),
                p == |s: SessionView| text::state_key(s.issue_state) == text::state_key(state@),
                q == |key: Seq<char>| p(self@.running[key]),
                count == keys.take(i as int).to_set().filter(q).len(),
            decreases n - i,
        {
            let session = self.running.value_at(i);
            let key = text::normalize_state(session.issue_state.as_str());
            proof {
                lemma_take_insert(keys, i as int);
                collections::lemma_filter_insert(
                    keys.take(i as int).to_set(),
                    keys[i as int],
                    q,
                );
            }
            if text::same(key.as_str(), normalized.as_str()) {
                count = count + 1;
            }
            i = i + 1;
        }
        proof {
            assert(keys.take(n as int) =~= keys);
        }
        count
    }

    /// The number of sessions that run on a host.
    pub fn running_count_by_host(&self, host: &str) -> (r: usize)
        ensures
            r == self@.count_on_host(host@),
            r <= self@.running.dom().len(),
    {
        let n: usize = self.running.len();
        let ghost keys = self.running.order();
        let ghost p = |s: SessionView| s.worker_host == Some(host@);
        let ghost q = |key: Seq<char>| p(self@.running[key]);
        let mut count: usize = 0;
        let mut i: usize = 0;
        proof {
            assert(keys.take(0).to_set().filter(q) =~= Set::<Seq<char>>::empty());
        }
        while i < n
            invariant
                i <= n,
                count <= i,
                n == keys.len(),
                keys == self.running.order(),
                keys.no_duplicates(),
                p == |s: SessionView| s.worker_host == Some(host@),
                q == |key: Seq<char>| p(self@.running[key]),
                count == keys.take(i as int).to_set().filter(q).len(),
            decreases n - i,
        {
            let session = self.running.value_at(i);
            let here = match &session.worker_host {
                Some(name) => text::same(name.as_str(), host),
                None => false,
            };
            proof {
                lemma_take_insert(keys, i as int);
                collections::lemma_filter_insert(
                    keys.take(i as int).to_set(),
                    keys[i as int],
                    q,
                );
            }
            if here {
                count = count + 1;
            }
            i = i + 1;
        }
        proof {
            assert(keys.take(n as int) =~= keys);
        }
        count
    }

    /// Remembers the attempt that an issue is at.
    pub fn set_retry_attempt(&mut self, issue_id: &str, attempt: u32)
        ensures
            final(self)@ == (StateView {
                retry_attempts: old(self)@.retry_attempts.insert(issue_id@, attempt),
                ..old(self)@
            }),
    {
        self.retry_attempts.insert(issue_id.to_owned(), attempt);
    }

    /// Adds a waiting retry under its issue.
    pub fn set_retry_entry(&mut self, entry: RetryEntry)
        ensures
            final(self)@ == (StateView {
                retrying: old(self)@.retrying.insert(entry.issue_id@, entry@),
                ..old(self)@
            }),
    {
        let id = entry.issue_id.clone();
        self.retrying.insert(id, entry);
    }

    /// The attempt that an issue is at; zero where none is remembered.
    pub fn retry_attempt(&self, issue_id: &str) -> (r: u32)
        ensures
            r == self@.attempt(issue_id@),
    {
        match self.retry_attempts.get(issue_id) {
            Some(attempt) => *attempt,
            None => 0,
        }
    }

    /// The waiting retry of an issue.
    pub fn retry_entry(&self, issue_id: &str) -> (r: Option<RetryEntry>)
        ensures
            match r {
                Some(entry) => self@.retrying.contains_key(issue_id@)
                    && self@.retrying[issue_id@] == entry@,
                None => !self@.retrying.contains_key(issue_id@),
            },
    {
        match self.retrying.get(issue_id) {
            Some(entry) => Some(entry.clone()),
            None => None,
        }
    }

    /// Forgets the waiting retry of an issue.
    pub fn clear_retry_entry(&mut self, issue_id: &str)
        ensures
            final(self)@ == (StateView {
                retrying: old(self)@.retrying.remove(issue_id@),
                ..old(self)@
            }),
    {
        let _ = self.retrying.remove(issue_id);
    }

    /// Forgets the attempt and the waiting retry of an issue.
    pub fn clear_retry_attempt(&mut self, issue_id: &str)
        ensures
            final(self)@ == old(self)@.forget_retry(issue_id@),
    {
        let _ = self.retry_attempts.remove(issue_id);
        let _ = self.retrying.remove(issue_id);
    }

    /// Marks an issue as completed.
    pub fn mark_completed(&mut self, issue_id: &str)
        ensures
            final(self)@ == (StateView {
                completed: old(self)@.completed.insert(issue_id@),
                ..old(self)@
            }),
    {
        self.completed.insert(issue_id.to_owned());
    }

    /// Counts the running time of a session that has ended.
    pub fn add_runtime_from_session(&mut self, session: &LiveSession, now: Timestamp)
        ensures
            final(self)@ == (StateView {
                codex_totals: with_runtime(
                    old(self)@.codex_totals,
                    runtime_millis(session@.started_at, now@),
                ),
                ..old(self)@
            }),
    {
        let millis: u64 = running_millis(session.started_at, now);
        self.codex_totals.millis_running = capped(self.codex_totals.millis_running, millis);
    }

    /// Takes a session out and counts its running time.
    pub fn retire(&mut self, issue_id: &str, now: Timestamp) -> (r: Option<LiveSession>)
        ensures
            final(self)@ == old(self)@.retire(issue_id@, now@),
            match r {
                Some(session) => old(self)@.running.contains_key(issue_id@)
                    && old(self)@.running[issue_id@] == session@,
                None => !old(self)@.running.contains_key(issue_id@),
            },
    {
        let removed = self.remove_running(issue_id);
        match &removed {
            Some(session) => {
                self.add_runtime_from_session(session, now);
            },
            None => {
                proof {
                    assert(self@.running =~= old(self)@.running);
                }
            },
        }
        removed
    }

    /// Sets the tracker state of a session's issue.
    pub fn update_session_state(&mut self, issue_id: &str, issue_state: &str)
        ensures
            final(self)@ == old(self)@.change(
                issue_id@,
                (SessionView { issue_state: issue_state@, ..old(self)@.running[issue_id@] }),
            ),
    {
        if let Some(mut session) = self.running.remove(issue_id) {
            session.issue_state = issue_state.to_owned();
            self.running.insert(issue_id.to_owned(), session);
            proof {
                assert(self@.running =~= old(self)@.running.insert(issue_id@, session@));
            }
        } else {
            proof {
                assert(self@.running =~= old(self)@.running);
            }
        }
    }

    /// Sets the id of a session.
    pub fn update_session_started(&mut self, issue_id: &str, session_id: &str)
        ensures
            final(self)@ == old(self)@.change(
                issue_id@,
                (SessionView { session_id: session_id@, ..old(self)@.running[issue_id@] }),
            ),
    {
        if let Some(mut session) = self.running.remove(issue_id) {
            session.session_id = session_id.to_owned();
            self.running.insert(issue_id.to_owned(), session);
            proof {
                assert(self@.running =~= old(self)@.running.insert(issue_id@, session@));
            }
        } else {
            proof {
                assert(self@.running =~= old(self)@.running);
            }
        }
    }

    /// Counts one more turn of a session.
    pub fn increment_turn_count(&mut self, issue_id: &str)
        ensures
            final(self)@ == old(self)@.change(
                issue_id@,
                (SessionView {
                    turn_count: if old(self)@.running[issue_id@].turn_count == u32::MAX {
                        u32::MAX
                    } else {
                        (old(self)@.running[issue_id@].turn_count + 1) as u32
                    },
                    ..old(self)@.running[issue_id@]
                }),
            ),
    {
        if let Some(mut session) = self.running.remove(issue_id) {
            if session.turn_count < u32::MAX {
                session.turn_count = session.turn_count + 1;
            }
            self.running.insert(issue_id.to_owned(), session);
            proof {
                assert(self@.running =~= old(self)@.running.insert(issue_id@, session@));
            }
        } else {
            proof {
                assert(self@.running =~= old(self)@.running);
            }
        }
    }

    /// Notes when a session was last heard of.
    pub fn update_session_timestamp(&mut self, issue_id: &str, timestamp: Timestamp)
        ensures
            final(self)@ == old(self)@.change(
                issue_id@,
                (SessionView {
                    last_codex_timestamp: Some(timestamp@),
                    ..old(self)@.running[issue_id@]
                }),
            ),
    {
        if let Some(mut session) = self.running.remove(issue_id) {
            session.last_codex_timestamp = Some(timestamp);
            self.running.insert(issue_id.to_owned(), session);
            proof {
                assert(self@.running =~= old(self)@.running.insert(issue_id@, session@));
            }
        } else {
            proof {
                assert(self@.running =~= old(self)@.running);
            }
        }
    }

    /// Counts tokens toward a session.
    pub fn add_session_tokens(&mut self, issue_id: &str, tokens: &TokenUsage)
        ensures
            final(self)@ == old(self)@.change(
                issue_id@,
                (SessionView {
                    tokens: with_tokens(old(self)@.running[issue_id@].tokens, *tokens),
                    ..old(self)@.running[issue_id@]
                }),
            ),
    {
        if let Some(mut session) = self.running.remove(issue_id) {
            session.tokens = add_tokens(&session.tokens, tokens);
            self.running.insert(issue_id.to_owned(), session);
            proof {
                assert(self@.running =~= old(self)@.running.insert(issue_id@, session@));
            }
        } else {
            proof {
                assert(self@.running =~= old(self)@.running);
            }
        }
    }

    /// Counts tokens toward the totals.
    pub fn add_aggregate_tokens(&mut self, tokens: &TokenUsage)
        ensures
            final(self)@ == (StateView {
                codex_totals: AggregateTokens {
                    input_tokens: capped_sum(
                        old(self)@.codex_totals.input_tokens,
                        tokens.input_tokens,
                    ),
                    output_tokens: capped_sum(
                        old(self)@.codex_totals.output_tokens,
                        tokens.output_tokens,
                    ),
                    total_tokens: capped_sum(
                        old(self)@.codex_totals.total_tokens,
                        tokens.total_tokens,
                    ),
                    ..old(self)@.codex_totals
                },
                ..old(self)@
            }),
    {
        self.codex_totals.input_tokens = capped(
            self.codex_totals.input_tokens,
            tokens.input_tokens,
        );
        self.codex_totals.output_tokens = capped(
            self.codex_totals.output_tokens,
            tokens.output_tokens,
        );
        self.codex_totals.total_tokens = capped(
            self.codex_totals.total_tokens,
            tokens.total_tokens,
        );
    }

    /// Sets the rate limits.
    pub fn set_rate_limits(&mut self, value: Option<Json>)
        ensures
            final(self)@ == (StateView { codex_rate_limits: json::opt_json(value), ..old(self)@ }),
    {
        self.codex_rate_limits = value;
    }

    fn snapshot_totals(&self, now: Timestamp) -> (r: AggregateTokens)
        ensures
            r == with_runtime(self@.codex_totals, total_runtime(self@.running, now@)),
    {
        let n: usize = self.running.len();
        let ghost keys = self.running.order();
        let ghost all = self@.running;
        let mut millis: u64 = self.codex_totals.millis_running;
        let mut i: usize = 0;
        let ghost mut rest = all;
        proof {
            assert(keys.skip(0) =~= keys);
        }
        while i < n
            invariant
                i <= n,
                n == keys.len(),
                keys == self.running.order(),
                keys.no_duplicates(),
                keys.to_set() == all.dom(),
                all == self@.running,
                all.dom().finite(),
                rest.dom() == keys.skip(i as int).to_set(),
                rest.dom().finite(),
                forall|id: Seq<char>| #[trigger] rest.contains_key(id) ==> rest[id] == all[id],
                with_runtime(
                    (AggregateTokens { millis_running: millis, ..self.codex_totals }),
                    total_runtime(rest, now@),
                ) == with_runtime(self.codex_totals, total_runtime(all, now@)),
            decreases n - i,
        {
            let session = self.running.value_at(i);
            let more: u64 = running_millis(session.started_at, now);
            proof {
                let id = keys[i as int];
                assert(keys.skip(i as int)[0] == id);
                assert(rest.contains_key(id)) by {
                    assert(keys.skip(i as int).contains(id));
                }
                lemma_total_runtime(rest, id, now@);
                assert(keys.skip(i + 1).to_set() =~= keys.skip(i as int).to_set().remove(id)) by {
                    lemma_skip_remove(keys, i as int);
                }
                rest = rest.remove(id);
            }
            millis = capped(millis, more);
            i = i + 1;
        }
        proof {
            assert(rest.dom() =~= Set::<Seq<char>>::empty());
        }
        AggregateTokens { millis_running: millis, ..self.codex_totals }
    }

    fn snapshot_running(&self) -> (r: Vec<RunningSnapshot>)
        ensures
            running_listed(r@, self@.running),
    {
        let n: usize = self.running.len();
        let ghost keys = self.running.order();
        let mut names: Vec<TextKey> = Vec::new();
        let mut i: usize = 0;
        while i < n
            invariant
                i <= n,
                n == keys.len(),
                keys == self.running.order(),
                names@.len() == i,
                forall|k: int|
                    0 <= k < i ==> (#[trigger] names@[k]).name@
                        == self@.running[keys[k]].issue_identifier,
            decreases n - i,
        {
            names.push(TextKey { name: self.running.value_at(i).issue_identifier.as_str() });
            i = i + 1;
        }
        let order = sorting::stable_order(&names);
        let ghost ints = Seq::new(order@.len(), |k: int| order@[k] as int);
        let ghost sorted = sorting::permuted(keys, ints);
        let mut rows: Vec<RunningSnapshot> = Vec::new();
        let mut j: usize = 0;
        while j < n
            invariant
                j <= n,
                n == keys.len(),
                n == order@.len(),
                keys == self.running.order(),
                ints == Seq::new(order@.len(), |k: int| order@[k] as int),
                sorted == sorting::permuted(keys, ints),
                forall|k: int| 0 <= k < order@.len() ==> #[trigger] order@[k] < n,
                rows@.len() == j,
                forall|k: int| 0 <= k < j ==> shows(#[trigger] rows@[k], self@.running[sorted[k]]),
            decreases n - j,
        {
            let session = self.running.value_at(order[j]);
            rows.push(
                RunningSnapshot {
                    issue_id: session.issue_id.clone(),
                    issue_identifier: session.issue_identifier.clone(),
                    state: session.issue_state.clone(),
                    worker_host: text::clone_opt(&session.worker_host),
                    session_id: session.session_id.clone(),
                    turn_count: session.turn_count,
                    workspace_path: session.workspace_path.clone(),
                    started_at: session.started_at,
                    last_event_at: session.last_codex_timestamp,
                    tokens: session.tokens,
                },
            );
            j = j + 1;
        }
        proof {
            sorting::lemma_permuted(keys, ints);
            assert(lists(sorted, self@.running));
            assert forall|a: int, b: int| 0 <= a < b < rows@.len() implies !text::text_lt(
                (#[trigger] rows@[b]).issue_identifier@,
                (#[trigger] rows@[a]).issue_identifier@,
            ) by {
                assert(sorting::in_order(names@, ints[a], ints[b]));
                assert(shows(rows@[a], self@.running[sorted[a]]));
                assert(shows(rows@[b], self@.running[sorted[b]]));
            }
        }
        rows
    }

    fn snapshot_retrying(&self) -> (r: Vec<RetryEntry>)
        ensures
            retrying_listed(r@, self@.retrying),
    {
        let n: usize = self.retrying.len();
        let ghost keys = self.retrying.order();
        let mut names: Vec<TextKey> = Vec::new();
        let mut i: usize = 0;
        while i < n
            invariant
                i <= n,
                n == keys.len(),
                keys == self.retrying.order(),
                names@.len() == i,
                forall|k: int|
                    0 <= k < i ==> (#[trigger] names@[k]).name@
                        == self@.retrying[keys[k]].issue_identifier,
            decreases n - i,
        {
            names.push(TextKey { name: self.retrying.value_at(i).issue_identifier.as_str() });
            i = i + 1;
        }
        let order = sorting::stable_order(&names);
        let ghost ints = Seq::new(order@.len(), |k: int| order@[k] as int);
        let ghost sorted = sorting::permuted(keys, ints);
        let mut rows: Vec<RetryEntry> = Vec::new();
        let mut j: usize = 0;
        while j < n
            invariant
                j <= n,
                n == keys.len(),
                n == order@.len(),
                keys == self.retrying.order(),
                ints == Seq::new(order@.len(), |k: int| order@[k] as int),
                sorted == sorting::permuted(keys, ints),
                forall|k: int| 0 <= k < order@.len() ==> #[trigger] order@[k] < n,
                rows@.len() == j,
                forall|k: int| 0 <= k < j ==> (#[trigger] rows@[k])@ == self@.retrying[sorted[k]],
            decreases n - j,
        {
            rows.push(self.retrying.value_at(order[j]).clone());
            j = j + 1;
        }
        proof {
            sorting::lemma_permuted(keys, ints);
            assert(lists(sorted, self@.retrying));
            assert forall|a: int, b: int| 0 <= a < b < rows@.len() implies !text::text_lt(
                (#[trigger] rows@[b]).issue_identifier@,
                (#[trigger] rows@[a]).issue_identifier@,
            ) by {
                assert(sorting::in_order(names@, ints[a], ints[b]));
                assert(rows@[a]@ == self@.retrying[sorted[a]]);
                assert(rows@[b]@ == self@.retrying[sorted[b]]);
            }
        }
        rows
    }

    /// The state at one point in time: the sessions and the retries by identifier, the totals with
    /// the time that the sessions have run so far.
    pub fn snapshot(&self, now: Timestamp) -> (r: StateSnapshot)
        ensures
            r.generated_at@ == now@,
            r.counts.running == self@.running.dom().len(),
            r.counts.claimed == self@.claimed.len(),
            r.counts.completed == self@.completed.len(),
            r.counts.retrying == self@.retrying.dom().len(),
            running_listed(r.running@, self@.running),
            retrying_listed(r.retrying@, self@.retrying),
            r.codex_totals == with_runtime(
                self@.codex_totals,
                total_runtime(self@.running, now@),
            ),
            json::opt_json(r.rate_limits) == self@.codex_rate_limits,
    {
        StateSnapshot {
            generated_at: now,
            counts: SnapshotCounts {
                running: self.running.len(),
                claimed: self.claimed.len(),
                completed: self.completed.len(),
                retrying: self.retrying.len(),
            },
            running: self.snapshot_running(),
            retrying: self.snapshot_retrying(),
            codex_totals: self.snapshot_totals(now),
            rate_limits: match &self.codex_rate_limits {
                Some(value) => Some(value.clone()),
                None => None,
            },
        }
    }
}

proof fn lemma_take_insert(keys: Seq<Seq<char>>, i: int)
    requires
        keys.no_duplicates(),
        0 <= i < keys.len(),
    ensures
        keys.take(i + 1).to_set() == keys.take(i).to_set().insert(keys[i]),
        !keys.take(i).to_set().contains(keys[i]),
        keys.take(i).to_set().finite(),
{
    let a = keys.take(i);
    let b = keys.take(i + 1);
    assert(b =~= a.push(keys[i]));
    assert forall|x: Seq<char>| b.to_set().contains(x) == a.to_set().insert(keys[i]).contains(x) by {
        if a.contains(x) {
            let k = choose|k: int| 0 <= k < a.len() && a[k] == x;
            assert(b[k] == x);
        }
        assert(b[i] == keys[i]);
        if b.contains(x) {
            let k = choose|k: int| 0 <= k < b.len() && b[k] == x;
            if k < i {
                assert(a[k] == x);
            }
        }
    }
    assert(b.to_set() =~= a.to_set().insert(keys[i]));
    if a.contains(keys[i]) {
        let k = choose|k: int| 0 <= k < a.len() && a[k] == keys[i];
        assert(keys[k] == keys[i]);
    }
}

proof fn lemma_skip_remove(keys: Seq<Seq<char>>, i: int)
    requires
        keys.no_duplicates(),
        0 <= i < keys.len(),
    ensures
        keys.skip(i + 1).to_set() == keys.skip(i).to_set().remove(keys[i]),
{
    let a = keys.skip(i);
    let b = keys.skip(i + 1);
    assert forall|x: Seq<char>| b.to_set().contains(x) == a.to_set().remove(keys[i]).contains(x) by {
        if b.contains(x) {
            let k = choose|k: int| 0 <= k < b.len() && b[k] == x;
            assert(a[k + 1] == x);
            assert(keys[i + 1 + k] == x);
        }
        if a.contains(x) && x != keys[i] {
            let k = choose|k: int| 0 <= k < a.len() && a[k] == x;
            assert(a[k] == keys[i + k]);
            assert(b[k - 1] == x);
        }
    }
    assert(b.to_set() =~= a.to_set().remove(keys[i]));
}

/// A claim is held from the claim to the release, and no other claim changes.
pub proof fn lemma_claims(s: StateView, id: Seq<char>, other: Seq<char>)
    ensures
        s.claim(id).claimed.contains(id),
        !s.release(id).claimed.contains(id),
        other != id ==> s.claim(id).claimed.contains(other) == s.claimed.contains(other),
        other != id ==> s.release(id).claimed.contains(other) == s.claimed.contains(other),
        s.claim(id).running == s.running && s.claim(id).retrying == s.retrying && s.claim(
            id,
        ).retry_attempts == s.retry_attempts && s.claim(id).completed == s.completed,
        s.release(id).running == s.running && s.release(id).retrying == s.retrying && s.release(
            id,
        ).retry_attempts == s.retry_attempts && s.release(id).completed == s.completed,
{
}

/// A session that is started runs under its issue, and one that is stopped does not; the others run on
/// as they did.
pub proof fn lemma_sessions(s: StateView, session: SessionView, id: Seq<char>, other: Seq<char>)
    ensures
        s.start(session).running.contains_key(session.issue_id),
        s.start(session).running[session.issue_id] == session,
        !s.stop(id).running.contains_key(id),
        other != session.issue_id && s.running.contains_key(other) ==> s.start(
            session,
        ).running.contains_key(other) && s.start(session).running[other] == s.running[other],
        other != id && s.running.contains_key(other) ==> s.stop(id).running.contains_key(other)
            && s.stop(id).running[other] == s.running[other],
        s.start(session).claimed == s.claimed,
        s.stop(id).claimed == s.claimed,
{
}

/// A session that ends no longer runs, and the time that it ran, in whole milliseconds, is added to the
/// running time; nothing else changes.
pub proof fn lemma_ended_session_is_counted(s: StateView, id: Seq<char>, now: int, other: Seq<char>)
    ensures
        ({
            let after = s.retire(id, now);
            let elapsed = now - s.running[id].started_at;
            &&& !after.running.contains_key(id)
            &&& other != id ==> after.running.contains_key(other) == s.running.contains_key(other)
            &&& other != id && s.running.contains_key(other) ==> after.running[other]
                == s.running[other]
            &&& s.running.contains_key(id) && elapsed >= 0 && s.codex_totals.millis_running
                + elapsed / 1_000_000 <= u64::MAX ==> after.codex_totals.millis_running
                == s.codex_totals.millis_running + elapsed / 1_000_000
            &&& s.running.contains_key(id) && elapsed < 0 ==> after.codex_totals.millis_running
                == s.codex_totals.millis_running
            &&& !s.running.contains_key(id) ==> after.codex_totals == s.codex_totals
            &&& after.codex_totals.input_tokens == s.codex_totals.input_tokens
            &&& after.codex_totals.output_tokens == s.codex_totals.output_tokens
            &&& after.codex_totals.total_tokens == s.codex_totals.total_tokens
            &&& after.claimed == s.claimed
            &&& after.retrying == s.retrying
            &&& after.retry_attempts == s.retry_attempts
            &&& after.completed == s.completed
            &&& after.codex_rate_limits == s.codex_rate_limits
        }),
{
}

/// A change of a session shows in it alone, and makes none run that did not.
pub proof fn lemma_change_is_local(s: StateView, id: Seq<char>, session: SessionView, other: Seq<char>)
    ensures
        s.change(id, session).running.contains_key(other) == s.running.contains_key(other),
        s.running.contains_key(id) ==> s.change(id, session).running[id] == session,
        other != id && s.running.contains_key(other) ==> s.change(id, session).running[other]
            == s.running[other],
        s.change(id, session).claimed == s.claimed,
        s.change(id, session).retrying == s.retrying,
        s.change(id, session).retry_attempts == s.retry_attempts,
        s.change(id, session).completed == s.completed,
        s.change(id, session).codex_totals == s.codex_totals,
{
}

/// A retry that is forgotten leaves neither an attempt nor an entry, and the retries of all other
/// issues stay.
pub proof fn lemma_forgotten_retry(s: StateView, id: Seq<char>, other: Seq<char>)
    ensures
        !s.forget_retry(id).retry_attempts.contains_key(id),
        !s.forget_retry(id).retrying.contains_key(id),
        s.forget_retry(id).attempt(id) == 0,
        other != id ==> s.forget_retry(id).attempt(other) == s.attempt(other),
        other != id ==> s.forget_retry(id).retrying.contains_key(other) == s.retrying.contains_key(
            other,
        ),
        other != id && s.retrying.contains_key(other) ==> s.forget_retry(id).retrying[other]
            == s.retrying[other],
        s.retry_attempts.contains_key(id) ==> s.attempt(id) == s.retry_attempts[id],
        s.forget_retry(id).running == s.running,
        s.forget_retry(id).claimed == s.claimed,
{
}

/// Counts add up, as long as their sum fits, and never go down.
pub proof fn lemma_counts_add_up(a: u64, b: u64)
    ensures
        a + b <= u64::MAX ==> capped_sum(a, b) == a + b,
        a + b > u64::MAX ==> capped_sum(a, b) == u64::MAX,
        capped_sum(a, b) >= a,
        capped_sum(a, b) >= b,
{
}

/// Tokens add up count by count.
pub proof fn lemma_tokens_add_up(a: TokenUsage, b: TokenUsage)
    ensures
        a.input_tokens + b.input_tokens <= u64::MAX ==> with_tokens(a, b).input_tokens
            == a.input_tokens + b.input_tokens,
        a.output_tokens + b.output_tokens <= u64::MAX ==> with_tokens(a, b).output_tokens
            == a.output_tokens + b.output_tokens,
        a.total_tokens + b.total_tokens <= u64::MAX ==> with_tokens(a, b).total_tokens
            == a.total_tokens + b.total_tokens,
{
}

/// The rows of a snapshot show each running session, with its data, and nothing that does not run.
pub proof fn lemma_rows_show_what_runs(
    rows: Seq<RunningSnapshot>,
    running: Map<Seq<char>, SessionView>,
    id: Seq<char>,
    k: int,
)
    requires
        running_listed(rows, running),
    ensures
        running.contains_key(id) ==> exists|i: int|
            0 <= i < rows.len() && (#[trigger] rows[i]).issue_id@ == running[id].issue_id
                && rows[i].issue_identifier@ == running[id].issue_identifier && rows[i].state@
                == running[id].issue_state && rows[i].session_id@ == running[id].session_id
                && rows[i].turn_count == running[id].turn_count && rows[i].workspace_path@
                == running[id].workspace_path && rows[i].started_at@ == running[id].started_at
                && rows[i].tokens == running[id].tokens && text::opt_text(rows[i].worker_host)
                == running[id].worker_host && time::opt_time(rows[i].last_event_at)
                == running[id].last_codex_timestamp,
        0 <= k < rows.len() ==> exists|key: Seq<char>| #[trigger]
            running.contains_key(key) && rows[k].issue_id@ == running[key].issue_id,
        running.dom().finite() ==> rows.len() == running.dom().len(),
{
    let keys = choose|keys: Seq<Seq<char>>| #[trigger]
        lists(keys, running) && rows.len() == keys.len() && forall|i: int|
            0 <= i < rows.len() ==> shows(#[trigger] rows[i], running[keys[i]]);
    keys.unique_seq_to_set();
    if running.contains_key(id) {
        assert(keys.to_set().contains(id));
        let i = choose|i: int| 0 <= i < keys.len() && keys[i] == id;
        assert(shows(rows[i], running[keys[i]]));
    }
    if 0 <= k < rows.len() {
        assert(shows(rows[k], running[keys[k]]));
        assert(keys.contains(keys[k]));
        assert(keys.to_set().contains(keys[k]));
        assert(running.contains_key(keys[k]));
    }
}

/// The entries of a snapshot are those of each waiting retry, and no others.
pub proof fn lemma_entries_show_what_waits(
    rows: Seq<RetryEntry>,
    retrying: Map<Seq<char>, RetryView>,
    id: Seq<char>,
    k: int,
)
    requires
        retrying_listed(rows, retrying),
    ensures
        retrying.contains_key(id) ==> exists|i: int|
            0 <= i < rows.len() && (#[trigger] rows[i])@ == retrying[id],
        0 <= k < rows.len() ==> exists|key: Seq<char>| #[trigger]
            retrying.contains_key(key) && rows[k]@ == retrying[key],
        retrying.dom().finite() ==> rows.len() == retrying.dom().len(),
{
    let keys = choose|keys: Seq<Seq<char>>| #[trigger]
        lists(keys, retrying) && rows.len() == keys.len() && forall|i: int|
            0 <= i < rows.len() ==> (#[trigger] rows[i])@ == retrying[keys[i]];
    keys.unique_seq_to_set();
    if retrying.contains_key(id) {
        assert(keys.to_set().contains(id));
        let i = choose|i: int| 0 <= i < keys.len() && keys[i] == id;
        assert(rows[i]@ == retrying[keys[i]]);
    }
    if 0 <= k < rows.len() {
        assert(rows[k]@ == retrying[keys[k]]);
        assert(keys.contains(keys[k]));
        assert(keys.to_set().contains(keys[k]));
        assert(retrying.contains_key(keys[k]));
    }
}

/// At the start nothing runs, waits, is claimed or is done.
pub proof fn lemma_nothing_at_the_start(id: Seq<char>)
    ensures
        !StateView::initial().running.contains_key(id),
        !StateView::initial().claimed.contains(id),
        !StateView::initial().retrying.contains_key(id),
        !StateView::initial().completed.contains(id),
        StateView::initial().attempt(id) == 0,
        StateView::initial().codex_totals.total_tokens == 0,
        StateView::initial().codex_totals.millis_running == 0,
        StateView::initial().codex_rate_limits is None,
{
}

/// The model of the state has what the state has.
pub proof fn lemma_state_is_modelled(state: OrchestratorState)
    ensures
        state@.running == state.running@,
        state@.claimed == state.claimed@,
        state@.retry_attempts == state.retry_attempts@,
        state@.retrying == state.retrying@,
        state@.completed == state.completed@,
        state@.codex_totals == state.codex_totals,
        state.codex_rate_limits is Some ==> state@.codex_rate_limits == Some(
            state.codex_rate_limits->0@,
        ),
        state.codex_rate_limits is None ==> state@.codex_rate_limits is None,
{
}

/// The running time of a session is counted in whole milliseconds, none before it starts, and the
/// totals grow by it.
pub proof fn lemma_running_time_is_counted(
    started_at: int,
    now: int,
    totals: AggregateTokens,
    millis: nat,
)
    ensures
        now >= started_at ==> runtime_millis(started_at, now) * 1_000_000 <= now - started_at < (
        runtime_millis(started_at, now) + 1) * 1_000_000,
        now <= started_at ==> runtime_millis(started_at, now) == 0,
        totals.millis_running + millis <= u64::MAX ==> with_runtime(totals, millis).millis_running
            == totals.millis_running + millis,
        with_runtime(totals, millis).input_tokens == totals.input_tokens,
        with_runtime(totals, millis).output_tokens == totals.output_tokens,
        with_runtime(totals, millis).total_tokens == totals.total_tokens,
{
}

/// The rows and the entries of a snapshot come in the order of their identifiers.
pub proof fn lemma_rows_go_by_identifier(
    rows: Seq<RunningSnapshot>,
    running: Map<Seq<char>, SessionView>,
    entries: Seq<RetryEntry>,
    retrying: Map<Seq<char>, RetryView>,
    i: int,
    j: int,
)
    requires
        running_listed(rows, running),
        retrying_listed(entries, retrying),
        0 <= i < j,
    ensures
        j < rows.len() ==> !text::text_lt(rows[j].issue_identifier@, rows[i].issue_identifier@),
        j < entries.len() ==> !text::text_lt(
            entries[j].issue_identifier@,
            entries[i].issue_identifier@,
        ),
{
}

} // verus!
