//! Keeping the running sessions in step with the tracker.

use vstd::prelude::*;

use crate::config::TrackerConfig;
use crate::domain;
use crate::domain::{BlockerRef, BlockerView, LiveSession, SessionView};
use crate::orchestrator::state;
use crate::orchestrator::state::{OrchestratorState, StateView};
use crate::text;
use crate::time;
use crate::time::Timestamp;

verus! {

/// A session is stalled: nothing was heard of it for longer than the timeout. A timeout of zero or
/// less switches this off.
pub open spec fn stalled(session: SessionView, stall_timeout_ms: i64, now: int) -> bool {
    let last = match session.last_codex_timestamp {
        Some(at) => at,
        None => session.started_at,
    };
    stall_timeout_ms > 0 && time::whole_millis(now - last) > stall_timeout_ms
}

/// Tells whether a session is stalled.
pub fn is_stalled(session: &LiveSession, stall_timeout_ms: i64, now: Timestamp) -> (r: bool)
    ensures
        r == stalled(session@, stall_timeout_ms, now@),
{
    if stall_timeout_ms <= 0 {
        return false;
    }
    let last = match session.last_codex_timestamp {
        Some(at) => at,
        None => session.started_at,
    };
    last.millis_until(now) > stall_timeout_ms
}

impl StateView {
    /// Every session and every waiting retry is filed under its own issue.
    pub open spec fn keyed(self) -> bool {
        &&& forall|id: Seq<char>| #[trigger]
            self.running.contains_key(id) ==> self.running[id].issue_id == id
        &&& forall|id: Seq<char>| #[trigger]
            self.retrying.contains_key(id) ==> self.retrying[id].issue_id == id
    }

    /// A session is given up: it no longer runs and its claim is released.
    pub open spec fn drop_session(self, id: Seq<char>, now: int) -> StateView {
        self.retire(id, now).release(id)
    }

    /// Several sessions are given up, one after the other.
    pub open spec fn drop_sessions(self, ids: Seq<Seq<char>>, now: int) -> StateView
        decreases ids.len(),
    {
        if ids.len() == 0 {
            self
        } else {
            self.drop_sessions(ids.drop_last(), now).drop_session(ids.last(), now)
        }
    }

    /// The state after the tracker reports an issue. A finished issue is given up and forgotten, an
    /// active one is kept up to date, and any other is given up.
    pub open spec fn after_report(
        self,
        id: Seq<char>,
        issue_state: Seq<char>,
        active: Seq<Seq<char>>,
        terminal: Seq<Seq<char>>,
        now: int,
    ) -> StateView {
        if text::state_listed(issue_state, terminal) {
            self.drop_session(id, now).forget_retry(id)
        } else if text::state_listed(issue_state, active) {
            self.change(id, SessionView { issue_state, ..self.running[id] })
        } else {
            self.drop_session(id, now)
        }
    }

    /// The state after the tracker reports several issues.
    pub open spec fn after_reports(
        self,
        reports: Seq<BlockerView>,
        active: Seq<Seq<char>>,
        terminal: Seq<Seq<char>>,
        now: int,
    ) -> StateView
        decreases reports.len(),
    {
        if reports.len() == 0 {
            self
        } else {
            self.after_reports(reports.drop_last(), active, terminal, now).after_report(
                reports.last().id,
                reports.last().state,
                active,
                terminal,
                now,
            )
        }
    }
}

/// The stalled sessions, each once.
pub open spec fn lists_stalled(
    ids: Seq<Seq<char>>,
    running: Map<Seq<char>, SessionView>,
    stall_timeout_ms: i64,
    now: int,
) -> bool {
    &&& ids.no_duplicates()
    &&& forall|id: Seq<char>|
        ids.contains(id) <==> running.contains_key(id) && stalled(
            #[trigger] running[id],
            stall_timeout_ms,
            now,
        )
}

/// The ids of the stalled sessions.
pub fn stalled_issue_ids(state: &OrchestratorState, stall_timeout_ms: i64, now: Timestamp) -> (r: Vec<
    String,
>)
    ensures
        lists_stalled(text::texts(r@), state@.running, stall_timeout_ms, now@),
{
    let n: usize = state.running.len();
    let ghost keys = state.running.order();
    let ghost q = |id: Seq<char>| stalled(state@.running[id], stall_timeout_ms, now@);
    let mut out: Vec<String> = text::no_texts();
    let mut i: usize = 0;
    proof {
        reveal(Seq::filter);
        assert(text::texts(out@) =~= keys.take(0).filter(q));
    }
    while i < n
        invariant
            i <= n,
            n == keys.len(),
            keys == state.running.order(),
            q == |id: Seq<char>| stalled(state@.running[id], stall_timeout_ms, now@),
            text::texts(out@) == keys.take(i as int).filter(q),
        decreases n - i,
    {
        proof {
            reveal(Seq::filter);
            assert(keys.take(i + 1).drop_last() =~= keys.take(i as int));
            assert(keys.take(i + 1).last() == keys[i as int]);
        }
        if is_stalled(state.running.value_at(i), stall_timeout_ms, now) {
            text::push_text(&mut out, state.running.key_at(i).clone());
        }
        i = i + 1;
    }
    proof {
        assert(keys.take(n as int) =~= keys);
        lemma_filter_distinct(keys, q);
        assert forall|id: Seq<char>|
            text::texts(out@).contains(id) <==> state@.running.contains_key(id) && stalled(
                #[trigger] state@.running[id],
                stall_timeout_ms,
                now@,
            ) by {
            assert(keys.filter(q).contains(id) == (keys.contains(id) && q(id)));
            assert(keys.to_set().contains(id) == state@.running.dom().contains(id));
        }
    }
    out
}

proof fn lemma_filter_distinct(keys: Seq<Seq<char>>, q: spec_fn(Seq<char>) -> bool)
    requires
        keys.no_duplicates(),
    ensures
        keys.filter(q).no_duplicates(),
        forall|id: Seq<char>| #[trigger]
            keys.filter(q).contains(id) == (keys.contains(id) && q(id)),
    decreases keys.len(),
{
    reveal(Seq::filter);
    if keys.len() > 0 {
        let front = keys.drop_last();
        let last = keys.last();
        lemma_filter_distinct(front, q);
        let sub = front.filter(q);
        let out = keys.filter(q);
        assert(!front.contains(last)) by {
            if front.contains(last) {
                let k = choose|k: int| 0 <= k < front.len() && front[k] == last;
                assert(keys[k] == keys[keys.len() - 1]);
            }
        }
        assert forall|id: Seq<char>| #[trigger]
            out.contains(id) == (keys.contains(id) && q(id)) by {
            assert(sub.contains(id) == (front.contains(id) && q(id)));
            if keys.contains(id) {
                let k = choose|k: int| 0 <= k < keys.len() && keys[k] == id;
                if k < front.len() {
                    assert(front[k] == id);
                }
            }
            if front.contains(id) {
                let k = choose|k: int| 0 <= k < front.len() && front[k] == id;
                assert(keys[k] == id);
            }
            assert(keys[keys.len() - 1] == last);
            if sub.contains(id) {
                let k = choose|k: int| 0 <= k < sub.len() && sub[k] == id;
                assert(out[k] == id);
            }
            if q(last) {
                assert(out[out.len() - 1] == last);
            }
            if out.contains(id) {
                let k = choose|k: int| 0 <= k < out.len() && out[k] == id;
                if k < sub.len() {
                    assert(sub[k] == id);
                }
            }
        }
        assert forall|a: int, b: int| 0 <= a < out.len() && 0 <= b < out.len() && a
            != b implies out[a] != out[b] by {
            if a < sub.len() {
                assert(sub.contains(sub[a]));
            }
            if b < sub.len() {
                assert(sub.contains(sub[b]));
            }
        }
    }
}

/// Gives the stalled sessions up and hands out their ids: their workers are to be stopped.
pub fn reap_stalled(state: &mut OrchestratorState, stall_timeout_ms: i64, now: Timestamp) -> (r: Vec<
    String,
>)
    ensures
        lists_stalled(text::texts(r@), old(state)@.running, stall_timeout_ms, now@),
        final(state)@ == old(state)@.drop_sessions(text::texts(r@), now@),
{
    let ids = stalled_issue_ids(state, stall_timeout_ms, now);
    let ghost all = text::texts(ids@);
    let ghost start = state@;
    let mut i: usize = 0;
    proof {
        assert(all.take(0).len() == 0);
    }
    while i < ids.len()
        invariant
            i <= ids@.len(),
            all == text::texts(ids@),
            state@ == start.drop_sessions(all.take(i as int), now@),
        decreases ids@.len() - i,
    {
        proof {
            let next = all.take(i + 1);
            assert(next.drop_last() =~= all.take(i as int));
            assert(next.last() == ids@[i as int]@);
        }
        let _ = state.retire(ids[i].as_str(), now);
        state.release_claim(ids[i].as_str());
        i = i + 1;
    }
    proof {
        assert(all.take(all.len() as int) =~= all);
    }
    ids
}

/// The ids of the running sessions.
pub fn running_issue_ids(state: &OrchestratorState) -> (r: Vec<String>)
    ensures
        state::lists(text::texts(r@), state@.running),
{
    let n: usize = state.running.len();
    let mut out: Vec<String> = Vec::new();
    let mut i: usize = 0;
    while i < n
        invariant
            i <= n,
            n == state.running.order().len(),
            out@.len() == i,
            forall|k: int| 0 <= k < i ==> (#[trigger] out@[k])@ == state.running.order()[k],
        decreases n - i,
    {
        out.push(state.running.key_at(i).clone());
        i = i + 1;
    }
    proof {
        assert(text::texts(out@) =~= state.running.order());
    }
    out
}

/// What is to be done outside the state.
#[derive(Debug)]
pub enum ReconcileAction {
    Terminate { issue_id: String },
    Cleanup { issue_identifier: String, worker_host: Option<String> },
}

/// The model of what is to be done outside the state.
pub enum ReconcileView {
    Terminate { issue_id: Seq<char> },
    Cleanup { issue_identifier: Seq<char>, worker_host: Option<Seq<char>> },
}

impl View for ReconcileAction {
    type V = ReconcileView;

    open spec fn view(&self) -> ReconcileView {
        match self {
            ReconcileAction::Terminate { issue_id } => ReconcileView::Terminate {
                issue_id: issue_id@,
            },
            ReconcileAction::Cleanup { issue_identifier, worker_host } => ReconcileView::Cleanup {
                issue_identifier: issue_identifier@,
                worker_host: text::opt_text(*worker_host),
            },
        }
    }
}

/// The models of a list of actions.
pub open spec fn actions_view(actions: Seq<ReconcileAction>) -> Seq<ReconcileView> {
    Seq::new(actions.len(), |i: int| actions[i]@)
}

/// What the report of an issue asks for: the worker of an issue that is not active is stopped, and
/// the workspace of a session on a finished one is removed.
pub open spec fn report_actions(
    s: StateView,
    id: Seq<char>,
    issue_state: Seq<char>,
    active: Seq<Seq<char>>,
    terminal: Seq<Seq<char>>,
) -> Seq<ReconcileView> {
    let stop = Seq::empty().push(ReconcileView::Terminate { issue_id: id });
    if text::state_listed(issue_state, terminal) {
        if s.running.contains_key(id) {
            stop.push(
                ReconcileView::Cleanup {
                    issue_identifier: s.running[id].issue_identifier,
                    worker_host: s.running[id].worker_host,
                },
            )
        } else {
            stop
        }
    } else if text::state_listed(issue_state, active) {
        Seq::empty()
    } else {
        stop
    }
}

/// What the reports of several issues ask for, in their order.
pub open spec fn reports_actions(
    s: StateView,
    reports: Seq<BlockerView>,
    active: Seq<Seq<char>>,
    terminal: Seq<Seq<char>>,
    now: int,
) -> Seq<ReconcileView>
    decreases reports.len(),
{
    if reports.len() == 0 {
        Seq::empty()
    } else {
        let front = reports.drop_last();
        reports_actions(s, front, active, terminal, now) + report_actions(
            s.after_reports(front, active, terminal, now),
            reports.last().id,
            reports.last().state,
            active,
            terminal,
        )
    }
}

fn apply_report(
    state: &mut OrchestratorState,
    report: &BlockerRef,
    config: &TrackerConfig,
    now: Timestamp,
    actions: &mut Vec<ReconcileAction>,
)
    ensures
        final(state)@ == old(state)@.after_report(
            report@.id,
            report@.state,
            text::texts(config.active_states@),
            text::texts(config.terminal_states@),
            now@,
        ),
        actions_view(final(actions)@) == actions_view(old(actions)@) + report_actions(
            old(state)@,
            report@.id,
            report@.state,
            text::texts(config.active_states@),
            text::texts(config.terminal_states@),
        ),
{
    let id = report.id.as_str();
    let ghost before = actions_view(actions@);
    let ghost wanted = report_actions(
        state@,
        report@.id,
        report@.state,
        text::texts(config.active_states@),
        text::texts(config.terminal_states@),
    );
    if text::state_matches(report.state.as_str(), &config.terminal_states) {
        actions.push(ReconcileAction::Terminate { issue_id: id.to_owned() });
        if let Some(session) = state.retire(id, now) {
            actions.push(
                ReconcileAction::Cleanup {
                    issue_identifier: session.issue_identifier,
                    worker_host: session.worker_host,
                },
            );
        }
        state.release_claim(id);
        state.clear_retry_attempt(id);
    } else if text::state_matches(report.state.as_str(), &config.active_states) {
        state.update_session_state(id, report.state.as_str());
    } else {
        actions.push(ReconcileAction::Terminate { issue_id: id.to_owned() });
        let _ = state.retire(id, now);
        state.release_claim(id);
    }
    proof {
        assert(actions_view(actions@) =~= before + wanted);
    }
}

/// Brings the running sessions in step with what the tracker reports, and hands out what is to be
/// done outside the state.
pub fn reconcile(
    state: &mut OrchestratorState,
    refreshed: &[BlockerRef],
    config: &TrackerConfig,
    now: Timestamp,
) -> (r: Vec<ReconcileAction>)
    ensures
        final(state)@ == old(state)@.after_reports(
            domain::blockers(refreshed@),
            text::texts(config.active_states@),
            text::texts(config.terminal_states@),
            now@,
        ),
        actions_view(r@) == reports_actions(
            old(state)@,
            domain::blockers(refreshed@),
            text::texts(config.active_states@),
            text::texts(config.terminal_states@),
            now@,
        ),
{
    let ghost all = domain::blockers(refreshed@);
    let ghost start = state@;
    let ghost active = text::texts(config.active_states@);
    let ghost terminal = text::texts(config.terminal_states@);
    let mut actions: Vec<ReconcileAction> = Vec::new();
    let mut i: usize = 0;
    proof {
        assert(actions_view(actions@) =~= Seq::<ReconcileView>::empty());
    }
    while i < refreshed.len()
        invariant
            i <= refreshed@.len(),
            all == domain::blockers(refreshed@),
            active == text::texts(config.active_states@),
            terminal == text::texts(config.terminal_states@),
            state@ == start.after_reports(all.take(i as int), active, terminal, now@),
            actions_view(actions@) == reports_actions(
                start,
                all.take(i as int),
                active,
                terminal,
                now@,
            ),
        decreases refreshed@.len() - i,
    {
        proof {
            let next = all.take(i + 1);
            assert(next.drop_last() =~= all.take(i as int));
            assert(next.last() == refreshed@[i as int]@);
        }
        apply_report(state, &refreshed[i], config, now, &mut actions);
        i = i + 1;
    }
    proof {
        assert(all.take(all.len() as int) =~= all);
    }
    actions
}

/// Giving stalled sessions up takes exactly those out of the running sessions and out of the
/// claims, and leaves the retries and the completed issues alone.
pub proof fn lemma_drop_sessions(s: StateView, ids: Seq<Seq<char>>, now: int)
    ensures
        forall|id: Seq<char>| #[trigger]
            s.drop_sessions(ids, now).running.contains_key(id) <==> s.running.contains_key(id)
                && !ids.contains(id),
        forall|id: Seq<char>|
            s.drop_sessions(ids, now).running.contains_key(id) ==> #[trigger] s.drop_sessions(
                ids,
                now,
            ).running[id] == s.running[id],
        forall|id: Seq<char>| #[trigger]
            s.drop_sessions(ids, now).claimed.contains(id) <==> s.claimed.contains(id)
                && !ids.contains(id),
        s.drop_sessions(ids, now).retry_attempts == s.retry_attempts,
        s.drop_sessions(ids, now).retrying == s.retrying,
        s.drop_sessions(ids, now).completed == s.completed,
    decreases ids.len(),
{
    if ids.len() > 0 {
        let front = ids.drop_last();
        lemma_drop_sessions(s, front, now);
        assert forall|id: Seq<char>| ids.contains(id) == (front.contains(id) || id == ids.last()) by {
            if ids.contains(id) {
                let k = choose|k: int| 0 <= k < ids.len() && ids[k] == id;
                if k < front.len() {
                    assert(front[k] == id);
                }
            }
            if front.contains(id) {
                let k = choose|k: int| 0 <= k < front.len() && front[k] == id;
                assert(ids[k] == id);
            }
            assert(ids[ids.len() - 1] == ids.last());
        }
    }
}

/// An issue that the tracker reports as finished no longer runs, is not claimed and waits for no
/// retry.
pub proof fn lemma_finished_issue_is_forgotten(
    s: StateView,
    id: Seq<char>,
    issue_state: Seq<char>,
    active: Seq<Seq<char>>,
    terminal: Seq<Seq<char>>,
    now: int,
)
    requires
        text::state_listed(issue_state, terminal),
    ensures
        ({
            let after = s.after_report(id, issue_state, active, terminal, now);
            &&& !after.running.contains_key(id)
            &&& !after.claimed.contains(id)
            &&& !after.retry_attempts.contains_key(id)
            &&& !after.retrying.contains_key(id)
        }),
{
}

/// The report of one issue leaves the sessions, claims and retries of all others as they are.
pub proof fn lemma_report_touches_one_issue(
    s: StateView,
    id: Seq<char>,
    issue_state: Seq<char>,
    active: Seq<Seq<char>>,
    terminal: Seq<Seq<char>>,
    now: int,
    other: Seq<char>,
)
    requires
        other != id,
    ensures
        ({
            let after = s.after_report(id, issue_state, active, terminal, now);
            &&& after.running.contains_key(other) == s.running.contains_key(other)
            &&& s.running.contains_key(other) ==> after.running[other] == s.running[other]
            &&& after.claimed.contains(other) == s.claimed.contains(other)
            &&& after.retry_attempts.contains_key(other) == s.retry_attempts.contains_key(other)
            &&& s.retry_attempts.contains_key(other) ==> after.retry_attempts[other]
                == s.retry_attempts[other]
            &&& after.retrying.contains_key(other) == s.retrying.contains_key(other)
            &&& s.retrying.contains_key(other) ==> after.retrying[other] == s.retrying[other]
            &&& after.completed == s.completed
        }),
{
}

/// Reports keep every session filed under its own issue.
pub proof fn lemma_reports_keep_keys(
    s: StateView,
    reports: Seq<BlockerView>,
    active: Seq<Seq<char>>,
    terminal: Seq<Seq<char>>,
    now: int,
)
    requires
        s.keyed(),
    ensures
        s.after_reports(reports, active, terminal, now).keyed(),
    decreases reports.len(),
{
    if reports.len() > 0 {
        lemma_reports_keep_keys(s, reports.drop_last(), active, terminal, now);
    }
}

/// An issue that the tracker reports in a state that is neither active nor finished no longer runs and
/// is not claimed, and what it ran is counted.
pub proof fn lemma_inactive_issue_is_given_up(
    s: StateView,
    id: Seq<char>,
    issue_state: Seq<char>,
    active: Seq<Seq<char>>,
    terminal: Seq<Seq<char>>,
    now: int,
)
    requires
        !text::state_listed(issue_state, active),
    ensures
        ({
            let after = s.after_report(id, issue_state, active, terminal, now);
            let millis = time::whole_millis(now - s.running[id].started_at);
            &&& !after.running.contains_key(id)
            &&& !after.claimed.contains(id)
            &&& s.running.contains_key(id) && 0 < millis && s.codex_totals.millis_running + millis
                <= u64::MAX ==> after.codex_totals.millis_running
                == s.codex_totals.millis_running + millis
            &&& !s.running.contains_key(id) || millis <= 0 ==> after.codex_totals.millis_running
                == s.codex_totals.millis_running
            &&& after.codex_totals.input_tokens == s.codex_totals.input_tokens
            &&& after.codex_totals.output_tokens == s.codex_totals.output_tokens
            &&& after.codex_totals.total_tokens == s.codex_totals.total_tokens
            &&& !text::state_listed(issue_state, terminal) ==> after.retry_attempts
                == s.retry_attempts && after.retrying == s.retrying
        }),
{
}

/// An issue that the tracker reports in an active state runs on, in the state that is reported, and
/// keeps its claim and all else of its session.
pub proof fn lemma_active_issue_runs_on(
    s: StateView,
    id: Seq<char>,
    issue_state: Seq<char>,
    active: Seq<Seq<char>>,
    terminal: Seq<Seq<char>>,
    now: int,
)
    requires
        text::state_listed(issue_state, active),
        !text::state_listed(issue_state, terminal),
    ensures
        ({
            let after = s.after_report(id, issue_state, active, terminal, now);
            &&& after.running.contains_key(id) == s.running.contains_key(id)
            &&& s.running.contains_key(id) ==> after.running[id].issue_state == issue_state
                && after.running[id].issue_id == s.running[id].issue_id
                && after.running[id].issue_identifier == s.running[id].issue_identifier
                && after.running[id].session_id == s.running[id].session_id
                && after.running[id].started_at == s.running[id].started_at
                && after.running[id].last_codex_timestamp == s.running[id].last_codex_timestamp
                && after.running[id].turn_count == s.running[id].turn_count
                && after.running[id].workspace_path == s.running[id].workspace_path
                && after.running[id].worker_host == s.running[id].worker_host
                && after.running[id].tokens == s.running[id].tokens
            &&& after.claimed == s.claimed
            &&& after.retry_attempts == s.retry_attempts
            &&& after.retrying == s.retrying
            &&& after.completed == s.completed
            &&& after.codex_totals == s.codex_totals
        }),
{
}

/// What a report asks for: nothing where the issue is active; else that its worker is stopped, and
/// where it is finished and ran that its workspace is removed, on the host that it ran on. The worker
/// is stopped first.
pub proof fn lemma_report_asks_for_what_is_due(
    s: StateView,
    id: Seq<char>,
    issue_state: Seq<char>,
    active: Seq<Seq<char>>,
    terminal: Seq<Seq<char>>,
)
    ensures
        ({
            let actions = report_actions(s, id, issue_state, active, terminal);
            let finished = text::state_listed(issue_state, terminal);
            let works = text::state_listed(issue_state, active);
            &&& works && !finished ==> actions.len() == 0
            &&& !works || finished ==> actions.len() > 0 && actions[0] == (ReconcileView::Terminate {
                issue_id: id,
            })
            &&& finished && s.running.contains_key(id) ==> actions.len() == 2 && actions[1] == (
            ReconcileView::Cleanup {
                issue_identifier: s.running[id].issue_identifier,
                worker_host: s.running[id].worker_host,
            })
            &&& !finished || !s.running.contains_key(id) ==> actions.len() <= 1
        }),
{
}

/// After a round of reports no issue of which the last report names a state that is not active runs or
/// is claimed, and the round asks for its worker to be stopped.
pub proof fn lemma_reports_stop_inactive(
    s: StateView,
    reports: Seq<BlockerView>,
    active: Seq<Seq<char>>,
    terminal: Seq<Seq<char>>,
    now: int,
    k: int,
)
    requires
        0 <= k < reports.len(),
        !text::state_listed(reports[k].state, active) || text::state_listed(
            reports[k].state,
            terminal,
        ),
        forall|j: int| k < j < reports.len() ==> (#[trigger] reports[j]).id != reports[k].id,
    ensures
        ({
            let after = s.after_reports(reports, active, terminal, now);
            &&& !after.running.contains_key(reports[k].id)
            &&& !after.claimed.contains(reports[k].id)
            &&& reports_actions(s, reports, active, terminal, now).contains(
                ReconcileView::Terminate { issue_id: reports[k].id },
            )
        }),
    decreases reports.len(),
{
    let front = reports.drop_last();
    let last = reports.last();
    let before = s.after_reports(front, active, terminal, now);
    let earlier = reports_actions(s, front, active, terminal, now);
    let added = report_actions(before, last.id, last.state, active, terminal);
    let stop = ReconcileView::Terminate { issue_id: reports[k].id };
    lemma_report_asks_for_what_is_due(before, last.id, last.state, active, terminal);
    if k == reports.len() - 1 {
        assert((earlier + added)[earlier.len() as int] == stop);
    } else {
        assert(front[k] == reports[k]);
        assert forall|j: int| k < j < front.len() implies (#[trigger] front[j]).id != front[k].id by {
            assert(front[j] == reports[j]);
        }
        lemma_reports_stop_inactive(s, front, active, terminal, now, k);
        assert(reports[reports.len() - 1].id != reports[k].id);
        let i = choose|i: int| 0 <= i < earlier.len() && earlier[i] == stop;
        assert((earlier + added)[i] == stop);
    }
}

/// After a round of reports in which an issue is reported in active states only, it runs on where it
/// ran, with its claim, and the round asks for nothing of its worker.
pub proof fn lemma_reports_keep_active(
    s: StateView,
    reports: Seq<BlockerView>,
    active: Seq<Seq<char>>,
    terminal: Seq<Seq<char>>,
    now: int,
    id: Seq<char>,
)
    requires
        forall|j: int|
            0 <= j < reports.len() && (#[trigger] reports[j]).id == id ==> text::state_listed(
                reports[j].state,
                active,
            ) && !text::state_listed(reports[j].state, terminal),
    ensures
        ({
            let after = s.after_reports(reports, active, terminal, now);
            &&& after.running.contains_key(id) == s.running.contains_key(id)
            &&& after.claimed.contains(id) == s.claimed.contains(id)
            &&& !reports_actions(s, reports, active, terminal, now).contains(
                ReconcileView::Terminate { issue_id: id },
            )
        }),
    decreases reports.len(),
{
    if reports.len() > 0 {
        let front = reports.drop_last();
        let last = reports.last();
        assert forall|j: int| 0 <= j < front.len() && (#[trigger] front[j]).id
            == id implies text::state_listed(front[j].state, active) && !text::state_listed(
            front[j].state,
            terminal,
        ) by {
            assert(front[j] == reports[j]);
        }
        assert(reports[reports.len() - 1] == last);
        lemma_reports_keep_active(s, front, active, terminal, now, id);
        let before = s.after_reports(front, active, terminal, now);
        let earlier = reports_actions(s, front, active, terminal, now);
        let added = report_actions(before, last.id, last.state, active, terminal);
        let stop = ReconcileView::Terminate { issue_id: id };
        if (earlier + added).contains(stop) {
            let i = choose|i: int| 0 <= i < (earlier + added).len() && (earlier + added)[i] == stop;
            if i < earlier.len() {
                assert(earlier[i] == stop);
            } else {
                assert(added[i - earlier.len()] == stop);
            }
        }
    }
}

/// A session is stalled where its last sign, or its start where it gave none, lies back longer than
/// the timeout, and where the timeout is switched off none is.
pub proof fn lemma_silence_stalls(session: SessionView, stall_timeout_ms: i64, now: int)
    ensures
        stall_timeout_ms <= 0 ==> !stalled(session, stall_timeout_ms, now),
        stall_timeout_ms > 0 && session.last_codex_timestamp is Some ==> (stalled(
            session,
            stall_timeout_ms,
            now,
        ) <==> now - session.last_codex_timestamp->0 >= (stall_timeout_ms + 1) * 1_000_000),
        stall_timeout_ms > 0 && session.last_codex_timestamp is None ==> (stalled(
            session,
            stall_timeout_ms,
            now,
        ) <==> now - session.started_at >= (stall_timeout_ms + 1) * 1_000_000),
{
}

/// A stalled session no longer runs and is not claimed once the stalled ones are given up, and every
/// other one is as it was.
pub proof fn lemma_only_stalled_are_given_up(
    s: StateView,
    ids: Seq<Seq<char>>,
    stall_timeout_ms: i64,
    now: int,
    id: Seq<char>,
)
    requires
        lists_stalled(ids, s.running, stall_timeout_ms, now),
        s.running.contains_key(id),
    ensures
        ({
            let after = s.drop_sessions(ids, now);
            let last = match s.running[id].last_codex_timestamp {
                Some(at) => at,
                None => s.running[id].started_at,
            };
            let silent = stall_timeout_ms > 0 && now - last >= (stall_timeout_ms + 1) * 1_000_000;
            &&& silent ==> ids.contains(id) && !after.running.contains_key(id)
                && !after.claimed.contains(id)
            &&& !silent ==> !ids.contains(id) && after.running.contains_key(id) && after.running[id]
                == s.running[id] && after.claimed.contains(id) == s.claimed.contains(id)
        }),
{
    lemma_silence_stalls(s.running[id], stall_timeout_ms, now);
    lemma_drop_sessions(s, ids, now);
    assert(stalled(s.running[id], stall_timeout_ms, now) == ids.contains(id));
}

/// What is to be done is modelled as it is, in order.
pub proof fn lemma_actions_are_modelled(actions: Seq<ReconcileAction>, i: int)
    requires
        0 <= i < actions.len(),
    ensures
        actions_view(actions).len() == actions.len(),
        actions[i] is Terminate ==> actions_view(actions)[i] == (ReconcileView::Terminate {
            issue_id: actions[i]->Terminate_issue_id@,
        }),
        actions[i] is Cleanup ==> actions_view(actions)[i] is Cleanup
            && actions_view(actions)[i]->Cleanup_issue_identifier
            == actions[i]->Cleanup_issue_identifier@,
        actions[i] is Cleanup && actions[i]->Cleanup_worker_host is Some
            ==> actions_view(actions)[i]->Cleanup_worker_host == Some(
            actions[i]->Cleanup_worker_host->0@,
        ),
        actions[i] is Cleanup && actions[i]->Cleanup_worker_host is None
            ==> actions_view(actions)[i]->Cleanup_worker_host is None,
{
}

/// What the reports ask for comes in the order of the reports.
pub proof fn lemma_actions_follow_reports(
    s: StateView,
    reports: Seq<BlockerView>,
    report: BlockerView,
    active: Seq<Seq<char>>,
    terminal: Seq<Seq<char>>,
    now: int,
)
    ensures
        reports_actions(s, Seq::empty(), active, terminal, now).len() == 0,
        reports_actions(s, reports.push(report), active, terminal, now) == reports_actions(
            s,
            reports,
            active,
            terminal,
            now,
        ) + report_actions(
            s.after_reports(reports, active, terminal, now),
            report.id,
            report.state,
            active,
            terminal,
        ),
        s.after_reports(reports.push(report), active, terminal, now) == s.after_reports(
            reports,
            active,
            terminal,
            now,
        ).after_report(report.id, report.state, active, terminal, now),
{
    assert(reports.push(report).drop_last() =~= reports);
}

} // verus!
