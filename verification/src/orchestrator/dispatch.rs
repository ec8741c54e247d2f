//! Which issues are dispatched, in what order, and where.

use vstd::prelude::*;

use crate::config::{AgentConfig, WorkerConfig};
use crate::domain;
use crate::domain::{BlockerView, Issue, IssueView};
use crate::orchestrator::state::{OrchestratorState, StateView};
use crate::sorting;
use crate::sorting::SortKey;
use crate::text;

verus! {

/// The slots that are left of a number of slots.
pub open spec fn free_slots(max: u32, used: nat) -> u32 {
    if used >= max {
        0
    } else {
        (max - used) as u32
    }
}

/// The slots that are left for issues in a state; none where the state has no limit of its own.
pub open spec fn free_state_slots(
    state: StateView,
    issue_state: Seq<char>,
    limits: Map<Seq<char>, u32>,
) -> Option<u32> {
    let key = text::state_key(issue_state);
    if limits.contains_key(key) {
        Some(free_slots(limits[key], state.count_in_state(issue_state)))
    } else {
        None
    }
}

/// An issue names itself: its id, identifier, title and state are not blank.
pub open spec fn complete(issue: IssueView) -> bool {
    &&& !text::blank(issue.id)
    &&& !text::blank(issue.identifier)
    &&& !text::blank(issue.title)
    &&& !text::blank(issue.state)
}

/// Nothing holds an issue back: it is past `Todo`, or all that blocks it is finished.
pub open spec fn unblocked(issue: IssueView, terminal_states: Seq<Seq<char>>) -> bool {
    text::state_key(issue.state) == "todo"@ ==> forall|i: int|
        0 <= i < issue.blocked_by.len() ==> text::state_listed(
            (#[trigger] issue.blocked_by[i]).state,
            terminal_states,
        )
}

/// An issue may be dispatched now.
pub open spec fn eligible(
    issue: IssueView,
    state: StateView,
    max_agents: u32,
    limits: Map<Seq<char>, u32>,
    active_states: Seq<Seq<char>>,
    terminal_states: Seq<Seq<char>>,
) -> bool {
    &&& complete(issue)
    &&& text::state_listed(issue.state, active_states)
    &&& !text::state_listed(issue.state, terminal_states)
    &&& !state.claimed.contains(issue.id)
    &&& free_slots(max_agents, state.running.dom().len()) > 0
    &&& free_state_slots(state, issue.state, limits) != Some(0u32)
    &&& unblocked(issue, terminal_states)
}

/// The models of a list of issues.
pub open spec fn refs_view(items: Seq<&Issue>) -> Seq<IssueView> {
    Seq::new(items.len(), |i: int| items[i]@)
}

fn has_required_fields(issue: &Issue) -> (r: bool)
    ensures
        r == complete(issue@),
{
    !text::is_blank(issue.id.as_str()) && !text::is_blank(issue.identifier.as_str())
        && !text::is_blank(issue.title.as_str()) && !text::is_blank(issue.state.as_str())
}

fn todo_blockers_satisfied(issue: &Issue, terminal_states: &[String]) -> (r: bool)
    ensures
        r == unblocked(issue@, text::texts(terminal_states@)),
{
    let key = text::normalize_state(issue.state.as_str());
    if !text::same(key.as_str(), "todo") {
        return true;
    }
    let mut i: usize = 0;
    while i < issue.blocked_by.len()
        invariant
            i <= issue.blocked_by@.len(),
            text::state_key(issue@.state) == "todo"@,
            forall|k: int|
                0 <= k < i ==> text::state_listed(
                    (#[trigger] issue@.blocked_by[k]).state,
                    text::texts(terminal_states@),
                ),
        decreases issue.blocked_by@.len() - i,
    {
        if !text::state_matches(issue.blocked_by[i].state.as_str(), terminal_states) {
            proof {
                assert(!text::state_listed(
                    issue@.blocked_by[i as int].state,
                    text::texts(terminal_states@),
                ));
            }
            return false;
        }
        i = i + 1;
    }
    true
}

/// Tells whether an issue may be dispatched now.
pub fn is_eligible(
    issue: &Issue,
    state: &OrchestratorState,
    config: &AgentConfig,
    active_states: &[String],
    terminal_states: &[String],
) -> (r: bool)
    ensures
        r == eligible(
            issue@,
            state@,
            config.max_concurrent_agents,
            config.max_concurrent_agents_by_state@,
            text::texts(active_states@),
            text::texts(terminal_states@),
        ),
        r == (!text::blank(issue@.id) && !text::blank(issue@.identifier) && !text::blank(
            issue@.title,
        ) && !text::blank(issue@.state) && text::state_listed(
            issue@.state,
            text::texts(active_states@),
        ) && !text::state_listed(issue@.state, text::texts(terminal_states@))
            && !state@.claimed.contains(issue@.id) && state@.running.dom().len()
            < config.max_concurrent_agents && (
        config.max_concurrent_agents_by_state@.contains_key(text::state_key(issue@.state))
            ==> state@.count_in_state(issue@.state)
            < config.max_concurrent_agents_by_state@[text::state_key(issue@.state)]) && (
        text::state_key(issue@.state) != "todo"@ || (forall|i: int|
            0 <= i < issue@.blocked_by.len() ==> text::state_listed(
                (#[trigger] issue@.blocked_by[i]).state,
                text::texts(terminal_states@),
            )))),
{
    if !has_required_fields(issue) {
        return false;
    }
    if !text::state_matches(issue.state.as_str(), active_states) {
        return false;
    }
    if text::state_matches(issue.state.as_str(), terminal_states) {
        return false;
    }
    if state.is_claimed(issue.id.as_str()) {
        return false;
    }
    if available_global_slots(state, config.max_concurrent_agents) == 0 {
        return false;
    }
    if let Some(slots) = available_state_slots(state, issue.state.as_str(), config) {
        if slots == 0 {
            return false;
        }
    }
    todo_blockers_satisfied(issue, terminal_states)
}

/// The candidates that may be dispatched now, in their order.
pub fn select_eligible<'a>(
    candidates: &'a [Issue],
    state: &OrchestratorState,
    config: &AgentConfig,
    active_states: &[String],
    terminal_states: &[String],
) -> (r: Vec<&'a Issue>)
    ensures
        refs_view(r@) == domain::issues(candidates@).filter(
            |issue: IssueView|
                eligible(
                    issue,
                    state@,
                    config.max_concurrent_agents,
                    config.max_concurrent_agents_by_state@,
                    text::texts(active_states@),
                    text::texts(terminal_states@),
                ),
        ),
{
    let ghost all = domain::issues(candidates@);
    let ghost p = |issue: IssueView|
        eligible(
            issue,
            state@,
            config.max_concurrent_agents,
            config.max_concurrent_agents_by_state@,
            text::texts(active_states@),
            text::texts(terminal_states@),
        );
    let mut out: Vec<&'a Issue> = Vec::new();
    let mut i: usize = 0;
    proof {
        reveal(Seq::filter);
        assert(refs_view(out@) =~= all.take(0).filter(p));
    }
    while i < candidates.len()
        invariant
            i <= candidates@.len(),
            all == domain::issues(candidates@),
            p == (|issue: IssueView|
                eligible(
                    issue,
                    state@,
                    config.max_concurrent_agents,
                    config.max_concurrent_agents_by_state@,
                    text::texts(active_states@),
                    text::texts(terminal_states@),
                )),
            refs_view(out@) == all.take(i as int).filter(p),
        decreases candidates@.len() - i,
    {
        let issue: &'a Issue = &candidates[i];
        let ghost before = refs_view(out@);
        proof {
            reveal(Seq::filter);
            assert(all.take(i + 1).drop_last() =~= all.take(i as int));
            assert(all.take(i + 1).last() == issue@);
        }
        if is_eligible(issue, state, config, active_states, terminal_states) {
            out.push(issue);
            proof {
                assert(refs_view(out@) =~= before.push(issue@));
            }
        }
        i = i + 1;
    }
    proof {
        assert(all.take(all.len() as int) =~= all);
    }
    out
}

/// The rank of a priority: the smaller comes first, and no priority comes last.
pub open spec fn priority_rank(priority: Option<i32>) -> int {
    match priority {
        Some(p) => p as int,
        None => i32::MAX + 1,
    }
}

/// The text by which the creation time is compared. An issue without one comes last.
pub open spec fn created_key(issue: IssueView) -> Seq<char> {
    match issue.created_at {
        Some(at) => at,
        None => "9999-99-99T99:99:99Z"@,
    }
}

/// An issue is dispatched ahead of another one: by priority, then by creation time, then by
/// identifier.
pub open spec fn issue_before(a: IssueView, b: IssueView) -> bool {
    if priority_rank(a.priority) != priority_rank(b.priority) {
        priority_rank(a.priority) < priority_rank(b.priority)
    } else if created_key(a) != created_key(b) {
        text::text_lt(created_key(a), created_key(b))
    } else {
        text::text_lt(a.identifier, b.identifier)
    }
}

/// A key that sorts issues for dispatch.
pub struct IssueKey<'a> {
    pub issue: &'a Issue,
}

fn created_at_key(issue: &Issue) -> (r: &str)
    ensures
        r@ == created_key(issue@),
{
    match &issue.created_at {
        Some(at) => at.as_str(),
        None => "9999-99-99T99:99:99Z",
    }
}

fn priority_key(issue: &Issue) -> (r: i64)
    ensures
        r == priority_rank(issue@.priority),
{
    match issue.priority {
        Some(priority) => priority as i64,
        None => 2_147_483_648,
    }
}

impl<'a> SortKey for IssueKey<'a> {
    open spec fn before(&self, other: &Self) -> bool {
        issue_before(self.issue@, other.issue@)
    }

    proof fn weak_order(a: &Self, b: &Self, c: &Self) {
        let x = a.issue@;
        let y = b.issue@;
        let z = c.issue@;
        text::lemma_text_lt_total(created_key(x), created_key(y));
        text::lemma_text_lt_total(x.identifier, y.identifier);
        text::lemma_text_lt_total(created_key(y), created_key(z));
        text::lemma_text_lt_total(created_key(x), created_key(z));
        if a.before(c) && !a.before(b) && !b.before(c) {
            if text::text_lt(created_key(y), created_key(x)) && text::text_lt(
                created_key(x),
                created_key(z),
            ) {
                text::lemma_text_lt_transitive(created_key(y), created_key(x), created_key(z));
            }
            if text::text_lt(y.identifier, x.identifier) && text::text_lt(
                x.identifier,
                z.identifier,
            ) {
                text::lemma_text_lt_transitive(y.identifier, x.identifier, z.identifier);
            }
            if text::text_lt(created_key(x), created_key(z)) && text::text_lt(
                created_key(z),
                created_key(y),
            ) {
                text::lemma_text_lt_transitive(created_key(x), created_key(z), created_key(y));
            }
        }
    }

    fn is_before(&self, other: &Self) -> (r: bool) {
        let left: i64 = priority_key(self.issue);
        let right: i64 = priority_key(other.issue);
        if left != right {
            return left < right;
        }
        let a = created_at_key(self.issue);
        let b = created_at_key(other.issue);
        if !text::same(a, b) {
            return text::comes_before(a, b);
        }
        text::comes_before(self.issue.identifier.as_str(), other.issue.identifier.as_str())
    }
}

/// `after` holds the issues of `before` in dispatch order: each once, none ahead of an issue that
/// comes before it, and issues that tie in the order they had.
pub open spec fn dispatch_sorted(before: Seq<IssueView>, after: Seq<IssueView>) -> bool {
    exists|order: Seq<int>| #[trigger]
        sorting::is_permutation(order, before.len() as int) && after == sorting::permuted(
            before,
            order,
        ) && forall|i: int, j: int|
            0 <= i < j < order.len() ==> !issue_before(
                before[#[trigger] order[j]],
                before[#[trigger] order[i]],
            ) && (!issue_before(before[order[i]], before[order[j]]) ==> order[i] < order[j])
}

/// Sorts the candidates for dispatch.
pub fn sort_candidates(candidates: &mut [&Issue])
    ensures
        dispatch_sorted(refs_view(old(candidates)@), refs_view(final(candidates)@)),
{
    let n: usize = candidates.len();
    let mut keys: Vec<IssueKey> = Vec::new();
    let mut i: usize = 0;
    while i < n
        invariant
            i <= n,
            n == candidates@.len(),
            keys@.len() == i,
            forall|k: int| 0 <= k < i ==> (#[trigger] keys@[k]).issue == candidates@[k],
        decreases n - i,
    {
        keys.push(IssueKey { issue: candidates[i] });
        i = i + 1;
    }
    let order = sorting::stable_order(&keys);
    let mut sorted: Vec<&Issue> = Vec::new();
    let mut j: usize = 0;
    while j < n
        invariant
            j <= n,
            n == candidates@.len(),
            n == order@.len(),
            forall|k: int| 0 <= k < order@.len() ==> #[trigger] order@[k] < n,
            sorted@.len() == j,
            forall|k: int| 0 <= k < j ==> #[trigger] sorted@[k] == candidates@[order@[k] as int],
        decreases n - j,
    {
        sorted.push(candidates[order[j]]);
        j = j + 1;
    }
    proof {
        let before = refs_view(candidates@);
        let after = refs_view(sorted@);
        let ints = Seq::new(order@.len(), |k: int| order@[k] as int);
        assert(after =~= sorting::permuted(before, ints));
        assert forall|a: int, b: int| 0 <= a < b < ints.len() implies !issue_before(
            before[#[trigger] ints[b]],
            before[#[trigger] ints[a]],
        ) && (!issue_before(before[ints[a]], before[ints[b]]) ==> ints[a] < ints[b]) by {
            assert(sorting::in_order(keys@, ints[a], ints[b]));
        }
        assert(sorting::is_permutation(ints, before.len() as int));
    }
    let mut at: usize = 0;
    while at < n
        invariant
            at <= n,
            n == candidates@.len(),
            n == sorted@.len(),
            forall|k: int| 0 <= k < at ==> #[trigger] candidates@[k] == sorted@[k],
        decreases n - at,
    {
        candidates[at] = sorted[at];
        at = at + 1;
    }
    proof {
        assert(candidates@ =~= sorted@);
    }
}

/// The slots that are left of all slots.
pub fn available_global_slots(state: &OrchestratorState, max: u32) -> (r: u32)
    ensures
        r == free_slots(max, state@.running.dom().len()),
{
    let used: usize = state.running_count();
    if used >= max as usize {
        0
    } else {
        max - used as u32
    }
}

/// The slots that are left for issues in a state; none where the state has no limit of its own.
pub fn available_state_slots(
    state: &OrchestratorState,
    issue_state: &str,
    config: &AgentConfig,
) -> (r: Option<u32>)
    ensures
        r == free_state_slots(state@, issue_state@, config.max_concurrent_agents_by_state@),
{
    let key = text::normalize_state(issue_state);
    match config.max_concurrent_agents_by_state.get(key.as_str()) {
        Some(max) => {
            let used: usize = state.running_count_by_state(issue_state);
            if used >= *max as usize {
                Some(0)
            } else {
                Some(*max - used as u32)
            }
        },
        None => None,
    }
}

/// A host has room for another session.
pub open spec fn host_has_room(state: StateView, host: Seq<char>, limit: u32) -> bool {
    state.count_on_host(host) < limit
}

/// The sessions that one host may run.
pub open spec fn host_limit(config: WorkerConfig, agent_config: AgentConfig) -> u32 {
    match config.max_concurrent_agents_per_host {
        Some(limit) => limit,
        None => agent_config.max_concurrent_agents,
    }
}

/// Of the hosts with room, the one at position `i` runs the fewest sessions; of several it is the
/// first.
pub open spec fn least_loaded(state: StateView, hosts: Seq<Seq<char>>, limit: u32, i: int) -> bool {
    &&& 0 <= i < hosts.len()
    &&& host_has_room(state, hosts[i], limit)
    &&& forall|j: int|
        0 <= j < hosts.len() && host_has_room(state, #[trigger] hosts[j], limit)
            ==> state.count_on_host(hosts[i]) <= state.count_on_host(hosts[j])
    &&& forall|j: int|
        0 <= j < i && host_has_room(state, #[trigger] hosts[j], limit) ==> state.count_on_host(
            hosts[i],
        ) < state.count_on_host(hosts[j])
}

/// The host for another session: the preferred one where it has room, else the least loaded one
/// with room, else none.
pub open spec fn host_chosen(
    state: StateView,
    hosts: Seq<Seq<char>>,
    limit: u32,
    preferred: Option<Seq<char>>,
    choice: Option<Seq<char>>,
) -> bool {
    if preferred matches Some(host) && host.len() > 0 && hosts.contains(host) && host_has_room(
        state,
        host,
        limit,
    ) {
        choice == preferred
    } else {
        match choice {
            Some(host) => exists|i: int| #[trigger]
                least_loaded(state, hosts, limit, i) && hosts[i] == host,
            None => forall|i: int|
                0 <= i < hosts.len() ==> !host_has_room(state, #[trigger] hosts[i], limit),
        }
    }
}

/// Chooses the host for another session. No host is chosen where none is configured or none has
/// room.
pub fn select_worker_host(
    state: &OrchestratorState,
    config: &WorkerConfig,
    agent_config: &AgentConfig,
    preferred_worker_host: Option<&str>,
) -> (r: Option<String>)
    ensures
        host_chosen(
            state@,
            text::texts(config.ssh_hosts@),
            host_limit(*config, *agent_config),
            match preferred_worker_host {
                Some(host) => Some(host@),
                None => None,
            },
            text::opt_text(r),
        ),
{
    let ghost hosts = text::texts(config.ssh_hosts@);
    let limit: u32 = match config.max_concurrent_agents_per_host {
        Some(limit) => limit,
        None => agent_config.max_concurrent_agents,
    };
    if let Some(preferred) = preferred_worker_host {
        if !preferred.is_empty() {
            let mut i: usize = 0;
            while i < config.ssh_hosts.len()
                invariant
                    i <= config.ssh_hosts@.len(),
                    hosts == text::texts(config.ssh_hosts@),
                    preferred@.len() > 0,
                    preferred_worker_host == Some(preferred),
                    limit == host_limit(*config, *agent_config),
                    forall|k: int|
                        0 <= k < i && #[trigger] hosts[k] == preferred@ ==> !host_has_room(
                            state@,
                            preferred@,
                            limit,
                        ),
                decreases config.ssh_hosts@.len() - i,
            {
                if text::same(config.ssh_hosts[i].as_str(), preferred) {
                    let running: usize = state.running_count_by_host(preferred);
                    proof {
                        assert(hosts[i as int] == preferred@);
                    }
                    if running < limit as usize {
                        return Some(preferred.to_owned());
                    }
                }
                i = i + 1;
            }
        }
    }
    let mut selected: Option<usize> = None;
    let mut best: usize = 0;
    let mut i: usize = 0;
    while i < config.ssh_hosts.len()
        invariant
            i <= config.ssh_hosts@.len(),
            hosts == text::texts(config.ssh_hosts@),
            match selected {
                Some(s) => s < i && host_has_room(state@, hosts[s as int], limit) && best
                    == state@.count_on_host(hosts[s as int]) && (forall|j: int|
                    0 <= j < i && host_has_room(state@, #[trigger] hosts[j], limit)
                        ==> best <= state@.count_on_host(hosts[j])) && (forall|j: int|
                    0 <= j < s && host_has_room(state@, #[trigger] hosts[j], limit)
                        ==> best < state@.count_on_host(hosts[j])),
                None => forall|j: int|
                    0 <= j < i ==> !host_has_room(state@, #[trigger] hosts[j], limit),
            },
        decreases config.ssh_hosts@.len() - i,
    {
        let running: usize = state.running_count_by_host(config.ssh_hosts[i].as_str());
        proof {
            assert(hosts[i as int] == config.ssh_hosts@[i as int]@);
        }
        if running < limit as usize {
            let better = match selected {
                Some(_) => running < best,
                None => true,
            };
            if better {
                selected = Some(i);
                best = running;
            }
        }
        i = i + 1;
    }
    match selected {
        Some(s) => {
            proof {
                assert(least_loaded(state@, hosts, limit, s as int));
            }
            Some(config.ssh_hosts[s].clone())
        },
        None => None,
    }
}

/// What may be dispatched is active and not finished, is claimed by nobody, and where it is a
/// `Todo` waits for nothing unfinished.
pub proof fn lemma_eligible_is_safe(
    issue: IssueView,
    state: StateView,
    max_agents: u32,
    limits: Map<Seq<char>, u32>,
    active_states: Seq<Seq<char>>,
    terminal_states: Seq<Seq<char>>,
    blocker: BlockerView,
)
    requires
        eligible(issue, state, max_agents, limits, active_states, terminal_states),
    ensures
        text::state_listed(issue.state, active_states),
        !text::state_listed(issue.state, terminal_states),
        !state.claimed.contains(issue.id),
        text::state_key(issue.state) == "todo"@ && issue.blocked_by.contains(blocker)
            ==> text::state_listed(blocker.state, terminal_states),
{
}

/// Nothing may be dispatched when as many sessions run as are allowed, over all or in the issue's
/// state.
pub proof fn lemma_no_slots_no_dispatch(
    issue: IssueView,
    state: StateView,
    max_agents: u32,
    limits: Map<Seq<char>, u32>,
    active_states: Seq<Seq<char>>,
    terminal_states: Seq<Seq<char>>,
)
    requires
        state.running.dom().len() >= max_agents || (limits.contains_key(
            text::state_key(issue.state),
        ) && state.count_in_state(issue.state) >= limits[text::state_key(issue.state)]),
    ensures
        !eligible(issue, state, max_agents, limits, active_states, terminal_states),
{
}

/// The host that is chosen is one of the configured hosts and has room.
pub proof fn lemma_chosen_host_has_room(
    state: StateView,
    hosts: Seq<Seq<char>>,
    limit: u32,
    preferred: Option<Seq<char>>,
    choice: Seq<char>,
)
    requires
        host_chosen(state, hosts, limit, preferred, Some(choice)),
    ensures
        hosts.contains(choice),
        host_has_room(state, choice, limit),
{
}

/// What stands in no way of an issue is dispatched: an issue that names itself, that is in an active
/// state and in no finished one, that nobody has claimed, with fewer sessions running than are
/// allowed, over all and in its state, may be dispatched where it is past `Todo`, and where it is a
/// `Todo` all of whose blockers are finished.
pub proof fn lemma_free_issue_is_eligible(
    issue: IssueView,
    state: StateView,
    max_agents: u32,
    limits: Map<Seq<char>, u32>,
    active_states: Seq<Seq<char>>,
    terminal_states: Seq<Seq<char>>,
)
    requires
        text::trimmed(issue.id).len() > 0,
        text::trimmed(issue.identifier).len() > 0,
        text::trimmed(issue.title).len() > 0,
        text::trimmed(issue.state).len() > 0,
        exists|i: int|
            0 <= i < active_states.len() && text::lower(
                text::trimmed(#[trigger] active_states[i]),
            ) == text::lower(text::trimmed(issue.state)),
        forall|i: int|
            0 <= i < terminal_states.len() ==> text::lower(
                text::trimmed(#[trigger] terminal_states[i]),
            ) != text::lower(text::trimmed(issue.state)),
        !state.claimed.contains(issue.id),
        state.running.dom().len() < max_agents,
        limits.contains_key(text::lower(text::trimmed(issue.state))) ==> state.count_in_state(
            issue.state,
        ) < limits[text::lower(text::trimmed(issue.state))],
        text::lower(text::trimmed(issue.state)) == "todo"@ ==> forall|i: int|
            0 <= i < issue.blocked_by.len() ==> exists|k: int|
                0 <= k < terminal_states.len() && text::lower(
                    text::trimmed(#[trigger] terminal_states[k]),
                ) == text::lower(text::trimmed((#[trigger] issue.blocked_by[i]).state)),
    ensures
        eligible(issue, state, max_agents, limits, active_states, terminal_states),
{
    text::lemma_trimmed_empty(issue.id);
    text::lemma_trimmed_empty(issue.identifier);
    text::lemma_trimmed_empty(issue.title);
    text::lemma_trimmed_empty(issue.state);
    text::lemma_state_is_listed(issue.state, active_states);
    text::lemma_state_is_listed(issue.state, terminal_states);
    if text::state_key(issue.state) == "todo"@ {
        assert forall|i: int| 0 <= i < issue.blocked_by.len() implies text::state_listed(
            (#[trigger] issue.blocked_by[i]).state,
            terminal_states,
        ) by {
            text::lemma_state_is_listed(issue.blocked_by[i].state, terminal_states);
        }
    }
}

/// Of the candidates exactly those are selected that nothing stands in the way of.
pub proof fn lemma_selection_is_exact(
    candidates: Seq<IssueView>,
    i: int,
    state: StateView,
    max_agents: u32,
    limits: Map<Seq<char>, u32>,
    active_states: Seq<Seq<char>>,
    terminal_states: Seq<Seq<char>>,
)
    requires
        0 <= i < candidates.len(),
    ensures
        ({
            let issue = candidates[i];
            let key = text::lower(text::trimmed(issue.state));
            let selected = candidates.filter(
                |issue: IssueView|
                    eligible(issue, state, max_agents, limits, active_states, terminal_states),
            );
            let named = text::trimmed(issue.id).len() > 0 && text::trimmed(issue.identifier).len() > 0
                && text::trimmed(issue.title).len() > 0 && text::trimmed(issue.state).len() > 0;
            let has_slot = state.running.dom().len() < max_agents && (limits.contains_key(key)
                ==> state.count_in_state(issue.state) < limits[key]);
            let unblocked = key == "todo"@ ==> forall|k: int|
                0 <= k < issue.blocked_by.len() ==> text::state_listed(
                    (#[trigger] issue.blocked_by[k]).state,
                    terminal_states,
                );
            selected.contains(issue) <==> named && text::state_listed(issue.state, active_states)
                && !text::state_listed(issue.state, terminal_states) && !state.claimed.contains(
                issue.id,
            ) && has_slot && unblocked
        }),
{
    let issue = candidates[i];
    let p = |issue: IssueView|
        eligible(issue, state, max_agents, limits, active_states, terminal_states);
    text::lemma_trimmed_empty(issue.id);
    text::lemma_trimmed_empty(issue.identifier);
    text::lemma_trimmed_empty(issue.title);
    text::lemma_trimmed_empty(issue.state);
    text::lemma_state_is_listed(issue.state, active_states);
    let selected = candidates.filter(p);
    if selected.contains(issue) {
        let k = choose|k: int| 0 <= k < selected.len() && selected[k] == issue;
        candidates.lemma_filter_pred(p, k);
    }
    if p(issue) {
        candidates.lemma_filter_contains(p, i);
    }
}

/// What may be dispatched names itself.
pub proof fn lemma_eligible_names_itself(
    issue: IssueView,
    state: StateView,
    max_agents: u32,
    limits: Map<Seq<char>, u32>,
    active_states: Seq<Seq<char>>,
    terminal_states: Seq<Seq<char>>,
)
    requires
        eligible(issue, state, max_agents, limits, active_states, terminal_states),
    ensures
        text::trimmed(issue.id).len() > 0,
        text::trimmed(issue.identifier).len() > 0,
        text::trimmed(issue.title).len() > 0,
        text::trimmed(issue.state).len() > 0,
        state.running.dom().len() < max_agents,
{
    text::lemma_trimmed_empty(issue.id);
    text::lemma_trimmed_empty(issue.identifier);
    text::lemma_trimmed_empty(issue.title);
    text::lemma_trimmed_empty(issue.state);
}

/// The slots that are left and those that are used are all slots, where no more are used.
pub proof fn lemma_slots_add_up(max: u32, used: nat)
    ensures
        used <= max ==> free_slots(max, used) + used == max,
        used > max ==> free_slots(max, used) == 0,
{
}

/// The slots of a state are counted against its own limit, by the sessions that run in it, whatever
/// the case and the white space of its name.
pub proof fn lemma_state_slots_add_up(
    state: StateView,
    issue_state: Seq<char>,
    limits: Map<Seq<char>, u32>,
)
    ensures
        ({
            let key = text::lower(text::trimmed(issue_state));
            let used = state.running.dom().filter(
                |id: Seq<char>|
                    text::lower(text::trimmed(state.running[id].issue_state)) == key,
            ).len();
            &&& !limits.contains_key(key) ==> free_state_slots(state, issue_state, limits) is None
            &&& limits.contains_key(key) && used <= limits[key] ==> free_state_slots(
                state,
                issue_state,
                limits,
            ) == Some((limits[key] - used) as u32)
            &&& limits.contains_key(key) && used > limits[key] ==> free_state_slots(
                state,
                issue_state,
                limits,
            ) == Some(0u32)
        }),
{
    state.lemma_count_in_state(issue_state);
}

/// An issue with a smaller priority goes ahead, whatever else, and any priority ahead of none.
pub proof fn lemma_priority_comes_first(a: IssueView, b: IssueView)
    ensures
        a.priority is Some && b.priority is Some && a.priority->0 < b.priority->0 ==> issue_before(
            a,
            b,
        ) && !issue_before(b, a),
        a.priority is Some && b.priority is None ==> issue_before(a, b) && !issue_before(b, a),
{
}

/// Of two issues with the same priority the one that was created earlier goes ahead, and of two that
/// were created at the same time the one with the lesser identifier.
pub proof fn lemma_older_comes_first(a: IssueView, b: IssueView)
    requires
        a.priority == b.priority,
    ensures
        a.created_at is Some && b.created_at is Some && text::text_lt(
            a.created_at->0,
            b.created_at->0,
        ) ==> issue_before(a, b) && !issue_before(b, a),
        a.created_at == b.created_at && text::text_lt(a.identifier, b.identifier) ==> issue_before(
            a,
            b,
        ) && !issue_before(b, a),
        a.created_at is Some && b.created_at is None && text::text_lt(
            a.created_at->0,
            "9999-99-99T99:99:99Z"@,
        ) ==> issue_before(a, b) && !issue_before(b, a),
        a.created_at == b.created_at && a.identifier == b.identifier ==> !issue_before(a, b),
{
    text::lemma_text_lt_irreflexive(a.identifier);
    if a.created_at is Some && b.created_at is Some {
        text::lemma_text_lt_irreflexive(a.created_at->0);
        text::lemma_text_lt_total(a.created_at->0, b.created_at->0);
    }
    text::lemma_text_lt_total(created_key(a), created_key(b));
    text::lemma_text_lt_irreflexive(created_key(a));
    text::lemma_text_lt_total(a.identifier, b.identifier);
}

/// Sorting keeps the issues: as many, each of them, and none ahead of one that goes before it.
pub proof fn lemma_sorted_keeps_issues(before: Seq<IssueView>, after: Seq<IssueView>)
    requires
        dispatch_sorted(before, after),
    ensures
        after.len() == before.len(),
        forall|issue: IssueView| #[trigger] after.contains(issue) <==> before.contains(issue),
        forall|i: int, j: int|
            0 <= i < j < after.len() ==> !issue_before(#[trigger] after[j], #[trigger] after[i]),
{
    let order = choose|order: Seq<int>| #[trigger]
        sorting::is_permutation(order, before.len() as int) && after == sorting::permuted(
            before,
            order,
        ) && forall|i: int, j: int|
            0 <= i < j < order.len() ==> !issue_before(
                before[#[trigger] order[j]],
                before[#[trigger] order[i]],
            ) && (!issue_before(before[order[i]], before[order[j]]) ==> order[i] < order[j]);
    sorting::lemma_permutation_onto(order, before.len() as int);
    assert forall|issue: IssueView| #[trigger] after.contains(issue) <==> before.contains(issue) by {
        if after.contains(issue) {
            let i = choose|i: int| 0 <= i < after.len() && after[i] == issue;
            assert(before[order[i]] == issue);
        }
        if before.contains(issue) {
            let k = choose|k: int| 0 <= k < before.len() && before[k] == issue;
            assert(order.to_set().contains(k));
            let i = choose|i: int| 0 <= i < order.len() && order[i] == k;
            assert(after[i] == issue);
        }
    }
    assert forall|i: int, j: int| 0 <= i < j < after.len() implies !issue_before(
        #[trigger] after[j],
        #[trigger] after[i],
    ) by {
        assert(after[i] == before[order[i]] && after[j] == before[order[j]]);
    }
}

/// The preferred host is kept where it is configured and runs fewer sessions than it may.
pub proof fn lemma_preferred_host_is_kept(
    state: StateView,
    hosts: Seq<Seq<char>>,
    limit: u32,
    preferred: Seq<char>,
    choice: Option<Seq<char>>,
)
    requires
        host_chosen(state, hosts, limit, Some(preferred), choice),
        preferred.len() > 0,
        hosts.contains(preferred),
        state.running.dom().filter(
            |id: Seq<char>| state.running[id].worker_host == Some(preferred),
        ).len() < limit,
    ensures
        choice == Some(preferred),
{
    state.lemma_count_on_host(preferred);
}

/// Where some host has room a host is chosen, and without a preferred one it is one that runs the
/// fewest sessions of those with room.
pub proof fn lemma_host_is_found(
    state: StateView,
    hosts: Seq<Seq<char>>,
    limit: u32,
    preferred: Option<Seq<char>>,
    choice: Option<Seq<char>>,
    other: int,
)
    requires
        host_chosen(state, hosts, limit, preferred, choice),
        0 <= other < hosts.len(),
        state.running.dom().filter(
            |id: Seq<char>| state.running[id].worker_host == Some(hosts[other]),
        ).len() < limit,
    ensures
        choice is Some,
        hosts.contains(choice->0),
        preferred is None ==> state.running.dom().filter(
            |id: Seq<char>| state.running[id].worker_host == choice,
        ).len() <= state.running.dom().filter(
            |id: Seq<char>| state.running[id].worker_host == Some(hosts[other]),
        ).len(),
{
    state.lemma_count_on_host(hosts[other]);
    assert(host_has_room(state, hosts[other], limit));
    if choice is Some {
        state.lemma_count_on_host(choice->0);
        let p = |id: Seq<char>| state.running[id].worker_host == Some(choice->0);
        let q = |id: Seq<char>| state.running[id].worker_host == choice;
        assert(state.running.dom().filter(p) =~= state.running.dom().filter(q));
    }
}

/// A host may run as many sessions as are allowed for one host, and where nothing is said of that as
/// many as are allowed over all.
pub proof fn lemma_host_limit(config: WorkerConfig, agent_config: AgentConfig, limit: u32)
    ensures
        config.max_concurrent_agents_per_host == Some(limit) ==> host_limit(config, agent_config)
            == limit,
        config.max_concurrent_agents_per_host is None ==> host_limit(config, agent_config)
            == agent_config.max_concurrent_agents,
{
}

/// Where the preferred host cannot be had, the host that runs the fewest sessions of those with room is
/// chosen, and of several the one that is configured first.
pub proof fn lemma_first_of_the_least_loaded(
    state: StateView,
    hosts: Seq<Seq<char>>,
    limit: u32,
    preferred: Option<Seq<char>>,
    host: Seq<char>,
    k: int,
    j: int,
)
    requires
        host_chosen(state, hosts, limit, preferred, Some(host)),
        preferred is None || preferred->0.len() == 0 || !hosts.contains(preferred->0)
            || state.count_on_host(preferred->0) >= limit,
        0 <= k < hosts.len(),
        hosts[k] == host,
        forall|i: int| 0 <= i < k ==> (#[trigger] hosts[i]) != host,
        0 <= j < hosts.len(),
        state.count_on_host(hosts[j]) < limit,
    ensures
        state.count_on_host(host) < limit,
        state.count_on_host(host) <= state.count_on_host(hosts[j]),
        j < k ==> state.count_on_host(host) < state.count_on_host(hosts[j]),
{
    let i = choose|i: int| #[trigger] least_loaded(state, hosts, limit, i) && hosts[i] == host;
    assert(host_has_room(state, hosts[j], limit));
    assert(i >= k);
}

/// A host without room is never chosen, and none is where none has room.
pub proof fn lemma_full_host_is_passed_over(
    state: StateView,
    hosts: Seq<Seq<char>>,
    limit: u32,
    preferred: Option<Seq<char>>,
    choice: Option<Seq<char>>,
)
    requires
        host_chosen(state, hosts, limit, preferred, choice),
    ensures
        choice is Some ==> hosts.contains(choice->0) && state.count_on_host(choice->0) < limit,
        (forall|i: int|
            0 <= i < hosts.len() ==> state.count_on_host(#[trigger] hosts[i]) >= limit) ==> choice
            is None,
{
    if choice is Some {
        if !hosts.contains(choice->0) || state.count_on_host(choice->0) >= limit {
            let i = choose|i: int| #[trigger]
                least_loaded(state, hosts, limit, i) && hosts[i] == choice->0;
            assert(hosts.contains(hosts[i]));
        } else {
            let i = choose|i: int| 0 <= i < hosts.len() && hosts[i] == choice->0;
            assert(state.count_on_host(hosts[i]) < limit);
        }
    }
}

/// Of two issues of which neither goes ahead of the other, the one that stood first stays first.
pub proof fn lemma_ties_keep_their_order(
    before: Seq<IssueView>,
    after: Seq<IssueView>,
    i: int,
    j: int,
)
    requires
        dispatch_sorted(before, after),
        0 <= i < j < after.len(),
        !issue_before(after[i], after[j]),
    ensures
        exists|p: int, q: int|
            0 <= p < q < before.len() && (#[trigger] before[p]) == after[i] && (#[trigger] before[q])
                == after[j],
{
    let order = choose|order: Seq<int>| #[trigger]
        sorting::is_permutation(order, before.len() as int) && after == sorting::permuted(
            before,
            order,
        ) && forall|i: int, j: int|
            0 <= i < j < order.len() ==> !issue_before(
                before[#[trigger] order[j]],
                before[#[trigger] order[i]],
            ) && (!issue_before(before[order[i]], before[order[j]]) ==> order[i] < order[j]);
    assert(after[i] == before[order[i]] && after[j] == before[order[j]]);
}

} // verus!
