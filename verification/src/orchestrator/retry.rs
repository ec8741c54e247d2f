//! Retries: how long they wait, and which are waiting.

use vstd::arithmetic::power2;
use vstd::prelude::*;

use crate::agent_runner::{WorkerOutcome, WorkerOutcomeView};
use crate::collections::TextMap;

verus! {

/// How long a continuation waits.
pub const CONTINUATION_DELAY_MS: u64 = 1_000;

/// How long the first retry after a failure waits.
pub const FAILURE_BASE_DELAY_MS: u64 = 10_000;

/// How long a retry waits: a continuation a fixed time; after a failure twice as long with each
/// attempt, up to a limit. Attempt zero counts as the first.
pub open spec fn retry_delay(outcome: WorkerOutcomeView, attempt: u32, max_backoff_ms: u64) -> u64 {
    match outcome {
        WorkerOutcomeView::Normal => CONTINUATION_DELAY_MS,
        WorkerOutcomeView::Failure(_) => {
            let doublings = if attempt == 0 {
                0nat
            } else {
                (attempt - 1) as nat
            };
            let delay = FAILURE_BASE_DELAY_MS * power2::pow2(doublings);
            if delay <= max_backoff_ms {
                delay as u64
            } else {
                max_backoff_ms
            }
        },
    }
}

/// How long a retry waits.
pub fn compute_retry_delay(outcome: &WorkerOutcome, attempt: u32, max_backoff_ms: u64) -> (r: u64)
    ensures
        r == retry_delay(outcome@, attempt, max_backoff_ms),
{
    match outcome {
        WorkerOutcome::Normal => CONTINUATION_DELAY_MS,
        WorkerOutcome::Failure(_) => {
            let doublings: u32 = if attempt == 0 {
                0
            } else {
                attempt - 1
            };
            let mut delay: u64 = FAILURE_BASE_DELAY_MS;
            let mut i: u32 = 0;
            proof {
                power2::lemma2_to64();
            }
            while i < doublings
                invariant
                    i <= doublings,
                    outcome@ is Failure,
                    doublings == (if attempt == 0 {
                        0
                    } else {
                        attempt - 1
                    }),
                    delay == FAILURE_BASE_DELAY_MS * power2::pow2(i as nat),
                decreases doublings - i,
            {
                proof {
                    power2::lemma_pow2_unfold((i + 1) as nat);
                    lemma_delay_grows((i + 1) as nat, doublings as nat);
                }
                if delay > max_backoff_ms || delay > u64::MAX / 2 {
                    proof {
                        lemma_delay_grows(i as nat, doublings as nat);
                    }
                    return max_backoff_ms;
                }
                delay = delay * 2;
                i = i + 1;
            }
            if delay <= max_backoff_ms {
                delay
            } else {
                max_backoff_ms
            }
        },
    }
}

proof fn lemma_delay_grows(a: nat, b: nat)
    requires
        a <= b,
    ensures
        FAILURE_BASE_DELAY_MS * power2::pow2(a) <= FAILURE_BASE_DELAY_MS * power2::pow2(b),
    decreases b - a,
{
    if a < b {
        power2::lemma_pow2_unfold(b);
        lemma_delay_grows(a, (b - 1) as nat);
    }
}

/// After a failure no retry waits longer than the limit, and a later attempt never waits shorter
/// than an earlier one.
pub proof fn lemma_backoff_is_bounded_and_grows(
    outcome: WorkerOutcomeView,
    earlier: u32,
    later: u32,
    max_backoff_ms: u64,
)
    requires
        outcome is Failure,
        earlier <= later,
    ensures
        retry_delay(outcome, later, max_backoff_ms) <= max_backoff_ms,
        retry_delay(outcome, earlier, max_backoff_ms) <= retry_delay(
            outcome,
            later,
            max_backoff_ms,
        ),
{
    let a = if earlier == 0 {
        0nat
    } else {
        (earlier - 1) as nat
    };
    let b = if later == 0 {
        0nat
    } else {
        (later - 1) as nat
    };
    lemma_delay_grows(a, b);
}

/// A continuation waits the same time whatever the attempt and the limit.
pub proof fn lemma_continuation_is_fixed(attempt: u32, max_backoff_ms: u64)
    ensures
        retry_delay(WorkerOutcomeView::Normal, attempt, max_backoff_ms) == CONTINUATION_DELAY_MS,
{
}

/// A timer of a retry: the attempt that it starts, and when it fires by a monotonic clock.
#[derive(Debug, Clone, Copy, PartialEq, Eq)]
pub struct RetryTimer {
    pub attempt: u32,
    pub fire_at_ms: u128,
}

impl View for RetryTimer {
    type V = RetryTimer;

    open spec fn view(&self) -> RetryTimer {
        *self
    }
}

/// The timers of the retries that wait. An issue has one timer at most.
#[derive(Debug)]
pub struct RetryQueue {
    entries: TextMap<RetryTimer>,
}

impl View for RetryQueue {
    type V = Map<Seq<char>, RetryTimer>;

    closed spec fn view(&self) -> Map<Seq<char>, RetryTimer> {
        self.entries@
    }
}

impl Default for RetryQueue {
    fn default() -> (r: Self)
        ensures
            r@ == Map::<Seq<char>, RetryTimer>::empty(),
    {
        RetryQueue { entries: TextMap::new() }
    }
}

impl RetryQueue {
    /// Sets the timer of an issue. Tells whether it takes the place of one that is to be stopped.
    pub fn schedule(&mut self, issue_id: &str, attempt: u32, delay_ms: u64, now_ms: u64) -> (r: bool)
        ensures
            r == old(self)@.contains_key(issue_id@),
            final(self)@ == old(self)@.insert(
                issue_id@,
                (RetryTimer { attempt, fire_at_ms: (now_ms + delay_ms) as u128 }),
            ),
            final(self)@.dom().finite(),
            final(self)@.dom().len() == old(self)@.dom().len() + (if r {
                0int
            } else {
                1
            }),
    {
        let _ = self.len();
        let replaced = self.cancel(issue_id);
        self.entries.insert(
            issue_id.to_owned(),
            RetryTimer { attempt, fire_at_ms: now_ms as u128 + delay_ms as u128 },
        );
        proof {
            assert(self@ =~= old(self)@.insert(
                issue_id@,
                (RetryTimer { attempt, fire_at_ms: (now_ms + delay_ms) as u128 }),
            ));
        }
        replaced
    }

    /// Drops the timer of an issue. Tells whether there was one that is to be stopped.
    pub fn cancel(&mut self, issue_id: &str) -> (r: bool)
        ensures
            r == old(self)@.contains_key(issue_id@),
            final(self)@ == old(self)@.remove(issue_id@),
    {
        self.entries.remove(issue_id).is_some()
    }

    /// Drops all timers.
    pub fn clear(&mut self)
        ensures
            final(self)@ == Map::<Seq<char>, RetryTimer>::empty(),
    {
        self.entries = TextMap::new();
    }

    /// The attempt that the timer of an issue starts.
    pub fn attempt(&self, issue_id: &str) -> (r: Option<u32>)
        ensures
            r == (if self@.contains_key(issue_id@) {
                Some(self@[issue_id@].attempt)
            } else {
                None
            }),
    {
        match self.entries.get(issue_id) {
            Some(timer) => Some(timer.attempt),
            None => None,
        }
    }

    /// When the timer of an issue fires.
    pub fn fire_at(&self, issue_id: &str) -> (r: Option<u128>)
        ensures
            r == (if self@.contains_key(issue_id@) {
                Some(self@[issue_id@].fire_at_ms)
            } else {
                None
            }),
    {
        match self.entries.get(issue_id) {
            Some(timer) => Some(timer.fire_at_ms),
            None => None,
        }
    }

    /// Tells whether an issue has a timer.
    pub fn contains(&self, issue_id: &str) -> (r: bool)
        ensures
            r == self@.contains_key(issue_id@),
    {
        self.entries.contains_key(issue_id)
    }

    /// The number of timers.
    pub fn len(&self) -> (r: usize)
        ensures
            r == self@.dom().len(),
            self@.dom().finite(),
    {
        self.entries.len()
    }

    /// Tells whether there is no timer.
    pub fn is_empty(&self) -> (r: bool)
        ensures
            r == (self@ == Map::<Seq<char>, RetryTimer>::empty()),
    {
        self.entries.is_empty()
    }

    /// Takes the timer of an issue out.
    pub fn remove(&mut self, issue_id: &str) -> (r: Option<(u32, u128)>)
        ensures
            final(self)@ == old(self)@.remove(issue_id@),
            r == (if old(self)@.contains_key(issue_id@) {
                Some((old(self)@[issue_id@].attempt, old(self)@[issue_id@].fire_at_ms))
            } else {
                None
            }),
    {
        match self.entries.remove(issue_id) {
            Some(timer) => Some((timer.attempt, timer.fire_at_ms)),
            None => None,
        }
    }
}

/// Setting the timer of an issue again leaves no trace of the earlier one: the issue has the later
/// timer only, the number of timers stays, and the timers of all other issues are as they were.
pub proof fn lemma_later_timer_replaces_earlier(
    queue: Map<Seq<char>, RetryTimer>,
    issue_id: Seq<char>,
    earlier: RetryTimer,
    later: RetryTimer,
    other: Seq<char>,
)
    requires
        queue.dom().finite(),
    ensures
        ({
            let once = queue.insert(issue_id, earlier);
            let twice = once.insert(issue_id, later);
            &&& twice == queue.insert(issue_id, later)
            &&& twice.contains_key(issue_id) && twice[issue_id] == later
            &&& once.dom().len() == queue.dom().len() + (if queue.contains_key(issue_id) {
                0int
            } else {
                1
            })
            &&& twice.dom().len() == once.dom().len()
            &&& other != issue_id ==> twice.contains_key(other) == queue.contains_key(other)
            &&& other != issue_id && queue.contains_key(other) ==> twice[other] == queue[other]
        }),
{
    let once = queue.insert(issue_id, earlier);
    let twice = once.insert(issue_id, later);
    assert(twice =~= queue.insert(issue_id, later));
    assert(once.dom() =~= queue.dom().insert(issue_id));
    assert(twice.dom() =~= once.dom());
}

/// The first retry after a failure waits ten seconds, each further one twice as long as the one before,
/// and none longer than the limit.
pub proof fn lemma_backoff_doubles(reason: Seq<char>, attempt: u32, max_backoff_ms: u64)
    ensures
        ({
            let failure = WorkerOutcomeView::Failure(reason);
            let delay = retry_delay(failure, attempt, max_backoff_ms);
            &&& attempt <= 1 && max_backoff_ms >= 10_000 ==> delay == 10_000
            &&& attempt <= 1 && max_backoff_ms < 10_000 ==> delay == max_backoff_ms
            &&& 1 <= attempt < u32::MAX && 2 * delay <= max_backoff_ms && delay < max_backoff_ms
                ==> retry_delay(failure, (attempt + 1) as u32, max_backoff_ms) == 2 * delay
            &&& 1 <= attempt < u32::MAX && 2 * delay > max_backoff_ms ==> retry_delay(
                failure,
                (attempt + 1) as u32,
                max_backoff_ms,
            ) == max_backoff_ms
        }),
        retry_delay(WorkerOutcomeView::Normal, attempt, max_backoff_ms) == 1_000,
{
    power2::lemma2_to64();
    if 1 <= attempt < u32::MAX {
        power2::lemma_pow2_unfold(attempt as nat);
    }
}

} // verus!
