//! The steps of a poll: what comes after what, and what ends it.

use vstd::prelude::*;

verus! {

/// What a tick does next.
#[derive(Debug, Clone, Copy, PartialEq, Eq, Structural)]
pub enum TickPhase {
    /// What runs is held against the tracker.
    Reconcile,
    /// The configuration is checked.
    Validate,
    /// The candidates are fetched.
    Fetch,
    /// Issues are dispatched, one at a time.
    Dispatch,
    /// Nothing: the tick is over.
    Finished,
}

/// What came of a step of a tick.
#[derive(Debug, Clone, Copy, PartialEq, Eq)]
pub enum TickEvent {
    /// What runs was held against the tracker, with success or without.
    Reconciled,
    /// The configuration was checked.
    Validated { valid: bool },
    /// The candidates were asked for.
    Fetched { found: bool },
    /// The issue at a position of the plan was dispatched.
    Dispatched { position: usize },
    /// No further issue of the plan is dispatched.
    Exhausted,
}

/// A tick: what it does next, the position in the plan from which it goes on, and the number of
/// issues that it has dispatched.
#[derive(Debug, Clone, Copy, PartialEq, Eq)]
pub struct Tick {
    pub phase: TickPhase,
    pub from: usize,
    pub dispatched: u32,
}

impl Tick {
    /// The tick after an event. An event that does not belong to the step changes nothing.
    pub open spec fn after(self, event: TickEvent) -> Tick {
        match (self.phase, event) {
            (TickPhase::Reconcile, TickEvent::Reconciled) => Tick {
                phase: TickPhase::Validate,
                ..self
            },
            (TickPhase::Validate, TickEvent::Validated { valid }) => Tick {
                phase: if valid {
                    TickPhase::Fetch
                } else {
                    TickPhase::Finished
                },
                ..self
            },
            (TickPhase::Fetch, TickEvent::Fetched { found }) => Tick {
                phase: if found {
                    TickPhase::Dispatch
                } else {
                    TickPhase::Finished
                },
                ..self
            },
            (TickPhase::Dispatch, TickEvent::Dispatched { position }) => Tick {
                from: if position < usize::MAX {
                    (position + 1) as usize
                } else {
                    usize::MAX
                },
                dispatched: if self.dispatched < u32::MAX {
                    (self.dispatched + 1) as u32
                } else {
                    u32::MAX
                },
                ..self
            },
            (TickPhase::Dispatch, TickEvent::Exhausted) => Tick {
                phase: TickPhase::Finished,
                ..self
            },
            _ => self,
        }
    }

    /// The tick at its start.
    pub open spec fn start() -> Tick {
        Tick { phase: TickPhase::Reconcile, from: 0, dispatched: 0 }
    }

    /// The tick after some events.
    pub open spec fn after_all(self, events: Seq<TickEvent>) -> Tick
        decreases events.len(),
    {
        if events.len() == 0 {
            self
        } else {
            self.after_all(events.drop_last()).after(events.last())
        }
    }

    /// A tick at its start.
    pub fn new() -> (r: Self)
        ensures
            r == Tick::start(),
    {
        Tick { phase: TickPhase::Reconcile, from: 0, dispatched: 0 }
    }

    /// Takes what came of a step into account.
    pub fn advance(&mut self, event: TickEvent)
        ensures
            *final(self) == old(self).after(event),
    {
        match (self.phase, event) {
            (TickPhase::Reconcile, TickEvent::Reconciled) => {
                self.phase = TickPhase::Validate;
            },
            (TickPhase::Validate, TickEvent::Validated { valid }) => {
                self.phase = if valid {
                    TickPhase::Fetch
                } else {
                    TickPhase::Finished
                };
            },
            (TickPhase::Fetch, TickEvent::Fetched { found }) => {
                self.phase = if found {
                    TickPhase::Dispatch
                } else {
                    TickPhase::Finished
                };
            },
            (TickPhase::Dispatch, TickEvent::Dispatched { position }) => {
                self.from = position.saturating_add(1);
                self.dispatched = self.dispatched.saturating_add(1);
            },
            (TickPhase::Dispatch, TickEvent::Exhausted) => {
                self.phase = TickPhase::Finished;
            },
            _ => {},
        }
    }
}

/// What is to have happened before a step: what runs was reconciled, then the configuration was
/// found valid, then the candidates were found, each where the step lies beyond it.
pub open spec fn prepared(events: Seq<TickEvent>, phase: TickPhase) -> bool {
    match phase {
        TickPhase::Validate => exists|i: int|
            0 <= i < events.len() && events[i] == TickEvent::Reconciled,
        TickPhase::Fetch => exists|i: int, j: int|
            0 <= i < j < events.len() && events[i] == TickEvent::Reconciled && events[j] == (
            TickEvent::Validated { valid: true }),
        TickPhase::Dispatch => exists|i: int, j: int, k: int|
            0 <= i < j < k < events.len() && events[i] == TickEvent::Reconciled && events[j] == (
            TickEvent::Validated { valid: true }) && events[k] == (TickEvent::Fetched {
                found: true,
            }),
        _ => true,
    }
}

/// Issues are dispatched only after what runs was reconciled, the configuration was then found
/// valid, and the candidates were then found; the steps before lie in that order too. Until then
/// nothing is dispatched.
pub proof fn lemma_dispatch_is_prepared(events: Seq<TickEvent>)
    ensures
        prepared(events, Tick::start().after_all(events).phase),
        Tick::start().after_all(events).dispatched > 0 ==> prepared(events, TickPhase::Dispatch),
    decreases events.len(),
{
    if events.len() > 0 {
        let earlier = events.drop_last();
        let before = Tick::start().after_all(earlier);
        let n = earlier.len() as int;
        lemma_dispatch_is_prepared(earlier);
        lemma_prepared_stays(earlier, events.last(), before.phase);
        if before.dispatched > 0 {
            lemma_prepared_stays(earlier, events.last(), TickPhase::Dispatch);
        }
        assert(events =~= earlier.push(events.last()));
        assert(events[n] == events.last());
        match before.phase {
            TickPhase::Validate => {
                let i = choose|i: int| 0 <= i < earlier.len() && earlier[i] == TickEvent::Reconciled;
                assert(events[i] == TickEvent::Reconciled);
            },
            TickPhase::Fetch => {
                let (i, j) = choose|i: int, j: int|
                    0 <= i < j < earlier.len() && earlier[i] == TickEvent::Reconciled && earlier[j]
                        == (TickEvent::Validated { valid: true });
                assert(events[i] == TickEvent::Reconciled);
                assert(events[j] == (TickEvent::Validated { valid: true }));
            },
            _ => {},
        }
    }
}

proof fn lemma_prepared_stays(events: Seq<TickEvent>, event: TickEvent, phase: TickPhase)
    requires
        prepared(events, phase),
    ensures
        prepared(events.push(event), phase),
{
    let more = events.push(event);
    match phase {
        TickPhase::Validate => {
            let i = choose|i: int| 0 <= i < events.len() && events[i] == TickEvent::Reconciled;
            assert(more[i] == TickEvent::Reconciled);
        },
        TickPhase::Fetch => {
            let (i, j) = choose|i: int, j: int|
                0 <= i < j < events.len() && events[i] == TickEvent::Reconciled && events[j] == (
                TickEvent::Validated { valid: true });
            assert(more[i] == TickEvent::Reconciled);
            assert(more[j] == (TickEvent::Validated { valid: true }));
        },
        TickPhase::Dispatch => {
            let (i, j, k) = choose|i: int, j: int, k: int|
                0 <= i < j < k < events.len() && events[i] == TickEvent::Reconciled && events[j]
                    == (TickEvent::Validated { valid: true }) && events[k]
                    == (TickEvent::Fetched { found: true });
            assert(more[i] == TickEvent::Reconciled);
            assert(more[j] == (TickEvent::Validated { valid: true }));
            assert(more[k] == (TickEvent::Fetched { found: true }));
        },
        _ => {},
    }
}

/// A configuration that is not valid, or candidates that are not found, end the tick: whatever comes
/// later, nothing more is dispatched.
pub proof fn lemma_failure_ends_the_tick(tick: Tick, event: TickEvent, later: Seq<TickEvent>)
    requires
        (tick.phase == TickPhase::Validate && event == (TickEvent::Validated { valid: false })) || (
        tick.phase == TickPhase::Fetch && event == (TickEvent::Fetched { found: false })),
    ensures
        tick.after(event).phase == TickPhase::Finished,
        tick.after(event).after_all(later) == tick.after(event),
        tick.after(event).dispatched == tick.dispatched,
    decreases later.len(),
{
    if later.len() > 0 {
        lemma_failure_ends_the_tick(tick, event, later.drop_last());
    }
}

/// Each step of a tick leads to the next one, on success alone from the second on; an issue that was
/// dispatched is counted, and the tick goes on behind it.
pub proof fn lemma_tick_goes_step_by_step(tick: Tick, position: usize)
    ensures
        tick.phase == TickPhase::Reconcile ==> tick.after(TickEvent::Reconciled).phase
            == TickPhase::Validate,
        tick.phase == TickPhase::Validate ==> tick.after(
            TickEvent::Validated { valid: true },
        ).phase == TickPhase::Fetch,
        tick.phase == TickPhase::Fetch ==> tick.after(TickEvent::Fetched { found: true }).phase
            == TickPhase::Dispatch,
        tick.phase == TickPhase::Dispatch && position < usize::MAX ==> {
            let after = tick.after(TickEvent::Dispatched { position });
            after.phase == TickPhase::Dispatch && after.from == position + 1
        },
        tick.phase == TickPhase::Dispatch && tick.dispatched < u32::MAX ==> tick.after(
            TickEvent::Dispatched { position },
        ).dispatched == tick.dispatched + 1,
        tick.phase == TickPhase::Dispatch ==> tick.after(TickEvent::Exhausted).phase
            == TickPhase::Finished && tick.after(TickEvent::Exhausted).dispatched
            == tick.dispatched,
        tick.phase == TickPhase::Finished ==> tick.after(TickEvent::Dispatched { position })
            == tick && tick.after(TickEvent::Reconciled) == tick,
        Tick::start().phase == TickPhase::Reconcile && Tick::start().from == 0
            && Tick::start().dispatched == 0,
{
}

} // verus!
