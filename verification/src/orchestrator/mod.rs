//! The orchestrator: what is running, what is claimed, what waits for a retry, and what to do
//! next.

pub mod control;
pub mod dispatch;
pub mod reconciliation;
pub mod reload;
pub mod retry;
pub mod state;
pub mod tick;

pub use crate::orchestrator::control::{Orchestrator, OrchestratorMsg, RevalidateResult};
pub use crate::orchestrator::dispatch::{
    available_global_slots, available_state_slots, select_eligible, select_worker_host,
    sort_candidates,
};
pub use crate::orchestrator::reconciliation::{is_stalled, reconcile};
pub use crate::orchestrator::retry::{compute_retry_delay, RetryQueue};
pub use crate::orchestrator::state::{
    AggregateTokens, OrchestratorState, RunningSnapshot, SnapshotCounts, StateSnapshot,
};
pub use crate::orchestrator::tick::{Tick, TickEvent, TickPhase};
