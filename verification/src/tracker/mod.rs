//! Where issues come from.

pub mod kind;
pub mod memory;

pub use crate::tracker::kind::{build_tracker, TrackerKind};
pub use crate::tracker::memory::{CommentRecord, MemoryTracker, StateUpdateRecord};
