//! The Linear issue tracker: its queries, the shape of its answers, and what is made of them.

pub mod adapter;
pub mod client;
pub mod queries;
pub mod types;
