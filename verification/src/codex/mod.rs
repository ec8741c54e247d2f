//! The protocol of the coding agent: its events, its requests and its tools.

pub mod app_server;
pub mod events;
pub mod tools;
