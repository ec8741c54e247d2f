//! The rules by which coding agents are run on the issues of a tracker.
//!
//! The library decides; the program around it acts. It reads the workflow and its configuration,
//! chooses the issues to work on, follows each worker from its workspace to its last turn, retries
//! what failed, and says what the dashboards show. Clocks, files, processes and connections belong
//! to the program, which hands in what they gave.

pub mod agent_runner;
pub mod codex;
pub mod collections;
pub mod config;
pub mod dashboard;
pub mod domain;
pub mod error;
pub mod http;
pub mod json;
pub mod linear;
pub mod logging;
pub mod orchestrator;
pub mod path;
pub mod prompt;
pub mod sorting;
pub mod ssh;
pub mod startup;
pub mod template;
pub mod text;
pub mod time;
pub mod tracker;
pub mod workflow;
pub mod workspace;
pub mod workspace_flow;
pub mod yaml;
