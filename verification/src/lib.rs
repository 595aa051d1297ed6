//! Mirrors a list of remote repositories into local directories.
//!
//! The library holds the decisions of a mirroring run: how a target is named,
//! whether a destination is cloned or fetched, how transfer statistics become
//! progress events, how many targets may run at once, and how the outcomes add
//! up to a report. The callers perform the transfers and feed back what happened.

pub mod chain;
pub mod cli;
pub mod config;
pub mod credentials;
pub mod engine;
pub mod error;
pub mod gui;
pub mod job;
pub mod progress;
pub mod report;
pub mod scheduler;
pub mod target;
pub mod text;
pub mod util;
