//! The command line around the library: its argument rules, where outputs
//! go, and the bookkeeping of a run.

pub mod budget;
pub mod args;
pub mod paths;
pub mod inputs;
pub mod output;
pub mod report;
pub mod config;
pub mod native_set;
pub mod listing;
pub mod job;
