//! Sandboxed command execution: policy, results, environment, runners.
pub mod environment;
pub mod policy;
pub mod result;
pub mod script_runner;
pub mod terminal_runner;
