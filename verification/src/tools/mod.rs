//! Tools subsystem: registry, execution policy, skills, prompt tool routing.
pub mod engine;
pub mod execution;
pub mod installer;
pub mod mcp;
pub mod prompt_compiler;
pub mod registry;
pub mod skills;
pub mod telemetry;
