//! Context-window telemetry.
pub mod context_tracker;
