//! The master tools registry and its entry types.
pub mod types;
pub mod index;
pub mod sync;
