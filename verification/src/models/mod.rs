//! Model storage, discovery and probing.
pub mod fetcher;
pub mod prober;
pub mod registry;
