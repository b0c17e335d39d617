//! Installation of tools and their isolated runtimes.
pub mod bundle;
pub mod runtime_env;
pub mod tools_client;
