//! MCP servers: manifests and the JSON-RPC exchange with them.
pub mod client;
pub mod manifest;
