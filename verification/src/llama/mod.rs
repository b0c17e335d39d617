//! The llama.cpp engine's own decisions: the settings a model loads with,
//! which expert weights to keep resident, how prompts fall back when no
//! template renders, how tensor names map to layers.
pub mod config;
pub mod expert_offloading;
pub mod loader;
pub mod model_load;
pub mod native;
pub mod stream;
