//! The ONNX engine's own decisions: how its sessions are built, the expert
//! session pool, and the pronunciation lexicon of its text-to-speech models.
pub mod engine;
pub mod expert_offloading;
pub mod ipa_dictionary;
