//! Reading what a model file says about itself.
pub mod gguf;
