//! Verified core of the cluaiz inference engines: tool registry and policy
//! logic, prompt tool routing, model vault layout, GGUF header parsing and
//! expert residency bookkeeping.
use vstd::prelude::*;

pub mod bytes;
pub mod dispatcher;
pub mod documents;
pub mod hardware;
pub mod json;
pub mod keyed;
pub mod llama;
pub mod models;
pub mod neural_foundry;
pub mod onnx;
pub mod paths;
pub mod system_optimization;
pub mod text;
pub mod utf8_lemmas;
pub mod tools;

verus! {

} // verus!
