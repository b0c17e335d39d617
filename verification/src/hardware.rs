//! The hardware detector and the inference engines a model can run on.
use vstd::prelude::*;

verus! {

/// Detects the machine's hardware; the detection itself reads the system
/// and is done by the caller.
pub struct HardwareDetector;

impl HardwareDetector {
    pub fn new() -> (r: Self) {
        HardwareDetector
    }
}

impl Default for HardwareDetector {
    fn default() -> (r: Self) {
        HardwareDetector
    }
}

/// The inference engines a model can be run by.
#[allow(non_camel_case_types)]
#[derive(Debug, Clone, Copy, PartialEq, Eq, Structural)]
pub enum InferenceEngine {
    cluaiz,
    Llama,
    Candle,
}

} // verus!
