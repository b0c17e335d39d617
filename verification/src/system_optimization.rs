//! Settling the optimization settings for the hardware at hand: `Auto`
//! states calibrated, and combinations that cannot work together resolved.
//! Free VRAM is a floating-point figure; the caller compares it with the
//! thresholds and passes the outcome.
use vstd::prelude::*;
use crate::llama::config::{FeatureState, KvCacheQuantization, OptimizationSettings};
use crate::text::{contains, contains_seq, lowercase_seq, to_lowercase};

verus! {

/// Does some GPU vendor name, lowercased, mention NVIDIA?
pub open spec fn has_cuda(vendors: Seq<String>) -> bool {
    exists|i: int| 0 <= i < vendors.len() && #[trigger] contains_seq(lowercase_seq(vendors[i]@), "nvidia"@)
}

/// The settings other than flash attention, speculative decoding and the
/// cache quantization are equal.
pub open spec fn same_rest(a: OptimizationSettings, b: OptimizationSettings) -> bool {
    &&& a.extreme_moe_streaming == b.extreme_moe_streaming
    &&& a.draft_model_path == b.draft_model_path
    &&& a.context_shifting == b.context_shifting
    &&& a.hybrid_memory == b.hybrid_memory
    &&& a.force_memory_lock == b.force_memory_lock
}

fn any_nvidia(vendors: &Vec<String>) -> (r: bool)
    ensures
        r == has_cuda(vendors@),
{
    let mut i: usize = 0;
    while i < vendors.len()
        invariant
            i <= vendors@.len(),
            forall|j: int| 0 <= j < i ==> !#[trigger] contains_seq(lowercase_seq(vendors@[j]@), "nvidia"@),
        decreases vendors@.len() - i,
    {
        let l = to_lowercase(vendors[i].as_str());
        if contains(l.as_str(), "nvidia") {
            assert(contains_seq(lowercase_seq(vendors@[i as int]@), "nvidia"@));
            return true;
        }
        i = i + 1;
    }
    false
}

/// Calibrates `Auto` states from the hardware.
pub struct AutoTuner;

impl AutoTuner {
    /// Flash attention left to `Auto` is turned on with an NVIDIA GPU and off
    /// without one; a cache quantization left to `Auto` becomes 4-bit when
    /// the GPUs have less than 8 GB of free VRAM between them
    /// (`vram_below_8gb`).
    pub fn tune(control: &mut OptimizationSettings, gpu_vendors: &Vec<String>, vram_below_8gb: bool)
        ensures
            final(control).flash_attention == (if old(control).flash_attention == FeatureState::Auto {
                if has_cuda(gpu_vendors@) { FeatureState::On } else { FeatureState::Off }
            } else {
                old(control).flash_attention
            }),
            final(control).kv_cache_quantization == (if old(control).kv_cache_quantization
                == KvCacheQuantization::Auto && vram_below_8gb {
                KvCacheQuantization::Kv4
            } else {
                old(control).kv_cache_quantization
            }),
            final(control).speculative_decoding == old(control).speculative_decoding,
            same_rest(*final(control), *old(control)),
    {
        if control.flash_attention == FeatureState::Auto {
            control.flash_attention = if any_nvidia(gpu_vendors) { FeatureState::On } else { FeatureState::Off };
        }
        if control.kv_cache_quantization == KvCacheQuantization::Auto && vram_below_8gb {
            control.kv_cache_quantization = KvCacheQuantization::Kv4;
        }
    }
}

/// Resolves features that conflict.
pub struct ConflictResolver;

impl ConflictResolver {
    /// BitNet and state-space models skip speculative decoding; with
    /// speculative decoding on, a cache quantization left to `Auto` becomes
    /// 4-bit when the GPUs have less than 12 GB of free VRAM
    /// (`vram_below_12gb`), and flash attention left to `Auto` is turned on.
    pub fn resolve_and_apply(control: &mut OptimizationSettings, is_bitnet: bool, is_ssm: bool, vram_below_12gb: bool)
        ensures
            ({
                let spec = if (is_bitnet || is_ssm) && old(control).speculative_decoding == FeatureState::On {
                    FeatureState::Off
                } else {
                    old(control).speculative_decoding
                };
                &&& final(control).speculative_decoding == spec
                &&& final(control).kv_cache_quantization == (if spec == FeatureState::On && vram_below_12gb
                    && old(control).kv_cache_quantization == KvCacheQuantization::Auto {
                    KvCacheQuantization::Kv4
                } else {
                    old(control).kv_cache_quantization
                })
                &&& final(control).flash_attention == (if spec == FeatureState::On && old(control).flash_attention
                    == FeatureState::Auto {
                    FeatureState::On
                } else {
                    old(control).flash_attention
                })
            }),
            same_rest(*final(control), *old(control)),
    {
        if (is_bitnet || is_ssm) && control.speculative_decoding == FeatureState::On {
            control.speculative_decoding = FeatureState::Off;
        }
        if control.speculative_decoding == FeatureState::On {
            if vram_below_12gb && control.kv_cache_quantization == KvCacheQuantization::Auto {
                control.kv_cache_quantization = KvCacheQuantization::Kv4;
            }
        }
        if control.speculative_decoding == FeatureState::On && control.flash_attention == FeatureState::Auto {
            control.flash_attention = FeatureState::On;
        }
    }
}

} // verus!
