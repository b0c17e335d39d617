//! Engine parameters from the optimization settings: what the model and
//! the context are created with.
use vstd::prelude::*;
use crate::text::{lowercase_seq, str_eq, to_lowercase};

verus! {

/// A setting that is on, off, or left to the engine.
#[derive(Debug, Clone, Copy, PartialEq, Eq, Structural)]
pub enum FeatureState {
    On,
    Off,
    Auto,
}

/// How the key/value cache is stored.
#[derive(Debug, Clone, Copy, PartialEq, Eq, Structural)]
pub enum KvCacheQuantization {
    Auto,
    Kv8,
    Kv4,
    Kv16,
}

/// How eagerly the context window shifts when it fills.
#[derive(Debug, Clone, Copy, PartialEq, Eq, Structural)]
pub enum ContextShiftingMode {
    Off,
    Minimal,
    Standard,
    Aggressive,
    Extreme,
    Auto,
}

/// The system's optimization settings (buffer sizes aside).
#[derive(Debug, Clone)]
pub struct OptimizationSettings {
    pub extreme_moe_streaming: FeatureState,
    pub flash_attention: FeatureState,
    pub speculative_decoding: FeatureState,
    pub draft_model_path: Option<String>,
    pub kv_cache_quantization: KvCacheQuantization,
    pub context_shifting: ContextShiftingMode,
    pub hybrid_memory: FeatureState,
    pub force_memory_lock: FeatureState,
}

/// The engine's optimization configuration.
#[derive(Debug, Clone)]
pub struct OptimizationConfig {
    pub n_gpu_layers: i32,
    pub flash_attn: bool,
    pub use_mmap: bool,
    pub n_ctx: u32,
    pub n_threads: i32,
    pub turbo_quant: String,
    pub speculative_decoding: String,
    pub auto_round: String,
    pub force_vram_reclaim: String,
    pub kv_cache_quantization: String,
    pub context_shifting: String,
    pub think_mode: String,
    pub force_memory_lock: String,
}

/// The settings a configuration starts from.
pub open spec fn is_default(c: OptimizationConfig) -> bool {
    &&& c.n_gpu_layers == -1
    &&& c.flash_attn
    &&& c.use_mmap
    &&& c.n_ctx == 0
    &&& c.n_threads == -1
    &&& c.turbo_quant@ == "Auto"@
    &&& c.speculative_decoding@ == "Off"@
    &&& c.auto_round@ == "Auto"@
    &&& c.force_vram_reclaim@ == "Off"@
    &&& c.kv_cache_quantization@ == "Auto"@
    &&& c.context_shifting@ == "Auto"@
    &&& c.think_mode@ == "Auto"@
    &&& c.force_memory_lock@ == "Auto"@
}

impl Default for OptimizationConfig {
    /// Full GPU offload, flash attention, memory mapping, context and
    /// threads detected by the engine, every tunable on `Auto` but
    /// speculative decoding and VRAM reclaim, which are `Off`.
    fn default() -> (r: Self)
        ensures
            is_default(r),
    {
        OptimizationConfig {
            n_gpu_layers: -1,
            flash_attn: true,
            use_mmap: true,
            n_ctx: 0,
            n_threads: -1,
            turbo_quant: String::from_str("Auto"),
            speculative_decoding: String::from_str("Off"),
            auto_round: String::from_str("Auto"),
            force_vram_reclaim: String::from_str("Off"),
            kv_cache_quantization: String::from_str("Auto"),
            context_shifting: String::from_str("Auto"),
            think_mode: String::from_str("Auto"),
            force_memory_lock: String::from_str("Auto"),
        }
    }
}

/// The text of a feature state.
pub open spec fn feature_text(f: FeatureState) -> Seq<char> {
    match f {
        FeatureState::On => "On"@,
        FeatureState::Off => "Off"@,
        FeatureState::Auto => "Auto"@,
    }
}

/// The text of a cache quantization.
pub open spec fn kv_text(k: KvCacheQuantization) -> Seq<char> {
    match k {
        KvCacheQuantization::Auto => "Auto"@,
        KvCacheQuantization::Kv8 => "Kv8"@,
        KvCacheQuantization::Kv4 => "Kv4"@,
        KvCacheQuantization::Kv16 => "Kv16"@,
    }
}

/// The text of a context shifting mode.
pub open spec fn shifting_text(m: ContextShiftingMode) -> Seq<char> {
    match m {
        ContextShiftingMode::Off => "Off"@,
        ContextShiftingMode::Minimal => "Minimal"@,
        ContextShiftingMode::Standard => "Standard"@,
        ContextShiftingMode::Aggressive => "Aggressive"@,
        ContextShiftingMode::Extreme => "Extreme"@,
        ContextShiftingMode::Auto => "Auto"@,
    }
}

fn feature_string(f: FeatureState) -> (r: String)
    ensures
        r@ == feature_text(f),
{
    match f {
        FeatureState::On => String::from_str("On"),
        FeatureState::Off => String::from_str("Off"),
        FeatureState::Auto => String::from_str("Auto"),
    }
}

/// The context size a model header asks for: `-1` is the largest the
/// model supports (marked `u32::MAX`), a negative size is none.
pub open spec fn requested_context(n_ctx: i64) -> u32 {
    if n_ctx == -1 {
        u32::MAX
    } else if n_ctx < 0 {
        0
    } else {
        n_ctx as u32
    }
}

impl OptimizationConfig {
    /// The configuration the system settings give: the defaults, then the
    /// system's switches where they could be read (`control`, with whether
    /// its flash attention setting is active), then the model header's GPU
    /// layers, context size and thinking mode; memory mapping is always off.
    pub fn load_from_system(
        control: Option<&OptimizationSettings>,
        flash_attention_active: bool,
        n_gpu_layers: i32,
        n_ctx: i64,
        think_mode: String,
    ) -> (r: Self)
        ensures
            r.n_gpu_layers == n_gpu_layers,
            r.n_ctx == requested_context(n_ctx),
            r.think_mode@ == think_mode@,
            !r.use_mmap,
            r.n_threads == -1,
            r.turbo_quant@ == "Auto"@,
            r.auto_round@ == "Auto"@,
            match control {
                Some(c) => {
                    &&& r.flash_attn == flash_attention_active
                    &&& r.speculative_decoding@ == feature_text(c.speculative_decoding)
                    &&& r.force_vram_reclaim@ == feature_text(c.hybrid_memory)
                    &&& r.kv_cache_quantization@ == kv_text(c.kv_cache_quantization)
                    &&& r.context_shifting@ == shifting_text(c.context_shifting)
                    &&& r.force_memory_lock@ == feature_text(c.force_memory_lock)
                },
                None => {
                    &&& r.flash_attn
                    &&& r.speculative_decoding@ == "Off"@
                    &&& r.force_vram_reclaim@ == "Off"@
                    &&& r.kv_cache_quantization@ == "Auto"@
                    &&& r.context_shifting@ == "Auto"@
                    &&& r.force_memory_lock@ == "Auto"@
                },
            },
    {
        let mut config = OptimizationConfig::default();
        match control {
            Some(c) => {
                config.flash_attn = flash_attention_active;
                config.speculative_decoding = feature_string(c.speculative_decoding);
                config.force_vram_reclaim = feature_string(c.hybrid_memory);
                config.kv_cache_quantization = match c.kv_cache_quantization {
                    KvCacheQuantization::Auto => String::from_str("Auto"),
                    KvCacheQuantization::Kv8 => String::from_str("Kv8"),
                    KvCacheQuantization::Kv4 => String::from_str("Kv4"),
                    KvCacheQuantization::Kv16 => String::from_str("Kv16"),
                };
                config.context_shifting = match c.context_shifting {
                    ContextShiftingMode::Off => String::from_str("Off"),
                    ContextShiftingMode::Minimal => String::from_str("Minimal"),
                    ContextShiftingMode::Standard => String::from_str("Standard"),
                    ContextShiftingMode::Aggressive => String::from_str("Aggressive"),
                    ContextShiftingMode::Extreme => String::from_str("Extreme"),
                    ContextShiftingMode::Auto => String::from_str("Auto"),
                };
                config.force_memory_lock = feature_string(c.force_memory_lock);
            },
            None => {},
        }
        config.n_gpu_layers = n_gpu_layers;
        config.n_ctx = if n_ctx == -1 {
            u32::MAX
        } else if n_ctx < 0 {
            0
        } else {
            n_ctx as u32
        };
        config.think_mode = think_mode;
        config.use_mmap = false;
        config
    }
}

/// What a model is loaded with.
#[derive(Debug, Clone, Copy)]
pub struct ModelSettings {
    pub n_gpu_layers: i32,
    pub use_mmap: bool,
    pub use_mlock: bool,
    /// Host buffers stay allowed, so that host tensors can be pinned.
    pub no_host: bool,
    /// Extra host buffer types (pinned host buffers) are enabled.
    pub use_extra_bufts: bool,
}

/// What a context is created with.
#[derive(Debug, Clone, Copy)]
pub struct ContextSettings {
    pub n_ctx: u32,
    pub n_threads: i32,
    pub n_threads_batch: i32,
    /// Element type of the key cache (1 = F16, 2 = Q4_0, 8 = Q8_0).
    pub type_k: i32,
    /// Element type of the value cache.
    pub type_v: i32,
    /// 1 when flash attention is enabled.
    pub flash_attn_type: i32,
    pub offload_kqv: bool,
    pub op_offload: bool,
    pub embeddings: bool,
}

/// Threads for a machine with `cores` logical cores: about one per
/// physical core (half the logical ones beyond two), one left for the
/// system beyond four, never fewer than four there.
pub open spec fn optimal_threads(cores: usize) -> i32 {
    let physical = if cores > 2 { cores / 2 } else { cores };
    if physical > 4 {
        (if physical - 1 > 4 { physical - 1 } else { 4 }) as i32
    } else {
        physical as i32
    }
}

/// The cache type a quantization name asks for (`kv16`, `kv8`, `kv4`, in
/// any case), or, for any other name, Q4_0 when flash attention runs and
/// F16 otherwise.
pub open spec fn requested_cache_type(kv: Seq<char>, flash: bool) -> i32 {
    if lowercase_seq(kv) == "kv16"@ {
        1
    } else if lowercase_seq(kv) == "kv8"@ {
        8
    } else if lowercase_seq(kv) == "kv4"@ {
        2
    } else if flash {
        2
    } else {
        1
    }
}

/// The quantization a name asks for, in any case.
pub open spec fn kv_from_text(kv: Seq<char>) -> KvCacheQuantization {
    if lowercase_seq(kv) == "kv16"@ {
        KvCacheQuantization::Kv16
    } else if lowercase_seq(kv) == "kv8"@ {
        KvCacheQuantization::Kv8
    } else if lowercase_seq(kv) == "kv4"@ {
        KvCacheQuantization::Kv4
    } else {
        KvCacheQuantization::Auto
    }
}

/// The shifting mode a name asks for, in any case (`on` is standard).
pub open spec fn shifting_from_text(m: Seq<char>) -> ContextShiftingMode {
    let l = lowercase_seq(m);
    if l == "off"@ {
        ContextShiftingMode::Off
    } else if l == "minimal"@ {
        ContextShiftingMode::Minimal
    } else if l == "standard"@ || l == "on"@ {
        ContextShiftingMode::Standard
    } else if l == "aggressive"@ {
        ContextShiftingMode::Aggressive
    } else if l == "extreme"@ {
        ContextShiftingMode::Extreme
    } else {
        ContextShiftingMode::Auto
    }
}

impl OptimizationConfig {
    /// The model loading settings: the configured GPU layers and memory
    /// mapping, memory locking when forced `On`.
    pub fn to_model_params(&self) -> (r: ModelSettings)
        ensures
            r.n_gpu_layers == self.n_gpu_layers,
            r.use_mmap == self.use_mmap,
            r.use_mlock == (self.force_memory_lock@ == "On"@),
            !r.no_host,
            r.use_extra_bufts,
    {
        ModelSettings {
            n_gpu_layers: self.n_gpu_layers,
            use_mmap: self.use_mmap,
            use_mlock: str_eq(self.force_memory_lock.as_str(), "On"),
            no_host: false,
            use_extra_bufts: true,
        }
    }

    /// The context settings on a machine with `logical_cores` logical
    /// cores. A CPU-only model (no GPU layers) runs without flash
    /// attention; a quantized cache needs flash attention and falls back to
    /// F16 without it; the cache and batch operations are offloaded when
    /// any layer is on the GPU.
    pub fn to_context_params(&self, logical_cores: usize) -> (r: ContextSettings)
        ensures
            r.n_ctx == self.n_ctx,
            r.n_threads == (if self.n_threads <= 0 { optimal_threads(logical_cores) } else { self.n_threads }),
            r.n_threads_batch == r.n_threads,
            ({
                let cpu = self.n_gpu_layers == 0;
                let asked = requested_cache_type(self.kv_cache_quantization@, self.flash_attn && !cpu);
                let quantized = (asked == 8 || asked == 2) && self.flash_attn && !cpu;
                &&& r.type_k == (if quantized { asked } else { 1 })
                &&& r.type_v == r.type_k
                &&& r.flash_attn_type == (if (self.flash_attn || quantized) && !cpu { 1i32 } else { 0i32 })
            }),
            r.offload_kqv == (self.n_gpu_layers != 0),
            r.op_offload == (self.n_gpu_layers != 0),
            !r.embeddings,
    {
        let cores = logical_cores;
        let physical = if cores > 2 { cores / 2 } else { cores };
        let optimal: i32 = if physical > 4 {
            (if physical - 1 > 4 { physical - 1 } else { 4 }) as i32
        } else {
            physical as i32
        };
        let n_threads = if self.n_threads <= 0 { optimal } else { self.n_threads };
        let cpu = self.n_gpu_layers == 0;
        let kv = to_lowercase(self.kv_cache_quantization.as_str());
        let mut type_k: i32 = if str_eq(kv.as_str(), "kv16") {
            1
        } else if str_eq(kv.as_str(), "kv8") {
            8
        } else if str_eq(kv.as_str(), "kv4") {
            2
        } else if self.flash_attn && !cpu {
            2
        } else {
            1
        };
        let mut quantized = type_k == 8 || type_k == 2;
        if quantized && (!self.flash_attn || cpu) {
            type_k = 1;
            quantized = false;
        }
        ContextSettings {
            n_ctx: self.n_ctx,
            n_threads,
            n_threads_batch: n_threads,
            type_k,
            type_v: type_k,
            flash_attn_type: if (self.flash_attn || quantized) && !cpu { 1 } else { 0 },
            offload_kqv: !cpu,
            op_offload: !cpu,
            embeddings: false,
        }
    }

    /// The optimization settings this configuration stands for: flash
    /// attention on or off; speculative decoding `On`, `Off`, else auto;
    /// the cache quantization and shifting mode by name, in any case; VRAM
    /// reclaim and memory locking on only when `On`.
    pub fn to_optimization_control(&self) -> (r: OptimizationSettings)
        ensures
            r.extreme_moe_streaming == FeatureState::Auto,
            r.flash_attention == (if self.flash_attn { FeatureState::On } else { FeatureState::Off }),
            r.speculative_decoding == (if self.speculative_decoding@ == "On"@ {
                FeatureState::On
            } else if self.speculative_decoding@ == "Off"@ {
                FeatureState::Off
            } else {
                FeatureState::Auto
            }),
            r.draft_model_path is None,
            r.kv_cache_quantization == kv_from_text(self.kv_cache_quantization@),
            r.context_shifting == shifting_from_text(self.context_shifting@),
            r.hybrid_memory == (if self.force_vram_reclaim@ == "On"@ { FeatureState::On } else { FeatureState::Off }),
            r.force_memory_lock == (if self.force_memory_lock@ == "On"@ { FeatureState::On } else { FeatureState::Off }),
    {
        let kv = to_lowercase(self.kv_cache_quantization.as_str());
        let kv_mode = if str_eq(kv.as_str(), "kv16") {
            KvCacheQuantization::Kv16
        } else if str_eq(kv.as_str(), "kv8") {
            KvCacheQuantization::Kv8
        } else if str_eq(kv.as_str(), "kv4") {
            KvCacheQuantization::Kv4
        } else {
            KvCacheQuantization::Auto
        };
        let cs = to_lowercase(self.context_shifting.as_str());
        let c = cs.as_str();
        let shifting = if str_eq(c, "off") {
            ContextShiftingMode::Off
        } else if str_eq(c, "minimal") {
            ContextShiftingMode::Minimal
        } else if str_eq(c, "standard") || str_eq(c, "on") {
            ContextShiftingMode::Standard
        } else if str_eq(c, "aggressive") {
            ContextShiftingMode::Aggressive
        } else if str_eq(c, "extreme") {
            ContextShiftingMode::Extreme
        } else {
            ContextShiftingMode::Auto
        };
        OptimizationSettings {
            extreme_moe_streaming: FeatureState::Auto,
            flash_attention: if self.flash_attn { FeatureState::On } else { FeatureState::Off },
            speculative_decoding: if str_eq(self.speculative_decoding.as_str(), "On") {
                FeatureState::On
            } else if str_eq(self.speculative_decoding.as_str(), "Off") {
                FeatureState::Off
            } else {
                FeatureState::Auto
            },
            draft_model_path: None,
            kv_cache_quantization: kv_mode,
            context_shifting: shifting,
            hybrid_memory: if str_eq(self.force_vram_reclaim.as_str(), "On") {
                FeatureState::On
            } else {
                FeatureState::Off
            },
            force_memory_lock: if str_eq(self.force_memory_lock.as_str(), "On") {
                FeatureState::On
            } else {
                FeatureState::Off
            },
        }
    }
}

} // verus!
