//! Decisions of loading a model into llama.cpp: the ladder of fallback
//! load attempts after a failure, and the context settings that the
//! loaded model's architecture and the offload configuration call for.
use vstd::prelude::*;

verus! {

/// The parameters of a model load attempt that the fallbacks change.
#[derive(Debug, Clone, Copy, PartialEq, Eq, Structural)]
pub struct LoadParams {
    pub n_gpu_layers: i32,
    pub use_mlock: bool,
    pub use_mmap: bool,
    pub no_host: bool,
}

/// The attempts of a model load, in the order they are made.
#[derive(Debug, Clone, Copy, PartialEq, Eq, Structural)]
pub enum LoadStage {
    /// The parameters as requested.
    Requested,
    /// Without locking the weights in memory.
    NoMlock,
    /// With half the GPU layers.
    HalfGpu,
    /// On the CPU alone.
    CpuOnly,
    /// On the CPU, reading the file into memory instead of mapping it.
    NoMmap,
}

/// What to do after a load attempt failed (or before the first).
#[derive(Debug, Clone, Copy, PartialEq, Eq, Structural)]
pub enum LoadStep {
    /// Make this attempt with these parameters.
    Attempt(LoadStage, LoadParams),
    /// Give up: the model is larger than the free memory that reading it
    /// without a mapping would need.
    InsufficientRam,
    /// Give up: no fallback is left.
    Failed,
}

/// The position of a stage in the ladder.
pub open spec fn stage_rank(s: LoadStage) -> int {
    match s {
        LoadStage::Requested => 0,
        LoadStage::NoMlock => 1,
        LoadStage::HalfGpu => 2,
        LoadStage::CpuOnly => 3,
        LoadStage::NoMmap => 4,
    }
}

/// Does a stage apply to the requested parameters?
pub open spec fn stage_applies(s: LoadStage, p: LoadParams) -> bool {
    match s {
        LoadStage::Requested => true,
        LoadStage::NoMlock => p.use_mlock,
        LoadStage::HalfGpu => p.n_gpu_layers > 1,
        LoadStage::CpuOnly => p.n_gpu_layers != 0,
        LoadStage::NoMmap => p.use_mmap,
    }
}

/// The parameters of a stage, each derived from the requested ones.
pub open spec fn stage_params(s: LoadStage, p: LoadParams) -> LoadParams {
    match s {
        LoadStage::Requested => p,
        LoadStage::NoMlock => LoadParams { use_mlock: false, ..p },
        LoadStage::HalfGpu => LoadParams { n_gpu_layers: (p.n_gpu_layers / 2) as i32, ..p },
        LoadStage::CpuOnly => LoadParams { n_gpu_layers: 0, no_host: false, ..p },
        LoadStage::NoMmap => LoadParams { n_gpu_layers: 0, no_host: false, use_mmap: false, ..p },
    }
}

/// The next step of the ladder: the first stage after the one that failed
/// (`None` before the first attempt) that applies to the requested
/// parameters; a read into memory is not attempted, and the load gives up,
/// when the model is larger than the available memory; with no stage
/// left, the load fails.
pub open spec fn load_ladder(requested: LoadParams, failed: Option<LoadStage>, model_bytes: u64, available_bytes: u64) -> LoadStep {
    let from = match failed {
        Some(s) => stage_rank(s) + 1,
        None => 0,
    };
    if from <= 0 {
        LoadStep::Attempt(LoadStage::Requested, requested)
    } else if from <= 1 && stage_applies(LoadStage::NoMlock, requested) {
        LoadStep::Attempt(LoadStage::NoMlock, stage_params(LoadStage::NoMlock, requested))
    } else if from <= 2 && stage_applies(LoadStage::HalfGpu, requested) {
        LoadStep::Attempt(LoadStage::HalfGpu, stage_params(LoadStage::HalfGpu, requested))
    } else if from <= 3 && stage_applies(LoadStage::CpuOnly, requested) {
        LoadStep::Attempt(LoadStage::CpuOnly, stage_params(LoadStage::CpuOnly, requested))
    } else if from <= 4 && stage_applies(LoadStage::NoMmap, requested) {
        if model_bytes > available_bytes {
            LoadStep::InsufficientRam
        } else {
            LoadStep::Attempt(LoadStage::NoMmap, stage_params(LoadStage::NoMmap, requested))
        }
    } else {
        LoadStep::Failed
    }
}

/// The next load attempt after the stage `failed` failed (`None` before
/// the first), given the model's size and the free memory.
pub fn next_load_step(requested: LoadParams, failed: Option<LoadStage>, model_bytes: u64, available_bytes: u64) -> (r: LoadStep)
    ensures
        r == load_ladder(requested, failed, model_bytes, available_bytes),
{
    let from: u8 = match failed {
        Some(LoadStage::Requested) => 1,
        Some(LoadStage::NoMlock) => 2,
        Some(LoadStage::HalfGpu) => 3,
        Some(LoadStage::CpuOnly) => 4,
        Some(LoadStage::NoMmap) => 5,
        None => 0,
    };
    if from == 0 {
        LoadStep::Attempt(LoadStage::Requested, requested)
    } else if from <= 1 && requested.use_mlock {
        LoadStep::Attempt(LoadStage::NoMlock, LoadParams { use_mlock: false, ..requested })
    } else if from <= 2 && requested.n_gpu_layers > 1 {
        LoadStep::Attempt(LoadStage::HalfGpu, LoadParams { n_gpu_layers: requested.n_gpu_layers / 2, ..requested })
    } else if from <= 3 && requested.n_gpu_layers != 0 {
        LoadStep::Attempt(LoadStage::CpuOnly, LoadParams { n_gpu_layers: 0, no_host: false, ..requested })
    } else if from <= 4 && requested.use_mmap {
        if model_bytes > available_bytes {
            LoadStep::InsufficientRam
        } else {
            LoadStep::Attempt(
                LoadStage::NoMmap,
                LoadParams { n_gpu_layers: 0, no_host: false, use_mmap: false, ..requested },
            )
        }
    } else {
        LoadStep::Failed
    }
}

/// The ladder only moves forward: every attempt after a failed stage is a
/// later stage, so a load makes at most five attempts; and every fallback
/// after the half-GPU one runs on the CPU alone.
pub proof fn lemma_ladder_advances(requested: LoadParams, failed: LoadStage, model_bytes: u64, available_bytes: u64)
    ensures
        match load_ladder(requested, Some(failed), model_bytes, available_bytes) {
            LoadStep::Attempt(t, q) => stage_rank(t) > stage_rank(failed) && stage_applies(t, requested) && (stage_rank(t)
                >= 3 ==> q.n_gpu_layers == 0),
            _ => true,
        },
        failed == LoadStage::NoMmap ==> load_ladder(requested, Some(failed), model_bytes, available_bytes)
            == LoadStep::Failed,
{
}

/// Facts of a loaded model that its context settings depend on.
#[derive(Debug, Clone, Copy, PartialEq, Eq, Structural)]
pub struct ArchitectureFacts {
    /// The architecture needs an F16 key/value cache.
    pub requires_fp16_kv: bool,
    /// The architecture supports flash attention.
    pub supports_flash_attention: bool,
    /// The model is recurrent or hybrid.
    pub is_recurrent: bool,
    pub n_embd: i32,
    pub n_head: i32,
}

/// The context settings of a loaded model.
#[derive(Debug, Clone, Copy, PartialEq, Eq, Structural)]
pub struct ContextDecisions {
    /// The speculative decoding mode in force.
    pub speculative_mode: u8,
    /// Are CUDA graphs used?
    pub cuda_graphs: bool,
    /// Are host tensor operations offloaded to the GPU (and single-token
    /// batches forced onto it)?
    pub gpu_offload: bool,
    /// Where the key/value cache goes: on the GPU (`Some(true)`), in system
    /// memory (`Some(false)`), or as configured (`None`, without GPU layers).
    pub offload_kqv: Option<bool>,
    /// Is flash attention switched off?
    pub flash_attention_off: bool,
    /// Is the key/value cache forced to F16?
    pub f16_kv: bool,
}

/// Is the head dimension (`n_embd / n_head`, truncated, 128 when there is
/// no head) other than 128, or the model recurrent or hybrid?
pub open spec fn non_standard_attention(f: ArchitectureFacts) -> bool {
    f.is_recurrent || (f.n_head > 0 && !(128 * f.n_head <= f.n_embd && f.n_embd < 129 * f.n_head))
}

/// Free GPU memory below 1.2 GiB, in bytes.
pub open spec fn low_vram(free_vram_bytes: u64) -> bool {
    free_vram_bytes * 10 < 12 * 1024 * 1024 * 1024
}

/// The context settings of a loaded model: speculative decoding is off
/// for an architecture that needs an F16 cache or lacks flash attention,
/// and for a non-standard attention; CUDA graphs are off with speculative
/// decoding (modes 1 and 2) or GPU layers; with GPU layers the operations
/// are offloaded and the key/value cache goes to the GPU, unless expert
/// streaming runs with less than 1.2 GiB of free GPU memory; flash
/// attention is off for a non-standard attention or an architecture
/// without it; the cache is F16 for a non-standard attention or an
/// architecture that needs it.
pub open spec fn context_decisions_spec(n_gpu_layers: i32, speculative_mode: u8, f: ArchitectureFacts, moe_streaming: bool, free_vram_bytes: u64) -> ContextDecisions {
    let spec1: u8 = if f.requires_fp16_kv || !f.supports_flash_attention {
        0
    } else {
        speculative_mode
    };
    let fa_off = non_standard_attention(f) || !f.supports_flash_attention;
    ContextDecisions {
        speculative_mode: if fa_off {
            0
        } else {
            spec1
        },
        cuda_graphs: !(spec1 == 1 || spec1 == 2 || n_gpu_layers > 0),
        gpu_offload: n_gpu_layers != 0,
        offload_kqv: if n_gpu_layers != 0 {
            Some(!(moe_streaming && low_vram(free_vram_bytes)))
        } else {
            None
        },
        flash_attention_off: fa_off,
        f16_kv: non_standard_attention(f) || f.requires_fp16_kv,
    }
}

/// A recurrent or hybrid model always runs without flash attention, with
/// an F16 key/value cache and without speculative decoding, whatever its
/// head dimension and the requested mode.
pub proof fn lemma_recurrent_models_run_plain(n_gpu_layers: i32, speculative_mode: u8, f: ArchitectureFacts, moe_streaming: bool, free_vram_bytes: u64)
    requires
        f.is_recurrent,
    ensures
        context_decisions_spec(n_gpu_layers, speculative_mode, f, moe_streaming, free_vram_bytes).flash_attention_off,
        context_decisions_spec(n_gpu_layers, speculative_mode, f, moe_streaming, free_vram_bytes).f16_kv,
        context_decisions_spec(n_gpu_layers, speculative_mode, f, moe_streaming, free_vram_bytes).speculative_mode == 0,
{
}

/// A model whose head dimension (`n_embd / n_head`, truncated) is not 128
/// runs without flash attention, with an F16 key/value cache and without
/// speculative decoding; one with exactly 128 that is not recurrent, needs
/// no F16 cache and supports flash attention keeps flash attention, its
/// cache type and the requested speculative mode.
pub proof fn lemma_head_dimension_decides_attention(n_gpu_layers: i32, speculative_mode: u8, f: ArchitectureFacts, moe_streaming: bool, free_vram_bytes: u64)
    requires
        f.n_head > 0,
    ensures
        (f.n_embd as int) / (f.n_head as int) != 128 ==> ({
            let d = context_decisions_spec(n_gpu_layers, speculative_mode, f, moe_streaming, free_vram_bytes);
            d.flash_attention_off && d.f16_kv && d.speculative_mode == 0
        }),
        (f.n_embd >= 0 && (f.n_embd as int) / (f.n_head as int) == 128 && !f.is_recurrent && !f.requires_fp16_kv
            && f.supports_flash_attention) ==> ({
            let d = context_decisions_spec(n_gpu_layers, speculative_mode, f, moe_streaming, free_vram_bytes);
            !d.flash_attention_off && !d.f16_kv && d.speculative_mode == speculative_mode
        }),
{
    let h = f.n_head as int;
    let e = f.n_embd as int;
    if e >= 0 {
        assert(e / h == 128 <==> (128 * h <= e && e < 129 * h)) by (nonlinear_arith)
            requires
                h > 0,
                e >= 0,
        ;
    } else {
        assert(e / h < 128 && !(128 * h <= e)) by (nonlinear_arith)
            requires
                h > 0,
                e < 0,
        ;
    }
}

/// With GPU layers, operations are offloaded, CUDA graphs are off, and the
/// key/value cache goes to the GPU except when expert streaming runs with
/// less than 1.2 GiB of free GPU memory; without GPU layers nothing is
/// offloaded and the cache placement is left as configured.
pub proof fn lemma_gpu_layers_decide_offload(n_gpu_layers: i32, speculative_mode: u8, f: ArchitectureFacts, moe_streaming: bool, free_vram_bytes: u64)
    ensures
        ({
            let d = context_decisions_spec(n_gpu_layers, speculative_mode, f, moe_streaming, free_vram_bytes);
            &&& (n_gpu_layers > 0 ==> !d.cuda_graphs)
            &&& (n_gpu_layers != 0 ==> d.gpu_offload && d.offload_kqv == Some(
                !(moe_streaming && (free_vram_bytes as int) * 10 < 12 * 1024 * 1024 * 1024),
            ))
            &&& (n_gpu_layers == 0 ==> !d.gpu_offload && d.offload_kqv is None)
            &&& (n_gpu_layers <= 0 && speculative_mode != 1 && speculative_mode != 2 ==> d.cuda_graphs)
        }),
{
}

/// The context settings of a loaded model (see [`context_decisions_spec`]).
pub fn context_decisions(n_gpu_layers: i32, speculative_mode: u8, f: ArchitectureFacts, moe_streaming: bool, free_vram_bytes: u64) -> (r: ContextDecisions)
    ensures
        r == context_decisions_spec(n_gpu_layers, speculative_mode, f, moe_streaming, free_vram_bytes),
{
    let spec1: u8 = if f.requires_fp16_kv || !f.supports_flash_attention {
        0
    } else {
        speculative_mode
    };
    let head_standard = if f.n_head > 0 {
        let h = f.n_head as i64;
        let e = f.n_embd as i64;
        128 * h <= e && e < 129 * h
    } else {
        true
    };
    let non_standard = f.is_recurrent || !head_standard;
    let fa_off = non_standard || !f.supports_flash_attention;
    let low = (free_vram_bytes as u128) * 10 < 12 * 1024 * 1024 * 1024;
    ContextDecisions {
        speculative_mode: if fa_off {
            0
        } else {
            spec1
        },
        cuda_graphs: !(spec1 == 1 || spec1 == 2 || n_gpu_layers > 0),
        gpu_offload: n_gpu_layers != 0,
        offload_kqv: if n_gpu_layers != 0 {
            Some(!(moe_streaming && low))
        } else {
            None
        },
        flash_attention_off: fa_off,
        f16_kv: non_standard || f.requires_fp16_kv,
    }
}

/// The batch size of a context: the configured one, but no larger than
/// the context window when it is set.
pub fn batch_size(n_ctx: u32, n_batch: u32) -> (r: u32)
    ensures
        r == if n_ctx == 0 || n_batch <= n_ctx {
            n_batch
        } else {
            n_ctx
        },
{
    if n_ctx == 0 || n_batch <= n_ctx {
        n_batch
    } else {
        n_ctx
    }
}

} // verus!
