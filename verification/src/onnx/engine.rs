//! How the ONNX engine builds its sessions: the order in which it tries
//! execution providers, and which files of a model package hold its
//! auxiliary models (vocoder, text encoder, duration predictor).
use vstd::prelude::*;
use crate::text::{contains, contains_seq, lowercase_seq, str_eq, to_lowercase, views};
use crate::tools::registry::sync::{file_name_of, find_last};

verus! {

/// An execution-provider setup that a session is committed with.
#[derive(Debug, Clone, Copy, PartialEq, Eq, Structural)]
pub enum ProviderTier {
    /// CUDA first, the CPU behind it.
    Cuda,
    /// DirectML on device 0, the CPU behind it.
    DirectMlDevice0,
    /// DirectML on its default device, the CPU behind it.
    DirectMl,
    /// The CPU with its memory arena as configured.
    Cpu,
    /// The CPU without an arena, two threads and basic optimisation: the
    /// last resort.
    MinimalCpu,
}

/// How the CUDA memory arena grows.
#[derive(Debug, Clone, Copy, PartialEq, Eq, Structural)]
pub enum ArenaExtend {
    SameAsRequested,
    NextPowerOfTwo,
}

/// The auxiliary models of a speech package.
#[derive(Debug, Clone, Copy, PartialEq, Eq, Structural)]
pub enum SubModel {
    Vocoder,
    TextEncoder,
    DurationPredictor,
}

/// Does the GPU get tried? Everything but a configured GPU layer count of
/// 0 (CPU only) tries it.
pub open spec fn gpu_wanted(n_gpu_layers: i64) -> bool {
    n_gpu_layers != 0
}

/// The providers a session is tried with, in order, until one commits.
pub open spec fn provider_cascade_spec(use_gpu: bool) -> Seq<ProviderTier> {
    if use_gpu {
        seq![ProviderTier::Cuda, ProviderTier::DirectMlDevice0, ProviderTier::DirectMl, ProviderTier::Cpu, ProviderTier::MinimalCpu]
    } else {
        seq![ProviderTier::Cpu, ProviderTier::MinimalCpu]
    }
}

/// Does a lower-cased file name name the given auxiliary model?
pub open spec fn names_sub_model(n: Seq<char>, role: SubModel) -> bool {
    match role {
        SubModel::Vocoder => contains_seq(n, "vocoder"@) || contains_seq(n, "hift"@) || contains_seq(n, "generator"@)
            || contains_seq(n, "melgan"@) || contains_seq(n, "vocos"@),
        SubModel::TextEncoder => (contains_seq(n, "text_encoder"@) || contains_seq(n, "text_enc"@) || contains_seq(
            n,
            "prompt_encoder"@,
        ) || contains_seq(n, "speech_tokenizer"@)) && !contains_seq(n, "duration"@),
        SubModel::DurationPredictor => contains_seq(n, "duration_predictor"@) || contains_seq(n, "dp.onnx"@),
    }
}

/// Is the file at path `p` the given auxiliary model, by its lower-cased
/// file name?
pub open spec fn is_sub_model_file(p: Seq<char>, role: SubModel) -> bool {
    names_sub_model(lowercase_seq(file_name_of(p)), role)
}

/// Chooses how ONNX sessions are built.
pub struct SessionPlanner;

impl SessionPlanner {
    /// Does the GPU get tried, given the configured GPU layer count?
    pub fn use_gpu(n_gpu_layers: i64) -> (r: bool)
        ensures
            r == gpu_wanted(n_gpu_layers),
    {
        n_gpu_layers != 0
    }

    /// The providers a session is tried with, in order.
    pub fn provider_cascade(use_gpu: bool) -> (r: Vec<ProviderTier>)
        ensures
            r@ == provider_cascade_spec(use_gpu),
    {
        let mut v: Vec<ProviderTier> = Vec::new();
        if use_gpu {
            v.push(ProviderTier::Cuda);
            v.push(ProviderTier::DirectMlDevice0);
            v.push(ProviderTier::DirectMl);
        }
        v.push(ProviderTier::Cpu);
        v.push(ProviderTier::MinimalCpu);
        assert(v@ =~= provider_cascade_spec(use_gpu));
        v
    }

    /// How the CUDA arena grows: as requested when configured so
    /// (`kSameAsRequested`), else by powers of two.
    pub fn arena_extend(strategy: &str) -> (r: ArenaExtend)
        ensures
            r == (if strategy@ == "kSameAsRequested"@ {
                ArenaExtend::SameAsRequested
            } else {
                ArenaExtend::NextPowerOfTwo
            }),
    {
        if str_eq(strategy, "kSameAsRequested") {
            ArenaExtend::SameAsRequested
        } else {
            ArenaExtend::NextPowerOfTwo
        }
    }

    /// The CUDA memory limit to set: the configured one when positive.
    pub fn cuda_memory_limit(limit_bytes: u64) -> (r: Option<u64>)
        ensures
            r == (if limit_bytes > 0 {
                Some(limit_bytes)
            } else {
                None
            }),
    {
        if limit_bytes > 0 {
            Some(limit_bytes)
        } else {
            None
        }
    }

    /// Does the file at `path` hold the given auxiliary model?
    pub fn is_sub_model(path: &str, role: SubModel) -> (r: bool)
        ensures
            r == is_sub_model_file(path@, role),
    {
        let n = path.unicode_len();
        let f = match find_last(path, '/') {
            Some(k) => path.substring_char(k + 1, n),
            None => path,
        };
        let name = to_lowercase(f);
        let s = name.as_str();
        match role {
            SubModel::Vocoder => contains(s, "vocoder") || contains(s, "hift") || contains(s, "generator") || contains(
                s,
                "melgan",
            ) || contains(s, "vocos"),
            SubModel::TextEncoder => (contains(s, "text_encoder") || contains(s, "text_enc") || contains(
                s,
                "prompt_encoder",
            ) || contains(s, "speech_tokenizer")) && !contains(s, "duration"),
            SubModel::DurationPredictor => contains(s, "duration_predictor") || contains(s, "dp.onnx"),
        }
    }

    /// The first of the scanned model files (in scan order) that holds the
    /// given auxiliary model.
    pub fn find_sub_model(files: &Vec<String>, role: SubModel) -> (r: Option<usize>)
        ensures
            match r {
                Some(i) => i < files@.len() && is_sub_model_file(files@[i as int]@, role) && forall|j: int|
                    0 <= j < i ==> !is_sub_model_file(#[trigger] views(files@)[j], role),
                None => forall|j: int| 0 <= j < files@.len() ==> !is_sub_model_file(#[trigger] views(files@)[j], role),
            },
    {
        let mut i: usize = 0;
        while i < files.len()
            invariant
                i <= files@.len(),
                forall|j: int| 0 <= j < i ==> !is_sub_model_file(#[trigger] views(files@)[j], role),
            decreases files@.len() - i,
        {
            if Self::is_sub_model(files[i].as_str(), role) {
                return Some(i);
            }
            assert(views(files@)[i as int] == files@[i as int]@);
            i = i + 1;
        }
        None
    }
}

} // verus!
