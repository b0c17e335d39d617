//! How the native llama engine loads a model: the settings it applies on
//! top of the configured ones, from what the resource negotiator granted and
//! what the model's architecture tolerates, and the facts it takes from the
//! installed-model registry.
use vstd::prelude::*;
use crate::documents::{json_document, parse_json};
use crate::json::{jbool, jget, jobject, ju64, oarray, Json, JsonView, ostr, str_opt};
use crate::llama::config::{ContextSettings, ModelSettings};
use crate::text::{contains, contains_seq, lowercase_seq, replace_char, str_eq, to_lowercase};
use crate::tools::skills::parser::text_of;

verus! {

/// What the resource negotiator granted a model, as far as loading reads it.
#[derive(Debug, Clone, Copy)]
pub struct ResourceGrant {
    /// GPU layers granted; -1 for all of them.
    pub n_gpu_layers: i32,
    /// The model runs wholly on the GPU.
    pub gpu_only: bool,
    /// The model's weights stream from the SSD.
    pub ssd_streaming: bool,
    /// The context window granted, in tokens.
    pub target_ctx_tokens: u32,
    /// The VRAM budget is at most 6 GB.
    pub small_vram: bool,
}

/// What the model's architecture tolerates.
#[derive(Debug, Clone, Copy)]
pub struct ArchitectureTraits {
    /// Layers of the model.
    pub layers: usize,
    pub supports_flash_attention: bool,
    pub requires_fp16_kv: bool,
    /// A recurrent or state-space (non-transformer) model.
    pub is_recurrent: bool,
    /// The model predicts several tokens natively.
    pub has_native_mtp: bool,
}

/// What a load applies.
#[derive(Debug)]
pub struct NativeLoadPlan {
    pub model: ModelSettings,
    pub context: ContextSettings,
    pub n_batch: u32,
    pub n_ubatch: u32,
    /// The speculative decoding setting, forced `off` for a recurrent model.
    pub speculative_decoding: String,
    /// `native_mtp`, `eagle` or `off`.
    pub speculative_mode: String,
}

/// The GPU layers a load uses: none when the user asked for none; the
/// granted ones when the user left it to the engine (-1); else the user's
/// number, capped by a granted limit.
pub open spec fn target_gpu_layers_spec(user: i32, granted: i32) -> i32 {
    if user == 0 {
        0
    } else if user == -1 {
        granted
    } else if granted >= 0 {
        if user < granted { user } else { granted }
    } else {
        user
    }
}

/// The speculative mode of a load.
pub open spec fn speculative_mode_spec(setting: Seq<char>, recurrent: bool, native_mtp: bool) -> Seq<char> {
    if recurrent || lowercase_seq(setting) == "off"@ {
        "off"@
    } else if native_mtp {
        "native_mtp"@
    } else {
        "eagle"@
    }
}

/// Is flash attention switched off by the load? It runs only for a model
/// wholly on the GPU, with every layer there (or all of them asked for), on
/// an architecture that supports it and is not recurrent.
pub open spec fn flash_disabled(grant: ResourceGrant, arch: ArchitectureTraits, n_gpu_layers: i32) -> bool {
    !grant.gpu_only || (n_gpu_layers >= 0 && n_gpu_layers < arch.layers) || !arch.supports_flash_attention
        || arch.is_recurrent
}

/// The model settings of a load.
pub open spec fn planned_model(m: ModelSettings, user_no_mmap: bool, grant: ResourceGrant, high_memory_pressure: bool) -> ModelSettings {
    ModelSettings {
        n_gpu_layers: target_gpu_layers_spec(m.n_gpu_layers, grant.n_gpu_layers),
        use_mmap: !user_no_mmap || grant.ssd_streaming,
        use_mlock: m.use_mlock && !high_memory_pressure,
        use_extra_bufts: m.use_extra_bufts || grant.ssd_streaming,
        ..m
    }
}

/// The context settings of a load.
pub open spec fn planned_context(c: ContextSettings, grant: ResourceGrant, arch: ArchitectureTraits, n_gpu_layers: i32) -> ContextSettings {
    let flash_off = flash_disabled(grant, arch, n_gpu_layers) || c.flash_attn_type == 0;
    let half_cache = arch.requires_fp16_kv || arch.is_recurrent || (!grant.gpu_only && flash_off);
    ContextSettings {
        n_ctx: grant.target_ctx_tokens,
        flash_attn_type: if flash_disabled(grant, arch, n_gpu_layers) { 0 } else { c.flash_attn_type },
        type_k: if half_cache { 1 } else { c.type_k },
        type_v: if half_cache { 1 } else { c.type_v },
        ..c
    }
}

/// The batch and micro-batch sizes of a load: 32 on the CPU alone; 512 and
/// 128 with expert streaming or a small VRAM budget; else the configured
/// ones, 512 where unset.
pub open spec fn planned_batches(n_gpu_layers: i32, moe_active: bool, small_vram: bool, n_batch: u32, n_ubatch: u32) -> (u32, u32) {
    if n_gpu_layers == 0 {
        (32, 32)
    } else if moe_active || small_vram {
        (512, 128)
    } else {
        (if n_batch == 0 { 512 } else { n_batch }, if n_ubatch == 0 { 512 } else { n_ubatch })
    }
}

/// What the installed-model registry records of a model.
#[derive(Debug)]
pub struct RegistryModelFacts {
    pub architecture: Option<String>,
    pub layer_count: Option<u64>,
    pub is_ssm_model: Option<bool>,
    pub has_native_mtp: Option<bool>,
}

/// The registry facts as mathematical data.
pub ghost struct FactsView {
    pub architecture: Option<Seq<char>>,
    pub layer_count: Option<u64>,
    pub is_ssm_model: Option<bool>,
    pub has_native_mtp: Option<bool>,
}

impl View for RegistryModelFacts {
    type V = FactsView;

    open spec fn view(&self) -> FactsView {
        FactsView {
            architecture: match self.architecture {
                Some(a) => Some(a@),
                None => None,
            },
            layer_count: self.layer_count,
            is_ssm_model: self.is_ssm_model,
            has_native_mtp: self.has_native_mtp,
        }
    }
}

/// A path as the registry lookup compares it: lower-cased, with `/` for `\\`.
pub open spec fn normalized_path(p: Seq<char>) -> Seq<char> {
    lowercase_seq(p).map_values(|c: char| if c == '\\' { '/' } else { c })
}

/// Is a file entry marked as the primary weight file?
pub open spec fn is_primary_file(f: JsonView) -> bool {
    match jget(f, "is_primary"@) {
        Some(p) => jbool(p) == Some(true),
        None => false,
    }
}

/// The first primary file of a list.
pub open spec fn first_primary(files: Seq<JsonView>) -> Option<JsonView>
    decreases files.len(),
{
    if files.len() == 0 {
        None
    } else if is_primary_file(files[0]) {
        Some(files[0])
    } else {
        first_primary(files.drop_first())
    }
}

/// The name of an entry's primary weight file, empty when it names none.
pub open spec fn primary_name(entry: JsonView) -> Seq<char> {
    match oarray(jget(entry, "files"@)) {
        Some(files) => match first_primary(files) {
            Some(f) => text_of(jget(f, "name"@)),
            None => Seq::empty(),
        },
        None => Seq::empty(),
    }
}

/// Does a registry entry describe the model at the normalised path `pn`?
/// Its folder, or its primary file's lower-cased name, occurs in the path.
pub open spec fn entry_matches(pn: Seq<char>, entry: JsonView) -> bool {
    let dir = normalized_path(text_of(jget(entry, "local_dir"@)));
    let primary = lowercase_seq(primary_name(entry));
    (dir.len() > 0 && contains_seq(pn, dir)) || (primary.len() > 0 && contains_seq(pn, primary))
}

/// The installed models of a registry document, in document order.
pub open spec fn installed_members(reg: JsonView) -> Seq<(Seq<char>, JsonView)> {
    match jget(reg, "installed_models"@) {
        Some(m) => match jobject(m) {
            Some(v) => v,
            None => Seq::empty(),
        },
        None => Seq::empty(),
    }
}

/// Is `i` the first installed model that describes the model at `pn`?
pub open spec fn is_first_match(members: Seq<(Seq<char>, JsonView)>, pn: Seq<char>, i: int) -> bool {
    0 <= i < members.len() && entry_matches(pn, members[i].1) && forall|j: int|
        0 <= j < i ==> !entry_matches(pn, #[trigger] members[j].1)
}

/// What an entry's `metadata` records.
pub open spec fn facts_of(entry: JsonView) -> FactsView {
    match jget(entry, "metadata"@) {
        Some(m) => FactsView {
            architecture: ostr(jget(m, "architecture"@)),
            layer_count: match jget(m, "layer_count"@) {
                Some(l) => ju64(l),
                None => None,
            },
            is_ssm_model: match jget(m, "is_ssm_model"@) {
                Some(x) => jbool(x),
                None => None,
            },
            has_native_mtp: match jget(m, "has_native_mtp"@) {
                Some(x) => jbool(x),
                None => None,
            },
        },
        None => FactsView { architecture: None, layer_count: None, is_ssm_model: None, has_native_mtp: None },
    }
}

/// The name of the first primary file of a list, empty when none is.
fn primary_name_of(files: &Vec<Json>) -> (r: String)
    ensures
        r@ == match first_primary(crate::json::json_views(files@)) {
            Some(f) => text_of(jget(f, "name"@)),
            None => Seq::<char>::empty(),
        },
{
    let ghost fv = crate::json::json_views(files@);
    assert(fv.subrange(0, fv.len() as int) =~= fv);
    let mut i: usize = 0;
    while i < files.len()
        invariant
            i <= files@.len(),
            fv == crate::json::json_views(files@),
            first_primary(fv) == first_primary(fv.subrange(i as int, fv.len() as int)),
        decreases files@.len() - i,
    {
        let ghost rest = fv.subrange(i as int, fv.len() as int);
        assert(rest[0] == files@[i as int]@);
        assert(rest.drop_first() =~= fv.subrange(i + 1, fv.len() as int));
        let primary = match files[i].get("is_primary") {
            Some(p) => match p.as_bool() {
                Some(b) => b,
                None => false,
            },
            None => false,
        };
        if primary {
            return match str_opt(files[i].get("name")) {
                Some(n) => String::from_str(n),
                None => String::new(),
            };
        }
        i = i + 1;
    }
    assert(fv.subrange(i as int, fv.len() as int) =~= Seq::<JsonView>::empty());
    String::new()
}

/// Does a registry entry describe the model at the normalised path `pn`?
fn entry_matches_exec(pn: &str, entry: &Json) -> (r: bool)
    ensures
        r == entry_matches(pn@, entry@),
{
    let dir_raw = match str_opt(entry.get("local_dir")) {
        Some(d) => d,
        None => "",
    };
    proof {
        reveal_strlit("/");
        reveal_strlit("");
    }
    assert(dir_raw@ == text_of(jget(entry@, "local_dir"@)));
    let dir_lower = to_lowercase(dir_raw);
    assert(dir_lower@ == lowercase_seq(dir_raw@));
    let dir = replace_char(dir_lower.as_str(), '\\', "/");
    assert(dir@ =~= normalized_path(text_of(jget(entry@, "local_dir"@))));
    let name = match entry.get("files") {
        Some(f) => match f.as_array() {
            Some(files) => primary_name_of(files),
            None => String::new(),
        },
        None => String::new(),
    };
    let primary = to_lowercase(name.as_str());
    proof {
        assert(Seq::<char>::empty().map_values(|c: char| crate::text::ascii_lower_char(c)) =~= Seq::<char>::empty());
    }
    (dir.unicode_len() > 0 && contains(pn, dir.as_str())) || (primary.unicode_len() > 0 && contains(pn, primary.as_str()))
}

/// Decides how the native engine loads a model.
pub struct NativeLoader;

impl NativeLoader {
    /// The GPU layers a load uses (see [`target_gpu_layers_spec`]).
    pub fn target_gpu_layers(user: i32, granted: i32) -> (r: i32)
        ensures
            r == target_gpu_layers_spec(user, granted),
    {
        if user == 0 {
            0
        } else if user == -1 {
            granted
        } else if granted >= 0 {
            if user < granted { user } else { granted }
        } else {
            user
        }
    }

    /// The registry facts of the loaded model read from the text of the
    /// model registry file: none where serde_json reads no document from it,
    /// else as [`Self::registry_facts`] gives them of that document.
    pub fn registry_facts_from_text(model_path: &str, registry_text: &str) -> (r: Option<RegistryModelFacts>)
        ensures
            match json_document(registry_text@) {
                Some(v) => {
                    let members = installed_members(v);
                    let pn = normalized_path(model_path@);
                    match r {
                        Some(f) => exists|i: int| is_first_match(members, pn, i) && f@ == facts_of(#[trigger] members[i].1),
                        None => forall|i: int| 0 <= i < members.len() ==> !entry_matches(pn, #[trigger] members[i].1),
                    }
                },
                None => r is None,
            },
    {
        match parse_json(registry_text) {
            Some(doc) => Self::registry_facts(model_path, &doc),
            None => None,
        }
    }

    /// What the installed-model registry (`registry`, its parsed
    /// `model_registry.json`) records of the model at `model_path`: the
    /// metadata of the first installed model whose folder or primary file
    /// occurs in the lower-cased path; `None` when none does.
    pub fn registry_facts(model_path: &str, registry: &Json) -> (r: Option<RegistryModelFacts>)
        ensures
            ({
                let members = installed_members(registry@);
                let pn = normalized_path(model_path@);
                match r {
                    Some(f) => exists|i: int| is_first_match(members, pn, i) && f@ == facts_of(#[trigger] members[i].1),
                    None => forall|i: int| 0 <= i < members.len() ==> !entry_matches(pn, #[trigger] members[i].1),
                }
            }),
    {
        let lower = to_lowercase(model_path);
        proof {
            reveal_strlit("/");
        }
        let pn = replace_char(lower.as_str(), '\\', "/");
        let ghost members = installed_members(registry@);
        let installed = match registry.get("installed_models") {
            Some(m) => m.as_object(),
            None => None,
        };
        let entries = match installed {
            Some(v) => v,
            None => {
                return None;
            },
        };
        assert(members =~= entries@.map_values(|p: (String, Json)| (p.0@, p.1@)));
        let mut i: usize = 0;
        while i < entries.len()
            invariant
                i <= entries@.len(),
                members == entries@.map_values(|p: (String, Json)| (p.0@, p.1@)),
                members == installed_members(registry@),
                pn@ == normalized_path(model_path@),
                forall|j: int| 0 <= j < i ==> !entry_matches(pn@, #[trigger] members[j].1),
            decreases entries@.len() - i,
        {
            assert(members[i as int].1 == entries@[i as int].1@);
            if entry_matches_exec(pn.as_str(), &entries[i].1) {
                let e = &entries[i].1;
                let ghost ev = e@;
                assert(ev == members[i as int].1);
                let facts = match e.get("metadata") {
                    Some(m) => RegistryModelFacts {
                        architecture: match str_opt(m.get("architecture")) {
                            Some(a) => Some(String::from_str(a)),
                            None => None,
                        },
                        layer_count: match m.get("layer_count") {
                            Some(l) => l.as_u64(),
                            None => None,
                        },
                        is_ssm_model: match m.get("is_ssm_model") {
                            Some(x) => x.as_bool(),
                            None => None,
                        },
                        has_native_mtp: match m.get("has_native_mtp") {
                            Some(x) => x.as_bool(),
                            None => None,
                        },
                    },
                    None => RegistryModelFacts { architecture: None, layer_count: None, is_ssm_model: None, has_native_mtp: None },
                };
                assert(is_first_match(members, pn@, i as int));
                assert(facts@ == facts_of(members[i as int].1));
                return Some(facts);
            }
            i = i + 1;
        }
        None
    }

    /// The layers of a model: its structural description's count, else the
    /// probed one, else 32.
    pub fn layer_count(described: Option<usize>, probed: Option<usize>) -> (r: usize)
        ensures
            r == match described {
                Some(n) => n,
                None => match probed {
                    Some(n) => n,
                    None => 32,
                },
            },
    {
        match described {
            Some(n) => n,
            None => match probed {
                Some(n) => n,
                None => 32,
            },
        }
    }

    /// The settings a load applies: the configured model and context
    /// settings adjusted to the grant (GPU layers, context window, memory
    /// mapping when streaming), to the architecture (flash attention and an
    /// F16 cache where splits or the architecture need them), to the memory
    /// pressure (no locking under high pressure), with the batch sizes and
    /// the speculative mode. `moe_active` tells whether an expert streaming
    /// controller was set up for the model.
    pub fn plan(
        model: ModelSettings,
        context: ContextSettings,
        n_batch: u32,
        n_ubatch: u32,
        user_no_mmap: bool,
        grant: ResourceGrant,
        arch: ArchitectureTraits,
        speculative_decoding: &str,
        moe_active: bool,
        high_memory_pressure: bool,
    ) -> (r: NativeLoadPlan)
        ensures
            r.model == planned_model(model, user_no_mmap, grant, high_memory_pressure),
            r.context == planned_context(context, grant, arch, r.model.n_gpu_layers),
            (r.n_batch, r.n_ubatch) == planned_batches(r.model.n_gpu_layers, moe_active, grant.small_vram, n_batch, n_ubatch),
            r.speculative_decoding@ == (if arch.is_recurrent { "off"@ } else { speculative_decoding@ }),
            r.speculative_mode@ == speculative_mode_spec(speculative_decoding@, arch.is_recurrent, arch.has_native_mtp),
    {
        let n_gpu = Self::target_gpu_layers(model.n_gpu_layers, grant.n_gpu_layers);
        let planned_m = ModelSettings {
            n_gpu_layers: n_gpu,
            use_mmap: !user_no_mmap || grant.ssd_streaming,
            use_mlock: model.use_mlock && !high_memory_pressure,
            use_extra_bufts: model.use_extra_bufts || grant.ssd_streaming,
            ..model
        };
        let split = n_gpu >= 0 && (n_gpu as usize) < arch.layers;
        let flash_off = !grant.gpu_only || split || !arch.supports_flash_attention || arch.is_recurrent;
        let flash = if flash_off { 0 } else { context.flash_attn_type };
        let half_cache = arch.requires_fp16_kv || arch.is_recurrent || (!grant.gpu_only && flash == 0);
        let planned_c = ContextSettings {
            n_ctx: grant.target_ctx_tokens,
            flash_attn_type: flash,
            type_k: if half_cache { 1 } else { context.type_k },
            type_v: if half_cache { 1 } else { context.type_v },
            ..context
        };
        let (b, ub) = if n_gpu == 0 {
            (32u32, 32u32)
        } else if moe_active || grant.small_vram {
            (512u32, 128u32)
        } else {
            (if n_batch == 0 { 512 } else { n_batch }, if n_ubatch == 0 { 512 } else { n_ubatch })
        };
        let setting = if arch.is_recurrent {
            String::from_str("off")
        } else {
            String::from_str(speculative_decoding)
        };
        let lower = to_lowercase(speculative_decoding);
        proof {
            reveal_strlit("off");
        }
        let mode = if arch.is_recurrent || str_eq(lower.as_str(), "off") {
            String::from_str("off")
        } else if arch.has_native_mtp {
            String::from_str("native_mtp")
        } else {
            String::from_str("eagle")
        };
        NativeLoadPlan { model: planned_m, context: planned_c, n_batch: b, n_ubatch: ub, speculative_decoding: setting, speculative_mode: mode }
    }
}

} // verus!
