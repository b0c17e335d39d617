use cluaiz_engines::json::Json;
use cluaiz_engines::llama::config::{ContextSettings, ModelSettings};
use cluaiz_engines::llama::loader::{ArchitectureTraits, NativeLoader, ResourceGrant};

fn model(n_gpu_layers: i32) -> ModelSettings {
    ModelSettings { n_gpu_layers, use_mmap: true, use_mlock: true, no_host: false, use_extra_bufts: false }
}

fn context() -> ContextSettings {
    ContextSettings {
        n_ctx: 4096,
        n_threads: 8,
        n_threads_batch: 8,
        type_k: 8,
        type_v: 8,
        flash_attn_type: 1,
        offload_kqv: true,
        op_offload: true,
        embeddings: false,
    }
}

fn grant(n_gpu_layers: i32, gpu_only: bool) -> ResourceGrant {
    ResourceGrant { n_gpu_layers, gpu_only, ssd_streaming: false, target_ctx_tokens: 16384, small_vram: false }
}

fn arch() -> ArchitectureTraits {
    ArchitectureTraits { layers: 32, supports_flash_attention: true, requires_fp16_kv: false, is_recurrent: false, has_native_mtp: false }
}

#[test]
fn gpu_layers_follow_the_grant() {
    assert_eq!(NativeLoader::target_gpu_layers(0, 40), 0);
    assert_eq!(NativeLoader::target_gpu_layers(-1, 20), 20);
    assert_eq!(NativeLoader::target_gpu_layers(-1, -1), -1);
    assert_eq!(NativeLoader::target_gpu_layers(30, 20), 20);
    assert_eq!(NativeLoader::target_gpu_layers(10, 20), 10);
    assert_eq!(NativeLoader::target_gpu_layers(10, -1), 10);
    assert_eq!(NativeLoader::layer_count(Some(48), Some(40)), 48);
    assert_eq!(NativeLoader::layer_count(None, Some(40)), 40);
    assert_eq!(NativeLoader::layer_count(None, None), 32);
}

#[test]
fn full_gpu_load_keeps_flash_attention() {
    let p = NativeLoader::plan(model(-1), context(), 0, 256, false, grant(-1, true), arch(), "Auto", false, false);
    assert_eq!(p.model.n_gpu_layers, -1);
    assert!(p.model.use_mmap && p.model.use_mlock);
    assert_eq!(p.context.n_ctx, 16384);
    assert_eq!(p.context.flash_attn_type, 1);
    assert_eq!((p.context.type_k, p.context.type_v), (8, 8));
    assert_eq!((p.n_batch, p.n_ubatch), (512, 256));
    assert_eq!(p.speculative_decoding, "Auto");
    assert_eq!(p.speculative_mode, "eagle");
}

#[test]
fn split_and_cpu_loads() {
    let split = NativeLoader::plan(model(-1), context(), 1024, 1024, true, grant(20, false), arch(), "OFF", false, true);
    assert_eq!(split.model.n_gpu_layers, 20);
    assert!(!split.model.use_mmap);
    assert!(!split.model.use_mlock);
    assert_eq!(split.context.flash_attn_type, 0);
    assert_eq!((split.context.type_k, split.context.type_v), (1, 1));
    assert_eq!((split.n_batch, split.n_ubatch), (1024, 1024));
    assert_eq!(split.speculative_mode, "off");

    let mut streaming = grant(10, false);
    streaming.ssd_streaming = true;
    let s = NativeLoader::plan(model(-1), context(), 0, 0, true, streaming, arch(), "on", true, false);
    assert!(s.model.use_mmap && s.model.use_extra_bufts);
    assert_eq!((s.n_batch, s.n_ubatch), (512, 128));

    let cpu = NativeLoader::plan(model(0), context(), 0, 0, false, grant(40, true), arch(), "on", false, false);
    assert_eq!(cpu.model.n_gpu_layers, 0);
    assert_eq!((cpu.n_batch, cpu.n_ubatch), (32, 32));
    assert_eq!(cpu.context.flash_attn_type, 0);
}

#[test]
fn recurrent_models_turn_speculation_off() {
    let mut a = arch();
    a.is_recurrent = true;
    a.has_native_mtp = true;
    let p = NativeLoader::plan(model(-1), context(), 0, 0, false, grant(-1, true), a, "eagle", false, false);
    assert_eq!(p.speculative_decoding, "off");
    assert_eq!(p.speculative_mode, "off");
    assert_eq!(p.context.flash_attn_type, 0);
    assert_eq!(p.context.type_k, 1);
    let mut m = arch();
    m.has_native_mtp = true;
    let q = NativeLoader::plan(model(-1), context(), 0, 0, false, grant(-1, true), m, "on", false, false);
    assert_eq!(q.speculative_mode, "native_mtp");
}

fn s(x: &str) -> Json {
    Json::Str(x.to_string())
}

fn obj(members: Vec<(&str, Json)>) -> Json {
    Json::Object(members.into_iter().map(|(k, v)| (k.to_string(), v)).collect())
}

#[test]
fn registry_facts_of_the_loaded_model() {
    let registry = obj(vec![(
        "installed_models",
        obj(vec![
            ("a", obj(vec![("local_dir", s("C:\\Models\\Other")), ("metadata", obj(vec![("architecture", s("gemma"))]))])),
            (
                "b",
                obj(vec![
                    ("local_dir", s("")),
                    (
                        "files",
                        Json::Array(vec![
                            obj(vec![("name", s("tok.json")), ("is_primary", Json::Bool(false))]),
                            obj(vec![("name", s("Qwen3-8B.gguf")), ("is_primary", Json::Bool(true))]),
                        ]),
                    ),
                    (
                        "metadata",
                        obj(vec![
                            ("architecture", s("qwen3")),
                            ("layer_count", Json::UInt(36)),
                            ("is_ssm_model", Json::Bool(false)),
                            ("has_native_mtp", Json::Str("yes".to_string())),
                        ]),
                    ),
                ]),
            ),
        ]),
    )]);
    let f = NativeLoader::registry_facts("D:\\models\\chat\\qwen3-8b.gguf", &registry).unwrap();
    assert_eq!(f.architecture, Some("qwen3".to_string()));
    assert_eq!(f.layer_count, Some(36));
    assert_eq!(f.is_ssm_model, Some(false));
    assert_eq!(f.has_native_mtp, None);
    let g = NativeLoader::registry_facts("c:/models/other/x.gguf", &registry).unwrap();
    assert_eq!(g.architecture, Some("gemma".to_string()));
    assert_eq!(g.layer_count, None);
    assert!(NativeLoader::registry_facts("/m/none.gguf", &registry).is_none());
    assert!(NativeLoader::registry_facts("/m/none.gguf", &obj(vec![])).is_none());
}
