use cluaiz_engines::hardware::{HardwareDetector, InferenceEngine};
use cluaiz_engines::llama::config::{ContextShiftingMode, FeatureState, KvCacheQuantization, OptimizationSettings};
use cluaiz_engines::models::fetcher::{file_name, ModelDownloader};
use cluaiz_engines::models::registry::auditor::{HardwareAuditor, HealthStatus, MemoryFit};
use cluaiz_engines::models::registry::discovery::AutonomousDiscovery;
use cluaiz_engines::neural_foundry::{plan_skill_load, CoreFoundry, SkillLoad};
use cluaiz_engines::system_optimization::{AutoTuner, ConflictResolver};

fn settings() -> OptimizationSettings {
    OptimizationSettings {
        extreme_moe_streaming: FeatureState::Auto,
        flash_attention: FeatureState::Auto,
        speculative_decoding: FeatureState::On,
        draft_model_path: None,
        kv_cache_quantization: KvCacheQuantization::Auto,
        context_shifting: ContextShiftingMode::Auto,
        hybrid_memory: FeatureState::Off,
        force_memory_lock: FeatureState::Off,
    }
}

#[test]
fn skills_are_held_most_recent_last() {
    let mut f = CoreFoundry::new();
    f.activate_skill("a", 3);
    f.activate_skill("b", 3);
    f.activate_skill("c", 3);
    assert_eq!(f.active_skill_ids(), &vec!["a".to_string(), "b".to_string(), "c".to_string()]);
    f.activate_skill("b", 5);
    assert_eq!(f.active_skill_ids(), &vec!["a".to_string(), "c".to_string(), "b".to_string()]);
    // Three held and only two fit: the two oldest leave to make room.
    f.activate_skill("d", 2);
    assert_eq!(f.active_skill_ids(), &vec!["b".to_string(), "d".to_string()]);
    f.activate_skill("e", 0);
    assert_eq!(f.active_skill_ids(), &vec!["e".to_string()]);
}

#[test]
fn skill_load_plans() {
    assert_eq!(plan_skill_load(None, true, "/s"), SkillLoad::NoModel);
    assert_eq!(plan_skill_load(Some("qwen:7b"), false, "/s"), SkillLoad::TextPayload);
    assert_eq!(
        plan_skill_load(Some("qwen:7b"), true, "/tools/skills/pdf"),
        SkillLoad::Cache("/tools/skills/pdf/.cache/qwen-7b.kvcache.safetensors".to_string())
    );
}

#[test]
fn auto_tuner_and_conflicts() {
    let mut c = settings();
    AutoTuner::tune(&mut c, &vec!["Intel".to_string(), "NVIDIA Corporation".to_string()], true);
    assert_eq!(c.flash_attention, FeatureState::On);
    assert_eq!(c.kv_cache_quantization, KvCacheQuantization::Kv4);
    let mut d = settings();
    AutoTuner::tune(&mut d, &vec!["AMD".to_string()], false);
    assert_eq!(d.flash_attention, FeatureState::Off);
    assert_eq!(d.kv_cache_quantization, KvCacheQuantization::Auto);

    let mut e = settings();
    ConflictResolver::resolve_and_apply(&mut e, false, false, true);
    assert_eq!(e.kv_cache_quantization, KvCacheQuantization::Kv4);
    assert_eq!(e.flash_attention, FeatureState::On);
    let mut g = settings();
    ConflictResolver::resolve_and_apply(&mut g, true, false, true);
    assert_eq!(g.speculative_decoding, FeatureState::Off);
    assert_eq!(g.kv_cache_quantization, KvCacheQuantization::Auto);
    assert_eq!(g.flash_attention, FeatureState::Auto);
}

#[test]
fn health_grades() {
    let a = HardwareAuditor;
    let fit = |v, r, s| MemoryFit { fits_vram: v, fits_ram: r, fits_ram_share: s };
    assert_eq!(a.evaluate_hardware(fit(true, true, true), true), HealthStatus::Healthy);
    assert_eq!(a.evaluate_hardware(fit(false, true, false), true), HealthStatus::Suboptimal);
    assert_eq!(a.evaluate_hardware(fit(false, false, false), true), HealthStatus::Disabled);
    assert_eq!(a.evaluate_hardware(fit(true, true, true), false), HealthStatus::Suboptimal);
    assert_eq!(a.evaluate_hardware(fit(false, true, false), false), HealthStatus::Heavy);
    assert_eq!(a.evaluate_hardware(fit(false, false, false), false), HealthStatus::Disabled);
    assert_eq!(a.audit_performance(None, true), HealthStatus::Suboptimal);
    let _ = HardwareDetector::new();
    assert!(InferenceEngine::Llama != InferenceEngine::Candle);
}

#[test]
fn cached_model_lookup() {
    assert_eq!(file_name("models/q4.gguf"), Some("q4.gguf".to_string()));
    assert_eq!(file_name("a/b/"), Some("b".to_string()));
    assert_eq!(file_name("a/.."), None);
    assert_eq!(file_name("/"), None);
    assert_eq!(ModelDownloader::model_dir("/m", "chat", "org/qwen:7b"), "/m/chat/qwen:7b");
    assert_eq!(ModelDownloader::cache_dir("/m", "chat", "org/qwen:7b"), "/m/chat/qwen-7b");
    assert_eq!(
        ModelDownloader::cached_weight_path("/m", "chat", "org/qwen", "sub/w.gguf"),
        "/m/chat/qwen/w.gguf"
    );
    let entries = vec!["README.md".to_string(), "model.onnx".to_string(), "x.gguf".to_string()];
    assert_eq!(
        ModelDownloader::get_cached_path("/m", "chat", "org/qwen", "w.gguf", false, &entries),
        Some("/m/chat/qwen/model.onnx".to_string())
    );
    assert_eq!(
        ModelDownloader::get_cached_path("/m", "chat", "org/qwen", "w.gguf", true, &entries),
        Some("/m/chat/qwen/w.gguf".to_string())
    );
    assert!(!ModelDownloader::is_model_cached("/m", "c", "r", "w.gguf", false, &vec![".gguf".to_string()]));
    assert!(ModelDownloader::is_partial_download("blob.part"));
    assert!(!ModelDownloader::is_partial_download("blob.gguf"));
}

#[test]
fn discovery_picks_the_first_weight_file() {
    let names = vec!["README.md".to_string(), "tokenizer.json".to_string(), "Model.Q4.GGUF".to_string(), "b.onnx".to_string()];
    assert_eq!(AutonomousDiscovery::primary_weight_file(&names), Some(2));
    let onnx_first = vec!["x.onnx".to_string(), "y.gguf".to_string()];
    assert_eq!(AutonomousDiscovery::primary_weight_file(&onnx_first), Some(0));
    let none = vec!["config.json".to_string(), "weights.safetensors".to_string(), "gguf".to_string()];
    assert_eq!(AutonomousDiscovery::primary_weight_file(&none), None);
    assert_eq!(AutonomousDiscovery::primary_weight_file(&vec![]), None);
}
