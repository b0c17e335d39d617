use cluaiz_engines::llama::config::{ContextShiftingMode, FeatureState, KvCacheQuantization, OptimizationConfig, OptimizationSettings};
use cluaiz_engines::llama::native::{chat_prompt, extract_layer_from_name, neutral_chat_prompt, select_chat_template, thinking_tag};

#[test]
fn layer_numbers_from_tensor_names() {
    assert_eq!(extract_layer_from_name("blk.12.ffn_up.weight"), Some(12));
    assert_eq!(extract_layer_from_name("model.layers.3.mlp"), Some(3));
    assert_eq!(extract_layer_from_name("blk.x.layer.7"), Some(7));
    assert_eq!(extract_layer_from_name("token_embd.weight"), None);
    assert_eq!(extract_layer_from_name("blk"), None);
}

#[test]
fn neutral_prompt_lines() {
    let msgs = vec![("user".to_string(), "hi".to_string()), ("assistant".to_string(), "hello".to_string())];
    assert_eq!(neutral_chat_prompt(&msgs, true), "user: hi\nassistant: hello\nassistant:\n");
    assert_eq!(neutral_chat_prompt(&msgs, false), "user: hi\nassistant: hello\n");
}

#[test]
fn chat_prompt_fallbacks() {
    let msgs = vec![("user".to_string(), "hi".to_string())];
    assert_eq!(chat_prompt(&vec![], Some("x".to_string()), None, true), "");
    assert_eq!(chat_prompt(&msgs, Some("<s>hi".to_string()), Some("t".to_string()), true), "<s>hi");
    assert_eq!(chat_prompt(&msgs, Some("  \n".to_string()), Some("T".to_string()), true), "T");
    assert_eq!(chat_prompt(&msgs, None, Some(" ".to_string()), false), "user: hi\n");
    assert_eq!(select_chat_template(Some("  "), Some("model".to_string())), Some("model".to_string()));
    assert_eq!(select_chat_template(Some("{{x}}"), Some("model".to_string())), Some("{{x}}".to_string()));
    assert_eq!(select_chat_template(None, None), None);
    assert_eq!(thinking_tag("  <think> "), Some("<think>".to_string()));
    assert_eq!(thinking_tag(" \t"), None);
}

#[test]
fn config_defaults_and_system_settings() {
    let d = OptimizationConfig::default();
    assert_eq!(d.n_gpu_layers, -1);
    assert_eq!(d.speculative_decoding, "Off");
    let control = OptimizationSettings {
        extreme_moe_streaming: FeatureState::Auto,
        flash_attention: FeatureState::On,
        speculative_decoding: FeatureState::On,
        draft_model_path: None,
        kv_cache_quantization: KvCacheQuantization::Kv8,
        context_shifting: ContextShiftingMode::Aggressive,
        hybrid_memory: FeatureState::Auto,
        force_memory_lock: FeatureState::Off,
    };
    let c = OptimizationConfig::load_from_system(Some(&control), false, 20, -1, "On".to_string());
    assert!(!c.flash_attn);
    assert_eq!(c.speculative_decoding, "On");
    assert_eq!(c.force_vram_reclaim, "Auto");
    assert_eq!(c.kv_cache_quantization, "Kv8");
    assert_eq!(c.context_shifting, "Aggressive");
    assert_eq!(c.n_ctx, u32::MAX);
    assert!(!c.use_mmap);
    let c2 = OptimizationConfig::load_from_system(None, false, 0, 4096, "Auto".to_string());
    assert!(c2.flash_attn);
    assert_eq!(c2.n_ctx, 4096);
    assert_eq!(OptimizationConfig::load_from_system(None, true, 0, -5, "Auto".to_string()).n_ctx, 0);
}

#[test]
fn context_params_follow_the_rules() {
    let mut c = OptimizationConfig::default();
    c.n_gpu_layers = 10;
    let p = c.to_context_params(16);
    assert_eq!(p.n_threads, 7);
    assert_eq!(p.type_k, 2);
    assert_eq!(p.flash_attn_type, 1);
    assert!(p.offload_kqv);
    c.n_gpu_layers = 0;
    let cpu = c.to_context_params(4);
    assert_eq!(cpu.n_threads, 2);
    assert_eq!(cpu.type_k, 1);
    assert_eq!(cpu.flash_attn_type, 0);
    assert!(!cpu.offload_kqv);
    c.n_gpu_layers = 5;
    c.kv_cache_quantization = "KV8".to_string();
    c.flash_attn = false;
    let fb = c.to_context_params(10);
    assert_eq!(fb.n_threads, 4);
    assert_eq!(fb.type_k, 1);
    assert_eq!(fb.flash_attn_type, 0);
    c.n_threads = 3;
    assert_eq!(c.to_context_params(64).n_threads, 3);
    let m = c.to_model_params();
    assert_eq!(m.n_gpu_layers, 5);
    assert!(!m.use_mlock);
}

#[test]
fn optimization_control_from_config() {
    let mut c = OptimizationConfig::default();
    c.context_shifting = "ON".to_string();
    c.kv_cache_quantization = "kv4".to_string();
    c.force_memory_lock = "On".to_string();
    c.speculative_decoding = "maybe".to_string();
    let o = c.to_optimization_control();
    assert_eq!(o.context_shifting, ContextShiftingMode::Standard);
    assert_eq!(o.kv_cache_quantization, KvCacheQuantization::Kv4);
    assert_eq!(o.force_memory_lock, FeatureState::On);
    assert_eq!(o.speculative_decoding, FeatureState::Auto);
    assert_eq!(o.flash_attention, FeatureState::On);
    assert_eq!(o.hybrid_memory, FeatureState::Off);
}
