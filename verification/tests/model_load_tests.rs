use cluaiz_engines::llama::model_load::{
    batch_size, context_decisions, next_load_step, ArchitectureFacts, LoadParams, LoadStage, LoadStep,
};

fn params(gpu: i32, mlock: bool, mmap: bool) -> LoadParams {
    LoadParams { n_gpu_layers: gpu, use_mlock: mlock, use_mmap: mmap, no_host: true }
}

#[test]
fn load_ladder_walks_every_fallback() {
    let p = params(40, true, true);
    assert_eq!(next_load_step(p, None, 10, 100), LoadStep::Attempt(LoadStage::Requested, p));
    assert_eq!(
        next_load_step(p, Some(LoadStage::Requested), 10, 100),
        LoadStep::Attempt(LoadStage::NoMlock, LoadParams { use_mlock: false, ..p })
    );
    assert_eq!(
        next_load_step(p, Some(LoadStage::NoMlock), 10, 100),
        LoadStep::Attempt(LoadStage::HalfGpu, LoadParams { n_gpu_layers: 20, ..p })
    );
    assert_eq!(
        next_load_step(p, Some(LoadStage::HalfGpu), 10, 100),
        LoadStep::Attempt(LoadStage::CpuOnly, LoadParams { n_gpu_layers: 0, no_host: false, ..p })
    );
    assert_eq!(
        next_load_step(p, Some(LoadStage::CpuOnly), 10, 100),
        LoadStep::Attempt(LoadStage::NoMmap, LoadParams { n_gpu_layers: 0, no_host: false, use_mmap: false, ..p })
    );
    assert_eq!(next_load_step(p, Some(LoadStage::CpuOnly), 200, 100), LoadStep::InsufficientRam);
    assert_eq!(next_load_step(p, Some(LoadStage::NoMmap), 10, 100), LoadStep::Failed);
}

#[test]
fn load_ladder_skips_stages_that_do_not_apply() {
    let cpu = params(0, false, false);
    assert_eq!(next_load_step(cpu, Some(LoadStage::Requested), 10, 100), LoadStep::Failed);
    let one = params(1, false, true);
    assert_eq!(
        next_load_step(one, Some(LoadStage::Requested), 10, 100),
        LoadStep::Attempt(LoadStage::CpuOnly, LoadParams { n_gpu_layers: 0, no_host: false, ..one })
    );
    let all = params(-1, false, false);
    assert_eq!(
        next_load_step(all, Some(LoadStage::Requested), 10, 100),
        LoadStep::Attempt(LoadStage::CpuOnly, LoadParams { n_gpu_layers: 0, no_host: false, ..all })
    );
}

#[test]
fn context_settings_follow_the_architecture() {
    let standard = ArchitectureFacts {
        requires_fp16_kv: false,
        supports_flash_attention: true,
        is_recurrent: false,
        n_embd: 4096,
        n_head: 32,
    };
    let d = context_decisions(0, 1, standard, false, 0);
    assert_eq!(d.speculative_mode, 1);
    assert!(!d.cuda_graphs);
    assert!(!d.gpu_offload);
    assert_eq!(d.offload_kqv, None);
    assert!(!d.flash_attention_off);
    assert!(!d.f16_kv);
    let plain = context_decisions(0, 0, standard, false, 0);
    assert!(plain.cuda_graphs);
    let gpu = context_decisions(20, 0, standard, true, 1 << 30);
    assert!(gpu.gpu_offload);
    assert!(!gpu.cuda_graphs);
    assert_eq!(gpu.offload_kqv, Some(false));
    assert_eq!(context_decisions(20, 0, standard, true, 2 << 30).offload_kqv, Some(true));
    assert_eq!(context_decisions(20, 0, standard, false, 0).offload_kqv, Some(true));
    let odd_heads = ArchitectureFacts { n_embd: 2048, n_head: 32, ..standard };
    let o = context_decisions(0, 2, odd_heads, false, 0);
    assert!(o.flash_attention_off);
    assert!(o.f16_kv);
    assert_eq!(o.speculative_mode, 0);
    assert!(!o.cuda_graphs);
    let needs_f16 = ArchitectureFacts { requires_fp16_kv: true, ..standard };
    let f = context_decisions(0, 2, needs_f16, false, 0);
    assert_eq!(f.speculative_mode, 0);
    assert!(f.cuda_graphs);
    assert!(f.f16_kv);
    assert!(!f.flash_attention_off);
    let headless = ArchitectureFacts { n_head: 0, n_embd: 0, ..standard };
    assert!(!context_decisions(0, 0, headless, false, 0).flash_attention_off);
    assert_eq!(batch_size(4096, 512), 512);
    assert_eq!(batch_size(256, 512), 256);
    assert_eq!(batch_size(0, 512), 512);
}
