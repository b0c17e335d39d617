use cluaiz_engines::dispatcher::{KernelSelector, TokenAction, ToolCallInterceptor};
use cluaiz_engines::tools::installer::tools_client::HostOs;

#[test]
fn kernel_libraries_by_model_format() {
    assert!(KernelSelector::is_onnx_model("/m/vision/model.ONNX"));
    assert!(KernelSelector::is_onnx_model("/m/onnx-community/weights.bin"));
    assert!(!KernelSelector::is_onnx_model("/m/chat/qwen.gguf"));
    assert_eq!(KernelSelector::kernel_library("/m/chat/qwen.gguf", HostOs::Linux), "libcluaiz-llama.so");
    assert_eq!(KernelSelector::kernel_library("/m/chat/qwen.gguf", HostOs::MacOs), "libcluaiz-llama.dylib");
    assert_eq!(KernelSelector::kernel_library("/m/a/model.onnx", HostOs::Windows), "cluaiz-onnx.dll");
    assert_eq!(KernelSelector::kernel_ready_marker("/m/a/model.onnx"), "cluaiz-onnx.ready");
    assert_eq!(KernelSelector::kernel_ready_marker("/m/chat/qwen.gguf"), "cluaiz-llama.ready");
}

#[test]
fn tool_calls_are_held_and_handed_over_whole() {
    let mut w = ToolCallInterceptor::new();
    assert!(matches!(w.on_token("Let me check. "), TokenAction::Forward));
    assert!(matches!(w.on_token("<tool_"), TokenAction::Forward));
    assert!(matches!(w.on_token("call>{\"name\": \"calc\"}"), TokenAction::Hold));
    assert_eq!(w.pending_call(), Some("<tool_call>{\"name\": \"calc\"}".to_string()));
    match w.on_token("</tool_call> trailing") {
        TokenAction::Complete(t) => assert_eq!(t, "<tool_call>{\"name\": \"calc\"}</tool_call>"),
        other => panic!("expected a complete call, got {:?}", other),
    }
    assert_eq!(w.pending_call(), Some("<tool_call>{\"name\": \"calc\"}</tool_call>".to_string()));
}

#[test]
fn plain_text_keeps_a_window_of_100_bytes() {
    let mut w = ToolCallInterceptor::new();
    assert!(matches!(w.on_token(&"a".repeat(150)), TokenAction::Forward));
    assert_eq!(w.buffer, "a".repeat(100));
    assert_eq!(w.pending_call(), None);
    let mut e = ToolCallInterceptor::new();
    let text = format!("{}a", "\u{e9}".repeat(60));
    assert!(matches!(e.on_token(&text), TokenAction::Forward));
    assert_eq!(e.buffer, format!("{}a", "\u{e9}".repeat(49)));
    let mut f = ToolCallInterceptor::new();
    assert!(matches!(f.on_token(&format!("a{}", "\u{e9}".repeat(60))), TokenAction::Forward));
    assert_eq!(f.buffer, "\u{e9}".repeat(50));
    let mut g = ToolCallInterceptor::new();
    assert!(matches!(g.on_token("short"), TokenAction::Forward));
    assert_eq!(g.buffer, "short");
}

use cluaiz_engines::onnx::engine::{ArenaExtend, ProviderTier, SessionPlanner, SubModel};

#[test]
fn onnx_session_planning() {
    assert!(!SessionPlanner::use_gpu(0));
    assert!(SessionPlanner::use_gpu(-1));
    assert!(SessionPlanner::use_gpu(12));
    assert_eq!(
        SessionPlanner::provider_cascade(true),
        vec![ProviderTier::Cuda, ProviderTier::DirectMlDevice0, ProviderTier::DirectMl, ProviderTier::Cpu, ProviderTier::MinimalCpu]
    );
    assert_eq!(SessionPlanner::provider_cascade(false), vec![ProviderTier::Cpu, ProviderTier::MinimalCpu]);
    assert_eq!(SessionPlanner::arena_extend("kSameAsRequested"), ArenaExtend::SameAsRequested);
    assert_eq!(SessionPlanner::arena_extend("kNextPowerOfTwo"), ArenaExtend::NextPowerOfTwo);
    assert_eq!(SessionPlanner::cuda_memory_limit(0), None);
    assert_eq!(SessionPlanner::cuda_memory_limit(4096), Some(4096));
}

#[test]
fn onnx_sub_models_by_file_name() {
    let files = vec![
        "/m/tts/model.onnx".to_string(),
        "/m/tts/Text_Encoder_duration.onnx".to_string(),
        "/m/tts/sub/HiFT_Generator.onnx".to_string(),
        "/m/tts/text_encoder.onnx".to_string(),
        "/m/tts/dp.onnx".to_string(),
    ];
    assert_eq!(SessionPlanner::find_sub_model(&files, SubModel::Vocoder), Some(2));
    assert_eq!(SessionPlanner::find_sub_model(&files, SubModel::TextEncoder), Some(3));
    assert_eq!(SessionPlanner::find_sub_model(&files, SubModel::DurationPredictor), Some(4));
    assert_eq!(SessionPlanner::find_sub_model(&vec!["/m/a/model.onnx".to_string()], SubModel::Vocoder), None);
    assert!(!SessionPlanner::is_sub_model("/vocoder/model.onnx", SubModel::Vocoder));
}

#[test]
fn interceptor_reports_closing_tag_ahead_of_opening_tag() {
    let mut w = ToolCallInterceptor::new();
    assert!(!w.would_misread("plain text"));
    assert!(w.would_misread("</tool_call> then <tool_call>"));
    assert!(!w.would_misread("<tool_call>x</tool_call>"));
    assert!(!w.holds_misordered_tags());
    assert!(matches!(w.on_token("</tool_call>"), TokenAction::Forward));
    assert!(!w.holds_misordered_tags());
    assert!(w.would_misread(" <tool_call>"));
    assert!(!w.would_misread("<tool_call>"));
}
