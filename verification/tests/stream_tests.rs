use cluaiz_engines::json::Json;
use cluaiz_engines::llama::stream::{
    adds_start_token, common_prefix_len, effective_setting, forces_silent_thinking, frame_rendered, parse_generation_request,
    plan_prefill, prompt_budget, prompt_is_framed, start_near_ceiling, think_budget, think_tag, tokens_to_drop, PrefillPlan,
    ThinkWatch,
};

#[test]
fn pivot_markers_are_stripped() {
    let r = parse_generation_request("[PIVOT_CONTINUE][PIVOT_CONTINUE]  \n go on");
    assert!(r.is_pivot);
    assert_eq!(r.text, "go on");
    assert!(r.messages.is_empty());
    let plain = parse_generation_request("  hello [PIVOT_CONTINUE]");
    assert!(!plain.is_pivot);
    assert_eq!(plain.text, "  hello [PIVOT_CONTINUE]");
    assert_eq!(plain.think_mode, None);
}

#[test]
fn envelope_fields_are_read() {
    let r = parse_generation_request(
        "{\"messages\": [{\"role\": \"system\", \"content\": \"Be brief\"}, {\"content\": \"Hi\"}, {\"role\": \"assistant\"}], \"samplers\": {\"temp\": 0.2}, \"think_mode\": \"Low\", \"response_length\": \"short\"}",
    );
    assert!(!r.is_pivot);
    assert_eq!(
        r.messages,
        vec![
            ("system".to_string(), "Be brief".to_string()),
            ("user".to_string(), "Hi".to_string()),
            ("assistant".to_string(), String::new()),
        ]
    );
    assert!(matches!(r.samplers, Some(Json::Object(_))));
    assert_eq!(r.think_mode, Some("Low".to_string()));
    assert_eq!(r.response_length, Some("short".to_string()));
    let pivot = parse_generation_request("[PIVOT_CONTINUE] {\"pivot_prompt\": \"new direction\", \"messages\": []}");
    assert!(pivot.is_pivot);
    assert_eq!(pivot.messages, vec![("user".to_string(), "new direction".to_string())]);
    let not_envelope = parse_generation_request("{\"prompt\": \"x\", \"think_mode\": \"off\"}");
    assert!(not_envelope.messages.is_empty());
    assert_eq!(not_envelope.think_mode, None);
    assert!(not_envelope.samplers.is_none());
}

#[test]
fn framed_prompts_are_recognised() {
    assert!(prompt_is_framed("<|im_start|>user\nhi"));
    assert!(prompt_is_framed("x <|user|> y"));
    assert!(prompt_is_framed("<start_of_turn>user"));
    assert!(prompt_is_framed("<|turn>"));
    assert!(prompt_is_framed("[INST] hi [/INST]"));
    assert!(!prompt_is_framed("plain question"));
}

#[test]
fn think_budget_table() {
    assert_eq!(think_budget("off"), (true, 0));
    assert_eq!(think_budget("false"), (true, 0));
    assert_eq!(think_budget("0"), (true, 0));
    assert_eq!(think_budget("low"), (false, 512));
    assert_eq!(think_budget("medium"), (false, 1024));
    assert_eq!(think_budget("high"), (false, usize::MAX));
    assert_eq!(think_budget("on"), (false, usize::MAX));
    assert_eq!(think_budget("max"), (false, usize::MAX));
    assert_eq!(think_budget("auto"), (false, usize::MAX));
    assert_eq!(think_budget("300"), (false, 300));
    assert_eq!(think_budget("+00"), (true, 0));
    assert_eq!(think_budget("lots"), (false, usize::MAX));
    assert_eq!(effective_setting(Some("HIGH"), "low"), "high");
    assert_eq!(effective_setting(None, "Medium"), "medium");
    assert!(forces_silent_thinking("... CRITICAL INSTRUCTION ..."));
    assert!(forces_silent_thinking("<system>{\"skill\": 1}</system>"));
    assert!(!forces_silent_thinking("<system>plain</system>"));
}

#[test]
fn tags_framing_and_start_token() {
    assert_eq!(think_tag(Some("<think>".to_string()), "none"), "<think>");
    assert_eq!(think_tag(None, "<reason>"), "<reason>");
    assert_eq!(think_tag(None, "none"), "");
    assert_eq!(think_tag(None, "<tool_call>"), "");
    assert_eq!(frame_rendered("<|im_start|>x", true, "</think>"), Some("\n</think>\n<|im_start|>x".to_string()));
    assert_eq!(frame_rendered("<|im_start|>x", false, "</think>"), Some("<|im_start|>x".to_string()));
    assert_eq!(frame_rendered("<|im_start|>x", true, ""), Some("<|im_start|>x".to_string()));
    assert_eq!(frame_rendered(" \n ", false, "</think>"), None);
    assert!(adds_start_token(false, true, "Hello"));
    assert!(!adds_start_token(true, true, "Hello"));
    assert!(!adds_start_token(false, true, "<|im_start|>"));
    assert!(!adds_start_token(false, true, "<s>[INST]"));
    assert!(!adds_start_token(false, false, "Hello"));
}

#[test]
fn prompt_budget_and_prefill_plan() {
    assert_eq!(prompt_budget(512, 8192), (512, 7680));
    assert_eq!(prompt_budget(4096, 8192), (2048, 6144));
    assert_eq!(prompt_budget(4096, 512), (256, 256));
    assert_eq!(prompt_budget(100, 50), (100, 1));
    assert_eq!(common_prefix_len(&vec![1, 2, 3, 4, 5], &vec![1, 2, 3, 9]), 3);
    assert_eq!(common_prefix_len(&vec![], &vec![1]), 0);
    let cached = vec![1, 2, 3, 4, 5, 6];
    assert_eq!(plan_prefill(&cached, &vec![1, 2, 3, 4, 5, 7, 8], false, 100), PrefillPlan::Resume(5));
    assert_eq!(plan_prefill(&cached, &vec![1, 2, 3, 9], false, 100), PrefillPlan::Fresh);
    assert_eq!(plan_prefill(&cached, &vec![1, 2, 3, 4, 5], true, 100), PrefillPlan::Append);
    assert_eq!(plan_prefill(&cached, &vec![1, 2, 3, 4, 5], true, 3), PrefillPlan::Fresh);
    assert_eq!(plan_prefill(&vec![], &vec![1, 2, 3, 4, 5], false, 100), PrefillPlan::Fresh);
}

#[test]
fn think_blocks_are_tracked() {
    let mut w = ThinkWatch::new();
    assert!(w.on_piece("Hello", "<think>", "</think>", true, 2));
    assert!(!w.end_token(false));
    assert!(!w.on_piece("<think>", "<think>", "</think>", true, 2));
    assert!(w.in_block);
    assert_eq!(w.think_tokens, 1);
    assert!(!w.end_token(false));
    assert_eq!(w.suppressed, 1);
    assert!(!w.on_piece("hmm", "<think>", "</think>", true, 2));
    assert!(!w.in_block);
    assert!(w.on_piece("answer", "<think>", "</think>", true, 2));
    assert!(!w.on_piece("", "<think>", "</think>", true, 2));
    assert_eq!(w.generated, 1);
    let mut shown = ThinkWatch::new();
    assert!(shown.on_piece("<think>x", "<think>", "</think>", false, 0));
    assert!(shown.in_block);
    assert!(!shown.end_token(true));
    assert!(!shown.in_block);
    let mut long = ThinkWatch { in_block: true, think_tokens: 0, suppressed: 4095, generated: 0 };
    assert!(long.end_token(false));
}

#[test]
fn decode_window_near_the_context_end() {
    assert!(start_near_ceiling(4080, 4096));
    assert!(!start_near_ceiling(4079, 4096));
    assert!(start_near_ceiling(0, 10));
    assert_eq!(tokens_to_drop(100, 4000, 4096), 20);
    assert_eq!(tokens_to_drop(10, 0, 4096), 0);
    assert_eq!(tokens_to_drop(10, 4090, 4096), 10);
}
