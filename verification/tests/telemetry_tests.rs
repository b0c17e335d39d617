use cluaiz_engines::tools::registry::index::ToolsRegistry;
use cluaiz_engines::tools::registry::types::{SecurityMode, ToolEntry};
use cluaiz_engines::tools::telemetry::context_tracker::{mode_label_of, ContextTracker};

fn tool(id: &str, category: &str, description: &str, enabled: bool) -> (String, ToolEntry) {
    let mut e = ToolEntry::default();
    e.id = id.to_string();
    e.category = category.to_string();
    e.description = description.to_string();
    e.enabled = enabled;
    (id.to_string(), e)
}

fn registry() -> ToolsRegistry {
    let mut reg = ToolsRegistry::new();
    // 40 bytes of description: 10 tokens.
    reg.installed_tools.push(tool("writer", "skill", &"w".repeat(40), true));
    // 8 bytes: a quarter is 2, raised to 4.
    reg.installed_tools.push(tool("calc", "plugin", "calc it!", true));
    reg.installed_tools.push(tool("fs", "mcp", &"f".repeat(100), true));
    reg.installed_tools.push(tool("off", "plugin", &"o".repeat(400), false));
    reg.installed_tools.push(tool("web", "other", &"x".repeat(80), true));
    reg
}

#[test]
fn tool_token_estimates() {
    let (_, e) = tool("a", "skill", "", true);
    assert_eq!(ContextTracker::estimate_tool_tokens(&e), 4);
    let (_, mut f) = tool("b", "skill", &"d".repeat(30), true);
    f.permissions = vec!["network".to_string()];
    f.semantic_triggers = vec!["abc".to_string()];
    assert_eq!(ContextTracker::estimate_tool_tokens(&f), 10);
    assert_eq!(mode_label_of(SecurityMode::FullAccess), "fullaccess");
    assert_eq!(mode_label_of(SecurityMode::WorkspaceWrite), "workspacewrite");
}

#[test]
fn tally_splits_active_and_deferred_tools() {
    let reg = registry();
    let t = ContextTracker::tally_tool_tokens(&reg, &vec!["writer".to_string(), "web".to_string()]);
    assert_eq!(t.skills_tokens, 10);
    assert_eq!(t.plugins_tokens, 20);
    assert_eq!(t.mcp_tools_tokens, 0);
    assert_eq!(t.deferred_mcp_tokens, 25);
    assert_eq!(t.deferred_plugins_tokens, 4);
    assert_eq!(t.deferred_tools_tokens_saved, 29);
    assert_eq!(t.skill_items.len(), 1);
    assert_eq!(t.skill_items[0].status, "active");
    assert_eq!(t.skill_items[0].name, "writer");
    assert_eq!(t.skill_items[0].security_mode, "sandboxed");
    assert_eq!(t.plugin_items.len(), 2);
    assert_eq!(t.plugin_items[0].name, "calc");
    assert_eq!(t.plugin_items[0].status, "deferred");
    assert_eq!(t.plugin_items[0].tokens, 0);
    assert_eq!(t.plugin_items[1].name, "web");
    assert_eq!(t.plugin_items[1].tokens, 20);
    assert_eq!(t.mcp_items.len(), 1);
}

#[test]
fn context_counts_fill_the_limit() {
    let reg = registry();
    let c = ContextTracker::compute_counts(&reg, &vec!["writer".to_string()], 400, 800, 2, 50, 4096, 8192);
    assert_eq!(c.system_prompt_tokens, 1);
    assert_eq!(c.user_prompt_tokens, 100);
    assert_eq!(c.chat_history_tokens, 200);
    assert_eq!(c.raw_messages_tokens, 350);
    assert_eq!(c.messages_tokens, 350);
    assert_eq!(c.active_tools_tokens, 10);
    assert_eq!(c.total_active_tokens, 361);
    assert_eq!(c.free_space_tokens, 4096 - 361);
    assert_eq!(c.total_context_limit, 4096);
    assert_eq!(c.model_native_context, 8192);
    assert_eq!(c.active_tools_count, 1);
    assert_eq!(c.kv_cache_vram_bytes_allocated, 361 * 8192);

    let full = ContextTracker::compute_counts(&reg, &vec![], 40000, 0, 0, 0, 2048, 0);
    assert_eq!(full.raw_messages_tokens, 10000);
    assert_eq!(full.messages_tokens, 2048);
    assert_eq!(full.total_active_tokens, 2048);
    assert_eq!(full.free_space_tokens, 0);
}

#[test]
fn context_limits() {
    assert_eq!(ContextTracker::parse_context_window("32k"), 32768);
    assert_eq!(ContextTracker::parse_context_window("8K"), 8192);
    assert_eq!(ContextTracker::parse_context_window("4096"), 4096);
    assert_eq!(ContextTracker::parse_context_window("large"), 0);
    assert_eq!(ContextTracker::parse_context_window(""), 0);
    assert_eq!(ContextTracker::native_context_limit(4096, Some(1000), 9, 9), 4096);
    assert_eq!(ContextTracker::native_context_limit(0, Some(1000), 9, 9), 1000);
    assert_eq!(ContextTracker::native_context_limit(0, None, 9, 7), 9);
    assert_eq!(ContextTracker::native_context_limit(0, None, 0, 7), 7);
    assert_eq!(ContextTracker::usable_context_limit(Some(1000), 0, 0, 0), 2048);
    assert_eq!(ContextTracker::usable_context_limit(Some(16384), 0, 0, 0), 16384);
    assert_eq!(ContextTracker::usable_context_limit(None, 0, 32768, 8192), 8192);
    assert_eq!(ContextTracker::usable_context_limit(None, 0, 4096, 8192), 4096);
    assert_eq!(ContextTracker::usable_context_limit(None, 6000, 4096, 8192), 6000);
}

#[test]
fn model_selection_for_telemetry() {
    let ids = vec!["Qwen2.5-7B".to_string(), "llama-3:8b".to_string()];
    assert_eq!(ContextTracker::select_model_index(&ids, "llama-3:8b", None), Some(1));
    assert_eq!(ContextTracker::select_model_index(&ids, " LLAMA_3 ", None), Some(1));
    assert_eq!(ContextTracker::select_model_index(&ids, "mistral", Some("qwen2.5-7b")), Some(0));
    assert_eq!(ContextTracker::select_model_index(&ids, "mistral", None), Some(0));
    assert_eq!(ContextTracker::select_model_index(&vec![], "mistral", None), None);
}

#[test]
fn counts_fit_checks_machine_limits() {
    let reg = registry();
    let active = vec!["writer".to_string()];
    assert!(ContextTracker::counts_fit(&reg, &active, 400, 800, 2, 50, 4096));
    assert!(!ContextTracker::counts_fit(&reg, &active, 400, 800, 2, usize::MAX, 4096));
    assert!(ContextTracker::counts_fit(&reg, &active, 400, 800, 2, 0, usize::MAX));
    assert!(!ContextTracker::counts_fit(&reg, &active, 400, 800, 2, usize::MAX / 4, usize::MAX));
    assert!(ContextTracker::counts_fit(&ToolsRegistry::new(), &vec![], 0, 0, 0, 0, 2048));
}

#[test]
fn context_window_limit_reads_sizes() {
    assert_eq!(ContextTracker::context_window_limit("32k"), Some(32768));
    assert_eq!(ContextTracker::context_window_limit("8192"), Some(8192));
    assert_eq!(ContextTracker::context_window_limit("big"), Some(0));
    assert_eq!(ContextTracker::context_window_limit(&format!("{}k", usize::MAX)), None);
}
