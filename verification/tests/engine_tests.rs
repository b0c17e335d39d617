use cluaiz_engines::json::Json;
use cluaiz_engines::tools::engine::ToolsEngine;
use cluaiz_engines::tools::prompt_compiler::{ToolDirs, ToolWorkspace};
use cluaiz_engines::tools::registry::index::ToolsRegistry;
use cluaiz_engines::tools::registry::types::ToolEntry;

fn workspace(existing: &[&str]) -> ToolWorkspace {
    ToolWorkspace {
        dirs: ToolDirs {
            skills_dir: "/h/.cluaiz/tools/skills".to_string(),
            plugins_dir: "/h/.cluaiz/tools/plugins".to_string(),
            mcp_dir: "/h/.cluaiz/tools/mcp".to_string(),
            global_dir: "/h/.cluaiz".to_string(),
        },
        existing_paths: existing.iter().map(|s| s.to_string()).collect(),
        cached_mcp_tools: Vec::new(),
        manifest_functions: Vec::new(),
        mcp_server_dirs: Vec::new(),
    }
}

#[test]
fn tool_response_wraps_json_content() {
    let r = ToolsEngine::format_tool_response("calc", "{\"sum\":3}");
    assert_eq!(r, "<tool_response>\n{\"name\": \"calc\", \"content\": {\"sum\":3}}\n</tool_response>");
}

#[test]
fn raw_tool_response_keeps_json_output() {
    let r = ToolsEngine::format_tool_response_raw("calc", "{\"values\": [1, 2,  3]}");
    assert_eq!(r, "<tool_response>\n{\"name\": \"calc\", \"content\": {\"values\":[1,2,3]}}\n</tool_response>");
}

#[test]
fn raw_tool_response_wraps_plain_text() {
    let r = ToolsEngine::format_tool_response_raw("echo", "say \"hi\"\\\n\tdone");
    assert_eq!(
        r,
        "<tool_response>\n{\"name\": \"echo\", \"content\": {\"output\":\"say \\\"hi\\\"\\\\\\n\\tdone\"}}\n</tool_response>"
    );
}

#[test]
fn raw_tool_response_escapes_control_characters() {
    let r = ToolsEngine::raw_response_content(None, "a\u{1}b\u{8}\u{c}\r");
    assert_eq!(r, "{\"output\":\"a\\u0001b\\b\\f\\r\"}");
    let kept = ToolsEngine::raw_response_content(Some("[true]".to_string()), "ignored");
    assert_eq!(kept, "[true]");
}

#[test]
fn terminal_requests_are_recognised() {
    assert!(ToolsEngine::is_terminal_request("terminal", "x", None));
    assert!(ToolsEngine::is_terminal_request("plugin", "bash", None));
    assert!(ToolsEngine::is_terminal_request("mcp", "shell", Some("run_command")));
    assert!(!ToolsEngine::is_terminal_request("mcp", "shell", Some("ls")));
    assert!(!ToolsEngine::is_terminal_request("skill", "writer", None));
}

#[test]
fn terminal_request_reads_fields_or_whole_payload() {
    let plain = ToolsEngine::terminal_request("ls -la", None);
    assert_eq!(plain.command, "ls -la");
    assert_eq!(plain.cwd, None);
    let parsed = Json::Object(vec![
        ("cmd".to_string(), Json::Str("echo hi".to_string())),
        ("cwd".to_string(), Json::Str("/tmp".to_string())),
        ("input".to_string(), Json::Str("data".to_string())),
        ("timeout".to_string(), Json::UInt(30)),
    ]);
    let r = ToolsEngine::terminal_request("{...}", Some(&parsed));
    assert_eq!(r.command, "echo hi");
    assert_eq!(r.cwd, Some("/tmp".to_string()));
    assert_eq!(r.stdin, Some("data".to_string()));
    assert_eq!(r.timeout_secs, Some(30));
    let no_command = Json::Object(vec![("timeout".to_string(), Json::Str("30".to_string()))]);
    let r2 = ToolsEngine::terminal_request("raw", Some(&no_command));
    assert_eq!(r2.command, "raw");
    assert_eq!(r2.timeout_secs, None);
}

#[test]
fn skill_and_mcp_messages() {
    assert_eq!(ToolsEngine::skill_ready_message("writer"), "Skill 'writer' active. Ready for workflow execution.");
    assert_eq!(ToolsEngine::mcp_target_tool("fs", Some("read_file")), "read_file");
    assert_eq!(ToolsEngine::mcp_target_tool("fs", None), "fs");
}

#[test]
fn plugin_dir_falls_back_to_global_then_registry() {
    let ws = workspace(&["/h/.cluaiz/tools/plugins/calc"]);
    assert_eq!(ToolsEngine::resolve_plugin_dir(&ws, None, "calc"), Ok("/h/.cluaiz/tools/plugins/calc".to_string()));
    let ws2 = workspace(&["/h/.cluaiz/plugins/calc"]);
    assert_eq!(ToolsEngine::resolve_plugin_dir(&ws2, None, "calc"), Ok("/h/.cluaiz/plugins/calc".to_string()));
    let mut reg = ToolsRegistry::new();
    let mut e = ToolEntry::default();
    e.id = "calc".to_string();
    e.local_dir = "/opt/calc".to_string();
    reg.installed_tools.push(("calc".to_string(), e));
    let ws3 = workspace(&["/opt/calc"]);
    assert_eq!(ToolsEngine::resolve_plugin_dir(&ws3, Some(&reg), "calc"), Ok("/opt/calc".to_string()));
    let missing = ToolsEngine::resolve_plugin_dir(&workspace(&[]), Some(&reg), "calc");
    assert_eq!(missing, Err("Plugin 'calc' not found in \"/h/.cluaiz/tools/plugins/calc\"".to_string()));
}

#[test]
fn mcp_list_dir_ignores_the_registry() {
    let ws = workspace(&["/h/.cluaiz/mcp/fs"]);
    assert_eq!(ToolsEngine::resolve_mcp_list_dir(&ws, "fs"), Ok("/h/.cluaiz/mcp/fs".to_string()));
    let err = ToolsEngine::resolve_mcp_list_dir(&workspace(&[]), "fs");
    assert_eq!(err, Err("MCP server 'fs' not found in \"/h/.cluaiz/tools/mcp/fs\"".to_string()));
}

#[test]
fn engine_registry_edits() {
    let mut reg = ToolsRegistry::new();
    let mut e = ToolEntry::default();
    e.id = "a".to_string();
    e.enabled = true;
    reg.installed_tools.push(("a".to_string(), e));
    assert!(ToolsEngine::set_tool_enabled(&mut reg, "a", false));
    assert!(!ToolsEngine::get_tool(&reg, "a").unwrap().enabled);
    assert!(!ToolsEngine::set_tool_enabled(&mut reg, "b", false));
    assert!(ToolsEngine::get_tool(&reg, "b").is_none());
    assert_eq!(ToolsEngine::list_all_tools(&reg).len(), 1);
}
