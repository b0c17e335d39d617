use cluaiz_engines::tools::registry::index::ToolsRegistry;
use cluaiz_engines::tools::registry::types::{ExecutionMode, SecurityMode, ToolEntry};

#[test]
fn test_execution_mode_parsing() {
    assert_eq!(ExecutionMode::from_raw("auto"), Some(ExecutionMode::Auto));
    assert_eq!(ExecutionMode::from_raw("manual"), Some(ExecutionMode::Manual));
    assert_eq!(ExecutionMode::from_raw("confirm_destructive"), Some(ExecutionMode::ConfirmDestructive));
    assert_eq!(ExecutionMode::from_raw("confirm-destructive"), Some(ExecutionMode::ConfirmDestructive));
    assert_eq!(ExecutionMode::from_raw("invalid"), None);
}

#[test]
fn test_security_mode_parsing() {
    assert_eq!(SecurityMode::from_raw("sandboxed"), Some(SecurityMode::Sandboxed));
    assert_eq!(SecurityMode::from_raw("workspace_write"), Some(SecurityMode::WorkspaceWrite));
    assert_eq!(SecurityMode::from_raw("workspace-write"), Some(SecurityMode::WorkspaceWrite));
    assert_eq!(SecurityMode::from_raw("strict"), Some(SecurityMode::Strict));
    assert_eq!(SecurityMode::from_raw("full_access"), Some(SecurityMode::FullAccess));
    assert_eq!(SecurityMode::from_raw("full-access"), Some(SecurityMode::FullAccess));
    assert_eq!(SecurityMode::from_raw("unknown"), None);
}

#[test]
fn mode_names_round_trip() {
    for m in [ExecutionMode::Auto, ExecutionMode::Manual, ExecutionMode::ConfirmDestructive] {
        assert_eq!(ExecutionMode::from_raw(m.as_str()), Some(m));
    }
    for m in [SecurityMode::Sandboxed, SecurityMode::FullAccess, SecurityMode::WorkspaceWrite, SecurityMode::Strict] {
        assert_eq!(SecurityMode::from_raw(m.as_str()), Some(m));
    }
    assert_eq!(ExecutionMode::from_raw("  AUTO "), Some(ExecutionMode::Auto));
}

fn entry(id: &str, category: &str) -> ToolEntry {
    let mut e = ToolEntry::default();
    e.id = id.to_string();
    e.name = id.to_string();
    e.category = category.to_string();
    e.enabled = true;
    e
}

#[test]
fn registry_setters_touch_only_their_tool() {
    let mut reg = ToolsRegistry::new();
    reg.installed_tools.push(("a".to_string(), entry("a", "skill")));
    reg.installed_tools.push(("b".to_string(), entry("b", "plugin")));
    assert!(reg.set_tool_enabled("a", false));
    assert!(!reg.get_tool("a").unwrap().enabled);
    assert!(reg.get_tool("b").unwrap().enabled);
    assert!(reg.set_tool_execution_mode("b", ExecutionMode::Manual));
    assert_eq!(reg.get_tool("b").unwrap().execution_mode, ExecutionMode::Manual);
    assert!(reg.set_tool_default_turns("b", 7));
    assert_eq!(reg.get_tool("b").unwrap().default_turns, 7);
    assert!(reg.set_tool_security_mode("b", SecurityMode::Strict));
    assert_eq!(reg.get_tool("b").unwrap().security_mode, SecurityMode::Strict);
    assert!(!reg.set_tool_enabled("missing", true));
    assert_eq!(reg.list_tools().len(), 2);
}

use cluaiz_engines::tools::registry::sync::{FoundTool, ToolProbe, ToolScan};

fn probe(name: &str, binary: Option<&str>) -> ToolProbe {
    ToolProbe {
        name: name.to_string(),
        version: String::new(),
        description: String::new(),
        binary_path: binary.map(|b| b.to_string()),
        triggers: vec!["t".to_string()],
        permissions: vec!["network".to_string()],
        security_mode: None,
        execution_mode: ExecutionMode::Auto,
        default_turns: -1,
    }
}

fn found(id: &str, path: &str, p: ToolProbe) -> FoundTool {
    FoundTool { id: id.to_string(), path: path.to_string(), probe: p }
}

#[test]
fn sync_registers_found_folders_and_purges_missing_ones() {
    let mut reg = ToolsRegistry::new();
    let mut kept = entry("kept", "skill");
    kept.local_dir = "/t/skills/kept".to_string();
    kept.description = "keeps".to_string();
    let mut gone = entry("gone", "plugin");
    gone.local_dir = "/t/plugins/gone".to_string();
    reg.installed_tools.push(("kept".to_string(), kept));
    reg.installed_tools.push(("gone".to_string(), gone));
    let scan = ToolScan {
        existing_paths: vec!["/t/skills/kept".to_string(), "/t/skills/new".to_string(), "/t/plugins/calc".to_string()],
        skills: vec![found("kept", "/t/skills/kept", probe("Kept v2", None)), found("new", "/t/skills/new", probe("", None))],
        plugins: vec![found("calc", "/t/plugins/calc", probe("Calc", Some("/t/plugins/calc/calc.so")))],
        mcps: vec![],
    };
    assert!(reg.sync_with_filesystem(&scan));
    assert!(reg.get_tool("gone").is_none());
    let k = reg.get_tool("kept").unwrap();
    assert_eq!(k.name, "Kept v2");
    assert_eq!(k.description, "keeps");
    assert_eq!(k.local_dir, "/t/skills/kept");
    let n = reg.get_tool("new").unwrap();
    assert_eq!(n.name, "new");
    assert_eq!(n.category, "skill");
    assert!(n.enabled);
    assert!(n.permissions.is_empty());
    let c = reg.get_tool("calc").unwrap();
    assert_eq!(c.category, "plugin");
    assert_eq!(c.security_mode, SecurityMode::FullAccess);
    assert_eq!(c.binary_path, Some("/t/plugins/calc/calc.so".to_string()));
    assert_eq!(c.activation_events, vec!["on_command:use plugin::calc".to_string()]);
    assert_eq!(reg.list_tools().len(), 3);
    // A second sync with the same scan finds nothing to change.
    assert!(!reg.sync_with_filesystem(&scan));
    assert_eq!(reg.list_tools().len(), 3);
}

use cluaiz_engines::json::Json;
use cluaiz_engines::tools::prompt_compiler::ToolDirs;
use cluaiz_engines::tools::registry::sync::{find_last_dot_ext, is_plugin_binary_path};

fn js(x: &str) -> Json {
    Json::Str(x.to_string())
}

fn jobj(members: Vec<(&str, Json)>) -> Json {
    Json::Object(members.into_iter().map(|(k, v)| (k.to_string(), v)).collect())
}

#[test]
fn skill_frontmatter_probe() {
    assert_eq!(
        ToolsRegistry::frontmatter_text("---\nname: a\n---\nbody"),
        Some("name: a".to_string())
    );
    assert_eq!(ToolsRegistry::frontmatter_text("intro\r\n---\r\nname: b\r\n---\r\n"), Some("name: b".to_string()));
    assert_eq!(ToolsRegistry::frontmatter_text("no frontmatter"), None);
    let y = jobj(vec![
        ("name", js("Writer")),
        ("version", js("2.0")),
        ("triggers", Json::Array(vec![js("essay")])),
        ("security_mode", js("Workspace-Write")),
        ("execution_mode", js("manual")),
        ("default_turns", Json::UInt(5)),
    ]);
    let p = ToolsRegistry::probe_skill_yaml(Some(&y));
    assert_eq!(p.name, "Writer");
    assert_eq!(p.version, "2.0");
    assert_eq!(p.triggers, vec!["essay".to_string()]);
    assert_eq!(p.security_mode, Some(SecurityMode::WorkspaceWrite));
    assert_eq!(p.execution_mode, ExecutionMode::Manual);
    assert_eq!(p.default_turns, 5);
    let none = ToolsRegistry::probe_skill_yaml(None);
    assert_eq!(none.default_turns, -1);
    assert_eq!(none.execution_mode, ExecutionMode::Auto);
    assert_eq!(none.security_mode, None);
    let text = ToolsRegistry::probe_skill_frontmatter(
        "---\r\nname: Writer\r\nversion: \"2.0\"\r\ntriggers: [essay]\r\nexecution_mode: manual\r\ndefault_turns: 5\r\n---\r\nBody",
    );
    assert_eq!(text.name, "Writer");
    assert_eq!(text.version, "2.0");
    assert_eq!(text.triggers, vec!["essay".to_string()]);
    assert_eq!(text.execution_mode, ExecutionMode::Manual);
    assert_eq!(text.default_turns, 5);
    let unread = ToolsRegistry::probe_skill_frontmatter("---\nname: [open\n---\nBody");
    assert_eq!(unread.name, "");
    assert_eq!(unread.default_turns, -1);
    assert_eq!(ToolsRegistry::probe_skill_frontmatter("no block").name, "");
}

#[test]
fn plugin_and_mcp_probes() {
    let m = jobj(vec![
        ("id", js("calc")),
        ("name", js("Calculator")),
        ("version", js("1.0")),
        ("latest_version", js("1.1")),
        ("discovery", jobj(vec![("semantic_triggers", Json::Array(vec![js("math")]))])),
        ("permissions", jobj(vec![("network_access", Json::Bool(true)), ("file_system", js("read"))])),
    ]);
    let p = ToolsRegistry::probe_plugin_metadata(Some("/p/calc/calc.wasm".to_string()), Some(&m), None);
    assert_eq!(p.name, "calc");
    assert_eq!(p.version, "1.1");
    assert_eq!(p.triggers, vec!["math".to_string()]);
    assert_eq!(p.permissions, vec!["net:fetch".to_string(), "fs:access".to_string()]);
    assert_eq!(p.binary_path, Some("/p/calc/calc.wasm".to_string()));
    assert_eq!(p.default_turns, -1);
    let bare = ToolsRegistry::probe_plugin_metadata(None, None, None);
    assert_eq!(bare.name, "");
    assert_eq!(bare.binary_path, None);

    let mcp = jobj(vec![
        ("name", js("fs")),
        ("mcp", jobj(vec![("security_mode", js("strict"))])),
        ("permissions", jobj(vec![("network_access", Json::Bool(false)), ("file_system", js("write"))])),
    ]);
    let q = ToolsRegistry::probe_mcp_metadata(Some(&mcp));
    assert_eq!(q.name, "fs");
    assert_eq!(q.security_mode, Some(SecurityMode::Strict));
    assert_eq!(q.execution_mode, ExecutionMode::Manual);
    assert_eq!(q.default_turns, 3);
    assert!(q.permissions.is_empty());
    assert_eq!(ToolsRegistry::probe_mcp_metadata(None).default_turns, 3);

    let from_text = ToolsRegistry::probe_plugin_package(
        None,
        Some("{\"id\": \"calc\", \"version\": \"2.0\", \"triggers\": [\"math\"]}"),
        None,
    );
    assert_eq!(from_text.name, "calc");
    assert_eq!(from_text.version, "2.0");
    assert_eq!(from_text.triggers, vec!["math".to_string()]);
    assert_eq!(ToolsRegistry::probe_plugin_package(None, Some("{broken"), None).name, "");
    let mcp_text = ToolsRegistry::probe_mcp_package(Some("{\"name\": \"fs\", \"mcp\": {\"security_mode\": \"strict\"}}"));
    assert_eq!(mcp_text.name, "fs");
    assert_eq!(mcp_text.security_mode, Some(SecurityMode::Strict));
    assert_eq!(ToolsRegistry::probe_mcp_package(None).security_mode, None);
}

#[test]
fn plugin_binaries_by_extension() {
    assert!(is_plugin_binary_path("/p/calc/calc.wasm"));
    assert!(is_plugin_binary_path("/p/calc/lib.so"));
    assert!(!is_plugin_binary_path("/p/calc/notes.txt"));
    assert!(!is_plugin_binary_path("/p/calc/.so"));
    assert!(!is_plugin_binary_path("/p/calc/README"));
    assert_eq!(find_last_dot_ext("a.tar.gz"), Some("gz".to_string()));
    assert_eq!(find_last_dot_ext(".hidden"), None);
}

#[test]
fn legacy_registry_migration() {
    let dirs = ToolDirs {
        skills_dir: "/t/skills".to_string(),
        plugins_dir: "/t/plugins".to_string(),
        mcp_dir: "/t/mcp".to_string(),
        global_dir: "/t".to_string(),
    };
    let legacy = jobj(vec![
        ("plugins", jobj(vec![("calc", jobj(vec![("binary", js("calc.wasm")), ("enabled", Json::Bool(false))]))])),
        ("skills", jobj(vec![("writer", jobj(vec![("name", js("Writer")), ("version", js("2"))]))])),
        ("mcp", jobj(vec![("fs", jobj(vec![]))])),
    ]);
    let reg = ToolsRegistry::migrate_legacy(&legacy, &dirs);
    let calc = reg.get_tool("calc").unwrap();
    assert_eq!(calc.category, "plugin");
    assert_eq!(calc.local_dir, "/t/plugins/calc");
    assert_eq!(calc.binary_path, Some("calc.wasm".to_string()));
    assert!(!calc.enabled);
    assert_eq!(calc.security_mode, SecurityMode::FullAccess);
    assert_eq!(calc.version, "1.0.0");
    let w = reg.get_tool("writer").unwrap();
    assert_eq!(w.name, "Writer");
    assert!(w.enabled);
    assert_eq!(w.binary_path, None);
    let fs = reg.get_tool("fs").unwrap();
    assert_eq!(fs.security_mode, SecurityMode::Strict);
    assert_eq!(fs.execution_mode, ExecutionMode::Manual);
    assert_eq!(fs.default_turns, 3);
    assert_eq!(fs.name, "fs");
    let from_text = ToolsRegistry::migrate_legacy_yaml(
        "plugins:\n  calc:\n    binary: calc.wasm\n    enabled: false\nskills:\n  writer:\n    name: Writer\n",
        &dirs,
    )
    .unwrap();
    assert!(!from_text.get_tool("calc").unwrap().enabled);
    assert_eq!(from_text.get_tool("writer").unwrap().name, "Writer");
    assert!(ToolsRegistry::migrate_legacy_yaml("plugins: [unclosed", &dirs).is_none());
}

#[test]
fn sync_keeps_flags_of_kept_tools_and_enables_new_ones_in_first_category() {
    let mut reg = ToolsRegistry::new();
    let mut off = entry("off", "plugin");
    off.local_dir = "/t/skills/off".to_string();
    off.enabled = false;
    reg.installed_tools.push(("off".to_string(), off));
    let scan = ToolScan {
        existing_paths: vec!["/t/skills/off".to_string(), "/t/skills/both".to_string(), "/t/mcp/both".to_string()],
        skills: vec![found("off", "/t/skills/off", probe("", None)), found("both", "/t/skills/both", probe("", None))],
        plugins: vec![],
        mcps: vec![found("both", "/t/mcp/both", probe("", None))],
    };
    assert!(reg.sync_with_filesystem(&scan));
    let o = reg.get_tool("off").unwrap();
    assert!(!o.enabled);
    assert_eq!(o.category, "plugin");
    let b = reg.get_tool("both").unwrap();
    assert!(b.enabled);
    assert_eq!(b.category, "skill");
    assert_eq!(b.local_dir, "/t/mcp/both");
}
