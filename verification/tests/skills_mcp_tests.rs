use cluaiz_engines::json::Json;
use cluaiz_engines::tools::mcp::client::{McpClient, McpToolCache};
use cluaiz_engines::tools::mcp::manifest::McpManifestParser;
use cluaiz_engines::tools::registry::index::ToolsRegistry;
use cluaiz_engines::tools::registry::types::ToolEntry;
use cluaiz_engines::tools::skills::parser::{ParsedSkill, SkillMetadata, SkillParser};
use cluaiz_engines::tools::skills::router::SkillRouter;

fn s(x: &str) -> Json {
    Json::Str(x.to_string())
}

fn obj(members: Vec<(&str, Json)>) -> Json {
    Json::Object(members.into_iter().map(|(k, v)| (k.to_string(), v)).collect())
}

fn text(j: &Json) -> Option<&str> {
    match j {
        Json::Str(t) => Some(t.as_str()),
        _ => None,
    }
}

fn member<'a>(j: &'a Json, k: &str) -> Option<&'a Json> {
    match j {
        Json::Object(m) => m.iter().find(|(n, _)| n == k).map(|(_, v)| v),
        _ => None,
    }
}

#[test]
fn frontmatter_is_split_from_the_instructions() {
    let content = "intro\r\n---\r\nname: writer\r\n---\r\n\r\n  Write well.  \r\n";
    assert_eq!(
        SkillParser::split_frontmatter(content),
        Some(("name: writer".to_string(), "Write well.".to_string()))
    );
    assert_eq!(SkillParser::split_frontmatter("no block here"), None);
    assert_eq!(SkillParser::split_frontmatter("---\nname: x"), None);
}

#[test]
fn metadata_from_frontmatter() {
    let v = obj(vec![
        ("name", s("writer")),
        ("latest_version", s("1.2.0")),
        ("description", s("Writes")),
        ("discovery", obj(vec![("semantic", Json::Array(vec![s("essay"), Json::UInt(3), s("draft")]))])),
        ("permissions", Json::Array(vec![s("fs:read")])),
        ("allowed_tools", Json::Array(vec![s("search")])),
    ]);
    let m = SkillParser::metadata_from_value(Some(&v));
    assert_eq!(m.name, "writer");
    assert_eq!(m.version, "1.2.0");
    assert_eq!(m.description, "Writes");
    assert_eq!(m.triggers, vec!["essay".to_string(), "draft".to_string()]);
    assert_eq!(m.permissions, vec!["fs:read".to_string()]);
    assert_eq!(m.allowed_tools, vec!["search".to_string()]);
    let listed = obj(vec![("triggers", Json::Array(vec![s("poem")])), ("version", s("2"))]);
    let l = SkillParser::metadata_from_value(Some(&listed));
    assert_eq!(l.triggers, vec!["poem".to_string()]);
    assert_eq!(l.version, "2");
    assert_eq!(l.name, "");
    let none = SkillParser::metadata_from_value(None);
    assert!(none.triggers.is_empty() && none.name.is_empty());
}

#[test]
fn skill_content_parsing() {
    let p = SkillParser::parse_content("---\nname: writer\n---\nBody text\n").unwrap();
    assert_eq!(p.metadata.name, "writer");
    assert_eq!(p.prompt_instructions, "Body text");
    let bad = SkillParser::parse_content("---\nname: [unclosed\n---\nBody\n").unwrap();
    assert_eq!(bad.metadata.name, "");
    assert_eq!(bad.prompt_instructions, "Body");
    let plain = SkillParser::parse_content("  Just text \n").unwrap();
    assert_eq!(plain.prompt_instructions, "Just text");
}

fn skill_entry(id: &str, triggers: &[&str], enabled: bool) -> (String, ToolEntry) {
    let mut e = ToolEntry::default();
    e.id = id.to_string();
    e.category = "skill".to_string();
    e.enabled = enabled;
    e.semantic_triggers = triggers.iter().map(|t| t.to_string()).collect();
    (id.to_string(), e)
}

fn parsed(instructions: &str, allowed: &[&str]) -> ParsedSkill {
    let mut m = SkillMetadata::default();
    m.allowed_tools = allowed.iter().map(|t| t.to_string()).collect();
    ParsedSkill { metadata: m, prompt_instructions: instructions.to_string() }
}

#[test]
fn router_matches_triggers_of_enabled_skills() {
    let mut reg = ToolsRegistry::new();
    reg.installed_tools.push(skill_entry("writer", &[" Essay ", "poem"], true));
    reg.installed_tools.push(skill_entry("coder", &["rust", "  "], true));
    reg.installed_tools.push(skill_entry("off", &["essay"], false));
    let mut router = SkillRouter::new();
    router.rebuild_index(
        &reg,
        vec![
            ("writer".to_string(), parsed("Write well.", &[])),
            ("off".to_string(), parsed("Never.", &[])),
            ("coder".to_string(), parsed("Code.", &["cargo"])),
        ],
    );
    assert_eq!(router.match_query("An ESSAY and a poem about Rust"), vec!["writer".to_string(), "coder".to_string()]);
    assert_eq!(router.match_query("nothing here"), Vec::<String>::new());
    assert_eq!(router.get_instructions("writer"), Some("Write well."));
    assert_eq!(router.get_instructions("off"), None);
    assert_eq!(router.get_allowed_tools("coder"), Some(&vec!["cargo".to_string()]));
    assert_eq!(router.get_allowed_tools("writer"), None);
}

#[test]
fn mcp_manifest_parsing() {
    let v = obj(vec![
        ("name", s("fs-server")),
        ("description", s("Files")),
        ("versions", obj(vec![("1.0.0", obj(vec![("command", s("node")), ("args", Json::Array(vec![s("index.js")]))]))])),
        ("execution", obj(vec![("env", obj(vec![("A", s("1")), ("B", Json::UInt(2))]))])),
    ]);
    let m = McpManifestParser::parse_manifest(&v);
    assert_eq!(m.name, "fs-server");
    assert_eq!(m.description, "Files");
    assert_eq!(m.version, "");
    let e = m.execution.as_ref().unwrap();
    assert_eq!(e.command, "node");
    assert_eq!(e.args, vec!["index.js".to_string()]);
    assert_eq!(e.env, vec![("A".to_string(), "1".to_string())]);
    assert_eq!(McpClient::execution_check(&m, "/m/fs"), Ok(()));
    let named = McpManifestParser::parse_manifest(&obj(vec![("id", s("x")), ("name", s("y")), ("command", s("  "))]));
    assert_eq!(named.name, "x");
    assert_eq!(
        McpClient::execution_check(&named, "/m/x"),
        Err("MCP execution command is empty for \"/m/x\"".to_string())
    );
}

#[test]
fn mcp_messages_and_replies() {
    let init = McpClient::initialize_request(true);
    assert_eq!(text(member(&init, "method").unwrap()), Some("initialize"));
    let caps = member(member(&init, "params").unwrap(), "capabilities").unwrap();
    assert!(member(caps, "sampling").is_some());
    assert!(member(member(&McpClient::initialize_request(false), "params").unwrap(), "capabilities")
        .map(|c| member(c, "sampling").is_none())
        .unwrap());
    let call = McpClient::call_request("read", obj(vec![("path", s("/a"))]));
    assert!(matches!(member(&call, "id"), Some(Json::UInt(2))));
    assert_eq!(text(member(member(&call, "params").unwrap(), "name").unwrap()), Some("read"));
    assert_eq!(text(member(&McpClient::list_request(), "method").unwrap()), Some("tools/list"));
    assert_eq!(text(member(&McpClient::initialized_notification(), "method").unwrap()), Some("notifications/initialized"));

    assert!(McpClient::is_reply_to(&obj(vec![("id", Json::UInt(2))]), 2));
    assert!(!McpClient::is_reply_to(&obj(vec![("id", s("2"))]), 2));
    let listed = obj(vec![("result", obj(vec![("tools", Json::Array(vec![s("t1"), s("t2")]))]))]);
    assert_eq!(McpClient::tools_from_list_reply(&listed).len(), 2);
    assert!(McpClient::tools_from_list_reply(&obj(vec![])).is_empty());

    let one_shot = obj(vec![(
        "result",
        obj(vec![("content", Json::Array(vec![obj(vec![("text", s("a"))]), obj(vec![("text", s("b"))])]))]),
    )]);
    let r = McpClient::one_shot_result(&one_shot).unwrap();
    assert_eq!(text(&r), Some("a\nb"));
    assert!(McpClient::one_shot_result(&obj(vec![("result", obj(vec![("protocolVersion", s("x"))]))])).is_none());

    let err = McpClient::call_outcome(&obj(vec![("error", s("boom")), ("result", s("x"))]));
    assert_eq!(err.err().as_ref().and_then(text), Some("boom"));
    let ok = McpClient::call_outcome(&obj(vec![("result", s("fine"))]));
    assert_eq!(ok.ok().as_ref().and_then(text), Some("fine"));
}

#[test]
fn mcp_tool_cache() {
    let mut cache = McpToolCache::new();
    assert!(cache.get("/m/fs").is_none());
    let manifest = obj(vec![("tools", Json::Array(vec![s("static")]))]);
    let st = McpClient::get_cached_tools(&cache, "/m/fs", Some(&manifest)).unwrap();
    assert_eq!(st.len(), 1);
    cache.insert("/m/fs".to_string(), vec![s("a"), s("b")]);
    assert_eq!(McpClient::get_cached_tools(&cache, "/m/fs", Some(&manifest)).unwrap().len(), 2);
    assert!(McpClient::get_cached_tools(&cache, "/m/other", Some(&obj(vec![("tools", Json::Array(vec![]))]))).is_none());
    cache.clear_tool_cache();
    assert!(cache.get("/m/fs").is_none());
    assert!(McpClient::static_tools(None).is_none());
}

#[test]
fn test_official_community_agent_skill_format() {
    let skill_md_content = "---
name: community-security-audit
version: 2.1.0
description: Official community agent skill for detecting SQL injections and buffer overflows
triggers:
  keywords: [\"audit security\", \"check vulnerability\", \"code review\"]
execution_mode: auto
default_turns: 3
---

# Enterprise Security Audit Workflow
1. Disallow raw string concatenation in SQL queries.
2. Verify all unbounded memory buffers are bounded.
3. Validate JSON schemas before passing to FFI.
";
    let parsed = SkillParser::parse_content(skill_md_content)
        .expect("SkillParser must parse official open-source SKILL.md format");

    assert_eq!(parsed.metadata.name, "community-security-audit");
    assert_eq!(parsed.metadata.version, "2.1.0");
    assert!(parsed.prompt_instructions.contains("Enterprise Security Audit Workflow"));
    assert!(parsed.prompt_instructions.contains("Disallow raw string concatenation"));
}
