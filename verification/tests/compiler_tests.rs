use cluaiz_engines::json::Json;
use cluaiz_engines::tools::prompt_compiler::{ToolDirs, ToolMaterials, ToolPromptCompiler, ToolWorkspace};
use cluaiz_engines::tools::registry::index::ToolsRegistry;
use cluaiz_engines::tools::registry::types::ToolEntry;
use cluaiz_engines::tools::skills::parser::{ParsedSkill, SkillMetadata};
use cluaiz_engines::tools::skills::router::SkillRouter;

fn s(x: &str) -> Json {
    Json::Str(x.to_string())
}

fn obj(members: Vec<(&str, Json)>) -> Json {
    Json::Object(members.into_iter().map(|(k, v)| (k.to_string(), v)).collect())
}

fn member<'a>(j: &'a Json, k: &str) -> Option<&'a Json> {
    match j {
        Json::Object(m) => m.iter().find(|(n, _)| n == k).map(|(_, v)| v),
        _ => None,
    }
}

fn text(j: Option<&Json>) -> Option<&str> {
    match j {
        Some(Json::Str(t)) => Some(t.as_str()),
        _ => None,
    }
}

fn fn_name(schema: &Json) -> Option<&str> {
    text(member(member(schema, "function")?, "name"))
}

fn fn_desc(schema: &Json) -> Option<&str> {
    text(member(member(schema, "function")?, "description"))
}

fn workspace(existing: &[&str]) -> ToolWorkspace {
    ToolWorkspace {
        dirs: ToolDirs {
            skills_dir: "/t/skills".to_string(),
            plugins_dir: "/t/plugins".to_string(),
            mcp_dir: "/t/mcp".to_string(),
            global_dir: "/t".to_string(),
        },
        existing_paths: existing.iter().map(|p| p.to_string()).collect(),
        cached_mcp_tools: Vec::new(),
        manifest_functions: Vec::new(),
        mcp_server_dirs: Vec::new(),
    }
}

fn entry(id: &str, category: &str, dir: &str) -> (String, ToolEntry) {
    let mut e = ToolEntry::default();
    e.id = id.to_string();
    e.name = id.to_string();
    e.category = category.to_string();
    e.local_dir = dir.to_string();
    e.enabled = true;
    (id.to_string(), e)
}

#[test]
fn plugin_schemas_from_manifest_or_synthesised() {
    let manifest = obj(vec![(
        "tools",
        Json::Array(vec![obj(vec![("name", s("lookup")), ("inputSchema", obj(vec![("type", s("object"))]))])]),
    )]);
    let listed = ToolPromptCompiler::plugin_schemas_from_manifest(Some(&manifest), "dict", "Dictionary", "Finds words");
    assert_eq!(listed.len(), 1);
    assert_eq!(fn_name(&listed[0]), Some("lookup"));
    assert_eq!(fn_desc(&listed[0]), Some("Finds words"));
    let synth = ToolPromptCompiler::extract_plugin_schemas(None, "calc_pro", "", "");
    assert_eq!(synth.len(), 1);
    assert_eq!(fn_name(&synth[0]), Some("calc_pro"));
    assert_eq!(fn_desc(&synth[0]), Some("Execute calc_pro tool operation"));
    let params = member(member(&synth[0], "function").unwrap(), "parameters").unwrap();
    assert!(member(member(params, "properties").unwrap(), "expression").is_some());
    let named = ToolPromptCompiler::extract_plugin_schemas(None, "web_search", "Web", "");
    assert_eq!(fn_desc(&named[0]), Some("Execute Web plugin operation"));
    let p2 = member(member(&named[0], "function").unwrap(), "parameters").unwrap();
    assert!(member(member(p2, "properties").unwrap(), "query").is_some());
}

#[test]
fn mcp_schemas_from_discovery_manifest_or_bridge() {
    let live = vec![obj(vec![("name", s("read_file"))]), obj(vec![("description", s("no name"))])];
    let manifest = obj(vec![("tools", Json::Array(vec![obj(vec![("name", s("static_tool"))])]))]);
    let a = ToolPromptCompiler::mcp_schemas_from_manifest(Some(&live), Some(&manifest), "fs", "FS", "Files");
    assert_eq!(a.len(), 1);
    assert_eq!(fn_name(&a[0]), Some("read_file"));
    assert_eq!(fn_desc(&a[0]), Some("Files"));
    let b = ToolPromptCompiler::mcp_schemas_from_manifest(None, Some(&manifest), "fs", "FS", "Files");
    assert_eq!(fn_name(&b[0]), Some("static_tool"));
    let c = ToolPromptCompiler::extract_mcp_schemas(Some(&vec![]), None, "fs", "FS", "");
    assert_eq!(c.len(), 1);
    assert_eq!(fn_name(&c[0]), Some("fs"));
    assert_eq!(fn_desc(&c[0]), Some("Model Context Protocol tool bridge for FS"));
}

#[test]
fn filesystem_tools_by_folder() {
    let ws = workspace(&["/t/plugins/calc"]);
    assert_eq!(
        ToolPromptCompiler::resolve_filesystem_tool(&ws, "calc"),
        ("plugin".to_string(), "/t/plugins/calc".to_string(), "calc".to_string(), String::new())
    );
}

#[test]
fn compiling_tools_for_a_prompt() {
    let mut reg = ToolsRegistry::new();
    reg.installed_tools.push(entry("writer", "skill", "/t/skills/writer"));
    reg.installed_tools.push(entry("calc", "plugin", "/t/plugins/calc"));
    reg.installed_tools.push(entry("fs", "mcp", "/t/mcp/fs"));
    let mut router = SkillRouter::new();
    let mut meta = SkillMetadata::default();
    meta.allowed_tools = vec![" Evaluate ".to_string()];
    router.rebuild_index(
        &reg,
        vec![("writer".to_string(), ParsedSkill { metadata: meta, prompt_instructions: "Write.".to_string() })],
    );
    let materials = ToolMaterials {
        skill_docs: Vec::new(),
        manifests: vec![(
            "/t/plugins/calc/package.json".to_string(),
            "{\"functions\": [{\"name\": \"evaluate\", \"description\": \"Eval\"}, {\"name\": \"other\"}]}".to_string(),
        )],
        mcp_tools: vec![("/t/mcp/fs".to_string(), vec![obj(vec![("name", s("read_file"))])])],
    };
    let ws = workspace(&["/t/plugins/calc/package.json"]);
    let ids = vec!["writer".to_string(), "calc".to_string(), "fs".to_string(), "  ".to_string()];
    let sel = ToolPromptCompiler::select_tools(&ids, Some(&reg), &ws, &router, &materials);
    assert_eq!(sel.skill_instructions, "Write.");
    assert_eq!(sel.active_tool_ids, vec!["writer".to_string(), "calc".to_string(), "fs".to_string()]);
    assert_eq!(sel.schemas.len(), 1);
    assert_eq!(fn_name(&sel.schemas[0]), Some("evaluate"));
    assert_eq!(fn_desc(&sel.schemas[0]), Some("Eval"));

    let pretty = serde_json::to_string_pretty(&serde_json::Value::Array(sel.schemas.iter().map(to_serde).collect())).unwrap();
    let out = ToolPromptCompiler::assemble(sel);
    assert_eq!(out.tools_xml, format!("<tools>\n{}\n</tools>", pretty));
    assert!(out.tools_xml.contains("\"evaluate\""));
    assert_eq!(out.skill_instructions, "Write.");
    assert_eq!(out.estimated_tokens, (out.tools_xml.len() + 6 + 3) / 4);

    let no_skill = ToolPromptCompiler::select_tools(&vec!["calc".to_string()], Some(&reg), &ws, &router, &materials);
    assert_eq!(no_skill.schemas.len(), 2);
    assert_eq!(no_skill.skill_instructions, "");
    let empty = ToolPromptCompiler::compile_tools(&vec![], Some(&reg), &ws, &router, &materials);
    assert_eq!(empty.tools_xml, "");
    assert_eq!(empty.estimated_tokens, 0);
}

#[test]
fn test_empty_tools_compilation() {
    let reg = ToolsRegistry::new();
    let router = SkillRouter::new();
    let materials = ToolMaterials { skill_docs: Vec::new(), manifests: Vec::new(), mcp_tools: Vec::new() };
    let compiled = ToolPromptCompiler::compile_tools(&vec![], Some(&reg), &workspace(&[]), &router, &materials);
    assert_eq!(compiled.tools_xml, "");
    assert_eq!(compiled.skill_instructions, "");
    assert_eq!(compiled.estimated_tokens, 0);
}

#[test]
fn test_plugin_schema_synthesis() {
    let pkg_json = obj(vec![
        ("name", s("math")),
        (
            "functions",
            Json::Array(vec![obj(vec![
                ("name", s("math_calculate")),
                ("description", s("Calculates math expression")),
                (
                    "parameters",
                    obj(vec![
                        ("type", s("object")),
                        ("properties", obj(vec![("expression", obj(vec![("type", s("string"))]))])),
                        ("required", Json::Array(vec![s("expression")])),
                    ]),
                ),
            ])]),
        ),
    ]);
    let schemas = ToolPromptCompiler::plugin_schemas_from_manifest(Some(&pkg_json), "math", "Math Evaluator", "Math description");
    assert_eq!(schemas.len(), 1);
    assert_eq!(fn_name(&schemas[0]), Some("math_calculate"));
}

fn to_serde(v: &Json) -> serde_json::Value {
    match v {
        Json::Null => serde_json::Value::Null,
        Json::Bool(b) => serde_json::Value::Bool(*b),
        Json::UInt(u) => serde_json::Value::from(*u),
        Json::Int(i) => serde_json::Value::from(*i),
        Json::Float(t) => serde_json::Value::String(t.clone()),
        Json::Str(t) => serde_json::Value::String(t.clone()),
        Json::Array(a) => serde_json::Value::Array(a.iter().map(to_serde).collect()),
        Json::Object(m) => {
            let mut out = serde_json::Map::new();
            for (k, x) in m {
                out.entry(k.clone()).or_insert_with(|| to_serde(x));
            }
            serde_json::Value::Object(out)
        }
    }
}

#[test]
fn test_market_standard_tools_compilation_and_response() {
    let plugin_manifest = obj(vec![
        ("name", s("test-market-calc")),
        ("version", s("1.0.0")),
        ("description", s("Deterministic arithmetic calculator")),
        (
            "functions",
            Json::Array(vec![obj(vec![
                ("name", s("calculate")),
                ("description", s("Evaluates math expression")),
                (
                    "parameters",
                    obj(vec![
                        ("type", s("object")),
                        (
                            "properties",
                            obj(vec![(
                                "expression",
                                obj(vec![("type", s("string")), ("description", s("Math expression like 2 + 2"))]),
                            )]),
                        ),
                        ("required", Json::Array(vec![s("expression")])),
                    ]),
                ),
            ])]),
        ),
    ]);
    let ws = workspace(&["/t/plugins/test-market-calc", "/t/plugins/test-market-calc/package.json"]);
    let materials = ToolMaterials {
        skill_docs: Vec::new(),
        manifests: vec![("/t/plugins/test-market-calc/package.json".to_string(), to_serde(&plugin_manifest).to_string())],
        mcp_tools: Vec::new(),
    };
    let router = SkillRouter::new();
    let compiled = ToolPromptCompiler::compile_tools(&vec!["test-market-calc".to_string()], None, &ws, &router, &materials);
    assert!(compiled.tools_xml.starts_with("<tools>\n"));
    assert!(compiled.tools_xml.ends_with("\n</tools>"));
    assert_eq!(compiled.active_tool_ids, vec!["test-market-calc".to_string()]);
    assert_eq!(
        compiled.estimated_tokens,
        (compiled.tools_xml.len() + compiled.skill_instructions.len() + 3) / 4
    );
    assert!(compiled.tools_xml.contains("calculate"));
    assert!(compiled.tools_xml.contains("Evaluates math expression"));
}

#[test]
fn plugin_schemas_read_from_manifest_text() {
    let text = "{\"functions\": [{\"name\": \"lookup\", \"description\": \"Finds\"}]}";
    let listed = ToolPromptCompiler::extract_plugin_schemas(Some(text), "dict", "Dictionary", "Fallback");
    assert_eq!(listed.len(), 1);
    assert_eq!(fn_name(&listed[0]), Some("lookup"));
    assert_eq!(fn_desc(&listed[0]), Some("Finds"));
    let broken = ToolPromptCompiler::extract_plugin_schemas(Some("{not json"), "dict", "Dictionary", "Fallback");
    assert_eq!(broken.len(), 1);
    assert_eq!(fn_name(&broken[0]), Some("dict"));
    let mcp = ToolPromptCompiler::extract_mcp_schemas(None, Some("{\"tools\": [{\"name\": \"read_file\"}]}"), "fs", "FS", "Files");
    assert_eq!(mcp.len(), 1);
    assert_eq!(fn_name(&mcp[0]), Some("read_file"));
}
