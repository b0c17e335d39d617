use cluaiz_engines::tools::mcp::client::McpClient;
use cluaiz_engines::tools::skills::parser::SkillParser;
use cluaiz_engines::json::Json;
use cluaiz_engines::llama::loader::NativeLoader;

#[test]
fn json_text_parses_into_documents() {
    let doc = McpClient::read_reply("{\"a\": [1, -2, 2.5, true, null, \"x\"]}", false).unwrap();
    match doc {
        Json::Object(m) => {
            assert_eq!(m.len(), 1);
            assert_eq!(m[0].0, "a");
            match &m[0].1 {
                Json::Array(items) => {
                    assert_eq!(items.len(), 6);
                    assert!(matches!(items[0], Json::UInt(1)));
                    assert!(matches!(items[1], Json::Int(-2)));
                    assert!(matches!(&items[2], Json::Float(t) if t == "2.5"));
                    assert!(matches!(items[3], Json::Bool(true)));
                    assert!(matches!(items[4], Json::Null));
                    assert!(matches!(&items[5], Json::Str(t) if t == "x"));
                }
                other => panic!("not an array: {:?}", other),
            }
        }
        other => panic!("not an object: {:?}", other),
    }
    assert!(McpClient::read_reply("{not json", false).is_none());
    assert!(McpClient::read_reply("", true).is_none());
    let wrapped = McpClient::read_reply("\"{\\\"id\\\": 7}\"", true).unwrap();
    assert!(McpClient::is_reply_to(&wrapped, 7));
    let kept = McpClient::read_reply("\"{\\\"id\\\": 7}\"", false).unwrap();
    assert!(matches!(kept, Json::Str(_)));
    let plain = McpClient::read_reply("\"not json inside\"", true).unwrap();
    assert!(matches!(&plain, Json::Str(t) if t == "not json inside"));
}

#[test]
fn yaml_frontmatter_parses_into_metadata() {
    let p = SkillParser::parse_content("---\nname: writer\nversion: 3\ntriggers: [essay, draft]\n---\nBody").unwrap();
    assert_eq!(p.metadata.name, "writer");
    assert_eq!(p.metadata.triggers, vec!["essay".to_string(), "draft".to_string()]);
    assert_eq!(p.prompt_instructions, "Body");
    let unread = SkillParser::parse_content("---\nname: [unclosed\n---\nBody").unwrap();
    assert_eq!(unread.metadata.name, "");
    assert_eq!(unread.prompt_instructions, "Body");
}

#[test]
fn registry_facts_read_from_registry_text() {
    let text = "{\"installed_models\": {\"b\": {\"local_dir\": \"/models/chat\", \"metadata\": {\"architecture\": \"qwen3\", \"layer_count\": 36}}}}";
    let f = NativeLoader::registry_facts_from_text("/Models/Chat/qwen.gguf", text).unwrap();
    assert_eq!(f.architecture, Some("qwen3".to_string()));
    assert_eq!(f.layer_count, Some(36));
    assert!(NativeLoader::registry_facts_from_text("/models/chat/qwen.gguf", "{broken").is_none());
    assert!(NativeLoader::registry_facts_from_text("/other/x.gguf", text).is_none());
}
