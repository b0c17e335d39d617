use cluaiz_engines::json::Json;
use cluaiz_engines::tools::engine::ToolsEngine;
use cluaiz_engines::tools::execution::script_runner::{DeclarativeScriptRunner, ExecutionManifest};
use cluaiz_engines::tools::installer::runtime_env::RuntimeEnvironmentManager;
use cluaiz_engines::tools::installer::tools_client::{HostOs, ToolsInstaller};
use cluaiz_engines::tools::mcp::manifest::McpManifestParser;

#[test]
fn terminal_request_read_from_payload_text() {
    let r = ToolsEngine::terminal_request_from_payload("{\"cmd\": \"echo hi\", \"cwd\": \"/tmp\", \"timeout\": 30}");
    assert_eq!(r.command, "echo hi");
    assert_eq!(r.cwd, Some("/tmp".to_string()));
    assert_eq!(r.timeout_secs, Some(30));
    let plain = ToolsEngine::terminal_request_from_payload("ls -la");
    assert_eq!(plain.command, "ls -la");
    assert_eq!(plain.cwd, None);
    assert_eq!(plain.stdin, None);
}

#[test]
fn mcp_arguments_wrap_non_json_payloads() {
    match ToolsEngine::mcp_arguments("{\"path\": \"/x\"}") {
        Json::Object(m) => {
            assert_eq!(m.len(), 1);
            assert_eq!(m[0].0, "path");
            assert!(matches!(&m[0].1, Json::Str(t) if t == "/x"));
        }
        other => panic!("not an object: {:?}", other),
    }
    match ToolsEngine::mcp_arguments("read it") {
        Json::Object(m) => {
            assert_eq!(m.len(), 1);
            assert_eq!(m[0].0, "raw");
            assert!(matches!(&m[0].1, Json::Str(t) if t == "read it"));
        }
        other => panic!("not an object: {:?}", other),
    }
}

#[test]
fn script_request_read_from_payload_text() {
    let manifest = ExecutionManifest::default();
    let r = DeclarativeScriptRunner::script_request_from_payload(&manifest, "{\"lang\": \"JS\", \"code\": \"console.log(2)\", \"timeout\": 40}");
    assert_eq!(r.language, "js");
    assert_eq!(r.code, "console.log(2)");
    assert_eq!(r.timeout_secs, 40);
    let plain = DeclarativeScriptRunner::script_request_from_payload(&manifest, "print(1)");
    assert_eq!(plain.language, "python");
    assert_eq!(plain.code, "print(1)");
    assert_eq!(plain.timeout_secs, 15);
}

#[test]
fn installer_reads_registry_texts() {
    let registry = "{\"routing\": {\"skills\": \"skills/index.json\"}}";
    assert_eq!(ToolsInstaller::family_path_text(registry, "skills"), Some("skills/index.json".to_string()));
    assert_eq!(ToolsInstaller::family_path_text("{oops", "skills"), None);
    let family = "{\"items\": {\"writer\": \"writer/package.json\"}}";
    assert_eq!(
        ToolsInstaller::package_url_text("https://r.io", "skills/index.json", family, "writer"),
        Some("https://r.io/skills/writer/package.json".to_string())
    );
    assert_eq!(ToolsInstaller::package_url_text("https://r.io", "skills/index.json", "[", "writer"), None);
    let data = "{\"latest_version\": \"2.0.0\", \"versions\": {\"2.0.0\": {\"files\": {\"file_directory\": \"https://d/calc.zip\"}}}}";
    let urls = ToolsInstaller::resolve_package_text(data, None, "calc", HostOs::Linux).unwrap().unwrap();
    assert_eq!(urls.target_version, "2.0.0");
    assert_eq!(urls.download_url, "https://d/calc.zip");
    assert!(ToolsInstaller::resolve_package_text(data, Some("9.9.9"), "calc", HostOs::Linux).unwrap().is_err());
    assert!(ToolsInstaller::resolve_package_text("not json", None, "calc", HostOs::Linux).is_none());
    assert_eq!(
        ToolsInstaller::registry_url_from_text("{\"web\": {\"tools\": {\"manifest_url\": \"https://m\"}}}"),
        Some("https://m".to_string())
    );
    assert_eq!(ToolsInstaller::registry_url_from_text("{}"), None);
    assert_eq!(ToolsInstaller::registry_url_from_text("{"), None);
}

#[test]
fn runtime_checks_read_package_text() {
    let node = vec!["package.json".to_string()];
    let deps = "{\"dependencies\": {\"left-pad\": \"1\"}}";
    assert!(RuntimeEnvironmentManager::needs_npm_install_text(&node, Some(deps)));
    assert!(!RuntimeEnvironmentManager::is_environment_ready_text(&node, Some(deps), false));
    assert!(!RuntimeEnvironmentManager::needs_npm_install_text(&node, Some("{broken")));
    assert!(RuntimeEnvironmentManager::is_environment_ready_text(&node, None, false));
    let installed = vec!["package.json".to_string(), "node_modules".to_string()];
    assert!(!RuntimeEnvironmentManager::needs_npm_install_text(&installed, Some(deps)));
}

#[test]
fn mcp_manifest_read_from_text() {
    let m = McpManifestParser::parse_manifest_text(
        "{\"name\": \"fs\", \"description\": \"Files\", \"mcp\": {\"execution\": {\"command\": \"npx\", \"args\": [\"-y\", \"srv\"]}}}",
    )
    .unwrap();
    assert_eq!(m.name, "fs");
    assert_eq!(m.description, "Files");
    assert!(m.execution.is_some());
    assert!(McpManifestParser::parse_manifest_text("{nope").is_none());
}
