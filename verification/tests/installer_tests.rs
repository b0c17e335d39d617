use cluaiz_engines::json::Json;
use cluaiz_engines::tools::installer::runtime_env::{is_native_binary, RuntimeEnvironmentManager, RuntimeType};
use cluaiz_engines::tools::installer::tools_client::{HostOs, PackageUrls, ToolsInstaller};
use cluaiz_engines::tools::prompt_compiler::ToolDirs;

fn s(x: &str) -> Json {
    Json::Str(x.to_string())
}

fn obj(members: Vec<(&str, Json)>) -> Json {
    Json::Object(members.into_iter().map(|(k, v)| (k.to_string(), v)).collect())
}

fn dirs() -> ToolDirs {
    ToolDirs {
        skills_dir: "/h/tools/skills".to_string(),
        plugins_dir: "/h/tools/plugins".to_string(),
        mcp_dir: "/h/tools/mcp".to_string(),
        global_dir: "/h".to_string(),
    }
}

fn package() -> Json {
    obj(vec![
        ("latest_version", s("2.0.0")),
        (
            "versions",
            obj(vec![
                (
                    "1.0.0",
                    obj(vec![("files", obj(vec![("file_directory", s("https://x/one.zip"))]))]),
                ),
                (
                    "2.0.0",
                    obj(vec![
                        ("files", obj(vec![("file_directory", s("https://x/two.zip"))])),
                        ("os", obj(vec![("linux", s("https://x/two.so")), ("windows", s("https://x/two.dll"))])),
                    ]),
                ),
            ]),
        ),
    ])
}

#[test]
fn component_ids_split_at_the_version() {
    assert_eq!(ToolsInstaller::split_component_id("calc@1.2.0"), ("calc".to_string(), Some("1.2.0".to_string())));
    assert_eq!(ToolsInstaller::split_component_id("calc"), ("calc".to_string(), None));
}

#[test]
fn component_folders_by_type() {
    let d = dirs();
    assert_eq!(ToolsInstaller::component_dir(&d, "skill", "writer"), Ok("/h/tools/skills/writer".to_string()));
    assert_eq!(ToolsInstaller::component_dir(&d, "mcp", "fs"), Ok("/h/tools/mcp/fs".to_string()));
    assert_eq!(ToolsInstaller::component_base_dir(&d, "plugin"), Ok("/h/tools/plugins".to_string()));
    assert_eq!(
        ToolsInstaller::component_dir(&d, "theme", "dark"),
        Err("Unknown tool component type: theme".to_string())
    );
}

#[test]
fn registry_routing() {
    assert_eq!(ToolsInstaller::registry_base_url("https://r.io/tools/registry.json"), "https://r.io/tools");
    assert_eq!(ToolsInstaller::registry_base_url("https://r.io/tools/index.json"), "https://r.io/tools");
    assert_eq!(ToolsInstaller::route_category("mcp"), "mcp");
    assert_eq!(ToolsInstaller::route_category("skill"), "skills");
    let registry = obj(vec![("routing", obj(vec![("skills", s("skills/index.json"))]))]);
    assert_eq!(ToolsInstaller::family_path(&registry, "skills"), Some("skills/index.json".to_string()));
    assert_eq!(ToolsInstaller::family_path(&registry, "plugins"), None);
    assert_eq!(ToolsInstaller::family_path(&obj(vec![("routing", s("x"))]), "skills"), None);
    let family = obj(vec![("items", obj(vec![("writer", s("writer/package.json"))]))]);
    assert_eq!(
        ToolsInstaller::package_url("https://r.io", "skills/index.json", &family, "writer"),
        Some("https://r.io/skills/writer/package.json".to_string())
    );
    assert_eq!(ToolsInstaller::package_url("https://r.io", "skills/index.json", &family, "other"), None);
}

#[test]
fn package_resolution_picks_the_version_and_urls() {
    let data = package();
    let latest = ToolsInstaller::resolve_package(&data, None, "calc", HostOs::Linux).unwrap();
    assert_eq!(latest.target_version, "2.0.0");
    assert_eq!(latest.download_url, "https://x/two.zip");
    assert_eq!(latest.binary_download_url, "https://x/two.so");
    let mac = ToolsInstaller::resolve_package(&data, None, "calc", HostOs::MacOs).unwrap();
    assert_eq!(mac.binary_download_url, "");
    let one = ToolsInstaller::resolve_package(&data, Some("1.0.0"), "calc", HostOs::Windows).unwrap();
    assert_eq!(one.download_url, "https://x/one.zip");
    assert_eq!(one.binary_download_url, "");
    let missing = ToolsInstaller::resolve_package(&data, Some("3.0.0"), "calc", HostOs::Linux);
    assert_eq!(
        missing.err(),
        Some("Version '3.0.0' not found for 'calc'. Available versions in Cluaiz Tools: [\"1.0.0\", \"2.0.0\"]".to_string())
    );
    let bare = ToolsInstaller::resolve_package(&obj(vec![]), None, "calc", HostOs::Linux).unwrap();
    assert_eq!(bare.target_version, "0.1.0");
    assert_eq!(bare.download_url, "");
}

#[test]
fn release_fallbacks() {
    let empty = PackageUrls { target_version: String::new(), download_url: String::new(), binary_download_url: String::new() };
    let u = ToolsInstaller::finalize_urls("plugin", "calc", empty, HostOs::Windows).unwrap();
    assert_eq!(u.download_url, "https://github.com/cluaiz/cluaiz-tools/releases/download/plugin-calc-v1.0.0/calc-files.zip");
    assert_eq!(
        u.binary_download_url,
        "https://github.com/cluaiz/cluaiz-tools/releases/download/plugin-calc-v1.0.0/calc_windows_x64.dll"
    );
    assert_eq!(u.target_version, "");
    let skill = PackageUrls { target_version: "2.1.0".to_string(), download_url: String::new(), binary_download_url: String::new() };
    let v = ToolsInstaller::finalize_urls("theme", "dark", skill, HostOs::Linux).unwrap();
    assert_eq!(v.download_url, "https://github.com/cluaiz/cluaiz-tools/releases/download/ext-dark-v2.1.0/dark-files.zip");
    assert_eq!(v.binary_download_url, "");
    let given = PackageUrls {
        target_version: "1.0.0".to_string(),
        download_url: "https://x/a.zip".to_string(),
        binary_download_url: String::new(),
    };
    let w = ToolsInstaller::finalize_urls("skill", "a", given, HostOs::Linux).unwrap();
    assert_eq!(w.download_url, "https://x/a.zip");
    let nothing = PackageUrls { target_version: "0.3".to_string(), download_url: String::new(), binary_download_url: String::new() };
    assert_eq!(
        ToolsInstaller::finalize_urls("skill", "", nothing, HostOs::Linux).err(),
        Some("Package '' (version '0.3') does not specify a valid download bundle in Cluaiz Tools.".to_string())
    );
    assert_eq!(ToolsInstaller::binary_file_name("calc", HostOs::MacOs), "calc.dylib");
    assert_eq!(ToolsInstaller::os_key(HostOs::Linux), "linux");
}

#[test]
fn registry_url_from_configuration() {
    let web = obj(vec![("web", obj(vec![("hub", obj(vec![("manifest_url", s("https://hub/registry.json"))]))]))]);
    assert_eq!(ToolsInstaller::registry_url_from(&web), Some("https://hub/registry.json".to_string()));
    let top = obj(vec![("tools", obj(vec![("manifest_url", s("https://top/registry.json"))]))]);
    assert_eq!(ToolsInstaller::registry_url_from(&top), Some("https://top/registry.json".to_string()));
    assert_eq!(ToolsInstaller::registry_url_from(&obj(vec![])), None);
    assert_eq!(
        ToolsInstaller::default_registry_url(),
        "https://raw.githubusercontent.com/cluaiz/cluaiz-tools/main/registry.json"
    );
}

#[test]
fn component_cache_listing_and_clearing() {
    let items = vec!["a".to_string(), "b".to_string(), "a".to_string()];
    assert_eq!(
        ToolsInstaller::list_component_cache("skill", &items),
        Ok("Cached skill components: [\"a\", \"b\", \"a\"]".to_string())
    );
    assert_eq!(ToolsInstaller::components_to_clear(&items, Some("a")), vec!["a".to_string(), "a".to_string()]);
    assert_eq!(ToolsInstaller::components_to_clear(&items, None), items);
    assert_eq!(ToolsInstaller::clear_component_cache("mcp", &items, Some("b".to_string()), false, false), Ok(1));
    assert_eq!(ToolsInstaller::clear_component_cache("mcp", &items, None, true, true), Ok(3));
    assert_eq!(
        ToolsInstaller::clear_component_cache("x", &items, None, false, false),
        Err("Unknown tool component type: x".to_string())
    );
}

#[test]
fn runtime_environment_decisions() {
    assert_eq!(RuntimeEnvironmentManager::venvs_dir("/h"), "/h/venvs");
    assert_eq!(RuntimeEnvironmentManager::tool_venv_dir("/h", "calc"), "/h/venvs/calc");
    assert_eq!(RuntimeEnvironmentManager::venv_python("/h", "calc", false), "/h/venvs/calc/bin/python");
    assert_eq!(RuntimeEnvironmentManager::venv_python("/h", "calc", true), "/h/venvs/calc/Scripts/python.exe");
    let node = vec!["package.json".to_string()];
    let deps = obj(vec![("dependencies", obj(vec![("left-pad", s("1"))]))]);
    let no_deps = obj(vec![("dependencies", obj(vec![]))]);
    assert!(RuntimeEnvironmentManager::declares_dependencies(Some(&deps)));
    assert!(!RuntimeEnvironmentManager::declares_dependencies(Some(&no_deps)));
    assert!(!RuntimeEnvironmentManager::declares_dependencies(None));
    assert!(RuntimeEnvironmentManager::needs_npm_install(&node, Some(&deps)));
    assert!(!RuntimeEnvironmentManager::is_environment_ready(&node, Some(&deps), false));
    let installed = vec!["package.json".to_string(), "node_modules".to_string()];
    assert!(!RuntimeEnvironmentManager::needs_npm_install(&installed, Some(&deps)));
    assert!(RuntimeEnvironmentManager::is_environment_ready(&installed, Some(&deps), false));
    let py = vec!["requirements.txt".to_string()];
    assert_eq!(RuntimeEnvironmentManager::detect_runtime(&py), RuntimeType::Python);
    assert!(!RuntimeEnvironmentManager::is_environment_ready(&py, None, false));
    assert!(RuntimeEnvironmentManager::is_environment_ready(&py, None, true));
    assert!(is_native_binary("Plugin.DLL"));
    assert!(!is_native_binary("plugin.txt"));
}

#[test]
fn runtime_statuses() {
    let bins = vec!["README.md".to_string(), "calc.wasm".to_string()];
    let st = RuntimeEnvironmentManager::native_status("/t/calc", &bins).unwrap();
    assert!(st.ready);
    assert_eq!(st.runtime, RuntimeType::Native);
    assert_eq!(st.executable_path, Some("/t/calc/calc.wasm".to_string()));
    assert_eq!(st.message, "Native binary ready: \"calc.wasm\"");
    assert_eq!(
        RuntimeEnvironmentManager::native_status("/t/calc", &vec![]).err(),
        Some("No native compiled binary (.dll/.so/.wasm/.exe) found in \"/t/calc\"".to_string())
    );
    assert_eq!(RuntimeEnvironmentManager::pure_skill_status().message, "Pure declarative skill, zero package dependencies required.");
    assert_eq!(RuntimeEnvironmentManager::node_status().runtime, RuntimeType::Node);
    let p = RuntimeEnvironmentManager::python_status("/h/venvs/x/bin/python".to_string());
    assert_eq!(p.executable_path, Some("/h/venvs/x/bin/python".to_string()));
    assert_eq!(p.message, "Isolated Python venv provisioned and ready.");
}
