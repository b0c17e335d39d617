use cluaiz_engines::tools::prompt_compiler::{ResolvedToolTarget, ToolDirs, ToolPromptCompiler, ToolWorkspace};

fn empty_workspace() -> ToolWorkspace {
    ToolWorkspace {
        dirs: ToolDirs {
            skills_dir: "/home/u/.cluaiz/tools/skills".to_string(),
            plugins_dir: "/home/u/.cluaiz/tools/plugins".to_string(),
            mcp_dir: "/home/u/.cluaiz/tools/mcp".to_string(),
            global_dir: "/home/u/.cluaiz".to_string(),
        },
        existing_paths: Vec::new(),
        cached_mcp_tools: Vec::new(),
        manifest_functions: Vec::new(),
        mcp_server_dirs: Vec::new(),
    }
}

#[test]
fn test_resolve_target_syntax() {
    let ws = empty_workspace();
    let namespaced = ToolPromptCompiler::resolve_target("mcp:filesystem:read_file", &vec![], None, &ws);
    assert_eq!(
        namespaced,
        Some(ResolvedToolTarget {
            category: "mcp".to_string(),
            component_id: "filesystem".to_string(),
            sub_function: Some("read_file".to_string()),
        })
    );

    let plugin_namespaced = ToolPromptCompiler::resolve_target("plugin:math", &vec![], None, &ws);
    assert_eq!(
        plugin_namespaced,
        Some(ResolvedToolTarget { category: "plugin".to_string(), component_id: "math".to_string(), sub_function: None })
    );
}

#[test]
fn resolve_target_by_folder_and_heuristics() {
    let mut ws = empty_workspace();
    ws.existing_paths.push("/home/u/.cluaiz/tools/plugins/math".to_string());
    let t = ToolPromptCompiler::resolve_target(" math ", &vec![], None, &ws).unwrap();
    assert_eq!(t.category, "plugin");
    assert_eq!(t.component_id, "math");
    let t = ToolPromptCompiler::resolve_target("calculate", &vec![], None, &ws).unwrap();
    assert_eq!(t.component_id, "math");
    assert_eq!(t.sub_function, Some("calculate".to_string()));
    assert_eq!(ToolPromptCompiler::resolve_target("unknown_fn", &vec![], None, &ws), None);
    assert_eq!(ToolPromptCompiler::resolve_target("   ", &vec![], None, &ws), None);
    let t = ToolPromptCompiler::resolve_target("filesystem:read_file", &vec![], None, &ws).unwrap();
    assert_eq!(t.category, "mcp");
    assert_eq!(t.component_id, "filesystem");
}

#[test]
fn resolve_target_by_declared_function() {
    let mut ws = empty_workspace();
    ws.existing_paths.push("/home/u/.cluaiz/tools/mcp/fs".to_string());
    ws.cached_mcp_tools.push(("/home/u/.cluaiz/tools/mcp/fs".to_string(), vec!["Read_File".to_string()]));
    let t = ToolPromptCompiler::resolve_target("read_file", &vec!["fs".to_string()], None, &ws).unwrap();
    assert_eq!(t.category, "mcp");
    assert_eq!(t.component_id, "fs");
    assert_eq!(t.sub_function, Some("read_file".to_string()));
}

#[test]
fn resolve_target_routes_to_connected_mcp_server_outside_tool_folders() {
    let mut ws = empty_workspace();
    ws.mcp_server_dirs = vec![("official-anthropic-fs".to_string(), "/tmp/official_mcp".to_string())];
    ws.cached_mcp_tools = vec![(
        "/tmp/official_mcp".to_string(),
        vec!["read_file".to_string(), "list_directory".to_string()],
    )];
    let r = ToolPromptCompiler::resolve_target("read_file", &vec!["official-anthropic-fs".to_string()], None, &ws);
    assert_eq!(
        r,
        Some(ResolvedToolTarget {
            category: "mcp".to_string(),
            component_id: "official-anthropic-fs".to_string(),
            sub_function: Some("read_file".to_string()),
        })
    );
    let none = ToolPromptCompiler::resolve_target("write_file", &vec!["official-anthropic-fs".to_string()], None, &ws);
    assert_eq!(none, None);
}
