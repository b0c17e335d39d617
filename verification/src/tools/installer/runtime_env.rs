//! Isolated runtime environments of tools: which runtime a tool folder
//! needs, whether it is ready, and what provisioning reports.
use vstd::prelude::*;
use crate::documents::{parse_json, text_document};
use crate::json::{jget, jobject, Json, JsonView, oview};
use crate::paths::{debug_path, join, join_seq, path_debug};
use crate::text::{concat, contains_str, lowercase_seq, str_eq, to_lowercase, views};
use crate::tools::registry::sync::{extension_of, find_last_dot_ext};

verus! {

/// The runtime a tool needs.
#[derive(Debug, Clone, Copy, PartialEq, Eq, Structural)]
pub enum RuntimeType {
    Python,
    Node,
    Native,
    PureSkill,
}

/// Status of a tool's runtime environment.
#[derive(Debug)]
pub struct EnvironmentStatus {
    pub ready: bool,
    pub runtime: RuntimeType,
    pub executable_path: Option<String>,
    pub message: String,
}

/// Is the file name that of a native binary (by its lower-cased extension)?
pub open spec fn is_native_binary_name(name: Seq<char>) -> bool {
    match extension_of(name) {
        Some(e) => {
            let l = lowercase_seq(e);
            l == "dll"@ || l == "so"@ || l == "dylib"@ || l == "wasm"@ || l == "exe"@
        },
        None => false,
    }
}

/// The runtime that a folder with these entry names needs: native when it
/// holds a binary, Python when it holds a Python project file, Node when it
/// holds a `package.json`, else a pure skill.
pub open spec fn runtime_of(names: Seq<Seq<char>>) -> RuntimeType {
    if exists|i: int| 0 <= i < names.len() && is_native_binary_name(#[trigger] names[i]) {
        RuntimeType::Native
    } else if names.contains("requirements.txt"@) || names.contains("pyproject.toml"@) || names.contains("setup.py"@) {
        RuntimeType::Python
    } else if names.contains("package.json"@) {
        RuntimeType::Node
    } else {
        RuntimeType::PureSkill
    }
}

/// Does a parsed `package.json` declare dependencies?
pub open spec fn has_dependencies(manifest: Option<JsonView>) -> bool {
    match manifest {
        Some(v) => match jget(v, "dependencies"@) {
            Some(d) => match jobject(d) {
                Some(m) => m.len() > 0,
                None => false,
            },
            None => false,
        },
        None => false,
    }
}

/// The Python interpreter of a virtual environment.
pub open spec fn venv_python_seq(venv: Seq<char>, windows: bool) -> Seq<char> {
    if windows {
        join_seq(join_seq(venv, "Scripts"@), "python.exe"@)
    } else {
        join_seq(join_seq(venv, "bin"@), "python"@)
    }
}

/// Index of the first native binary among the names.
pub open spec fn first_binary(names: Seq<Seq<char>>) -> Option<int> {
    if exists|i: int| 0 <= i < names.len() && is_native_binary_name(#[trigger] names[i]) {
        Some(
            choose|i: int|
                0 <= i < names.len() && is_native_binary_name(names[i]) && forall|j: int|
                    0 <= j < i ==> !is_native_binary_name(#[trigger] names[j]),
        )
    } else {
        None
    }
}

/// Is the file name that of a native binary?
pub fn is_native_binary(name: &str) -> (r: bool)
    ensures
        r == is_native_binary_name(name@),
{
    match find_last_dot_ext(name) {
        Some(e) => {
            let l = to_lowercase(e.as_str());
            str_eq(l.as_str(), "dll") || str_eq(l.as_str(), "so") || str_eq(l.as_str(), "dylib") || str_eq(
                l.as_str(),
                "wasm",
            ) || str_eq(l.as_str(), "exe")
        },
        None => false,
    }
}

/// Index of the first native binary among the names.
fn find_binary(names: &Vec<String>) -> (r: Option<usize>)
    ensures
        match r {
            Some(i) => i < names@.len() && first_binary(views(names@)) == Some(i as int),
            None => first_binary(views(names@)) is None,
        },
{
    let ghost nv = views(names@);
    let mut i: usize = 0;
    while i < names.len()
        invariant
            i <= names@.len(),
            nv == views(names@),
            forall|j: int| 0 <= j < i ==> !is_native_binary_name(#[trigger] nv[j]),
        decreases names@.len() - i,
    {
        if is_native_binary(names[i].as_str()) {
            proof {
                assert(is_native_binary_name(nv[i as int]));
                let c = choose|c: int|
                    0 <= c < nv.len() && is_native_binary_name(nv[c]) && forall|j: int|
                        0 <= j < c ==> !is_native_binary_name(#[trigger] nv[j]);
                if c < i {
                    assert(!is_native_binary_name(nv[c]));
                } else if c > i {
                    assert(!is_native_binary_name(nv[i as int]));
                }
            }
            return Some(i);
        }
        assert(!is_native_binary_name(nv[i as int]));
        i = i + 1;
    }
    None
}

/// Manages the isolated runtimes of tools.
pub struct RuntimeEnvironmentManager;

impl RuntimeEnvironmentManager {
    /// The folder of all virtual environments under the global folder.
    pub fn venvs_dir(global_dir: &str) -> (r: String)
        ensures
            r@ == join_seq(global_dir@, "venvs"@),
    {
        join(global_dir, "venvs")
    }

    /// The virtual environment of a tool.
    pub fn tool_venv_dir(global_dir: &str, tool_id: &str) -> (r: String)
        ensures
            r@ == join_seq(join_seq(global_dir@, "venvs"@), tool_id@),
    {
        let v = Self::venvs_dir(global_dir);
        join(v.as_str(), tool_id)
    }

    /// The Python interpreter of a tool's virtual environment.
    pub fn venv_python(global_dir: &str, tool_id: &str, windows: bool) -> (r: String)
        ensures
            r@ == venv_python_seq(join_seq(join_seq(global_dir@, "venvs"@), tool_id@), windows),
    {
        let v = Self::tool_venv_dir(global_dir, tool_id);
        if windows {
            let s = join(v.as_str(), "Scripts");
            join(s.as_str(), "python.exe")
        } else {
            let b = join(v.as_str(), "bin");
            join(b.as_str(), "python")
        }
    }

    /// The runtime that a tool folder needs, from the names of its entries.
    pub fn detect_runtime(entry_names: &Vec<String>) -> (r: RuntimeType)
        ensures
            r == runtime_of(views(entry_names@)),
    {
        if find_binary(entry_names).is_some() {
            return RuntimeType::Native;
        }
        if contains_str(entry_names, "requirements.txt") || contains_str(entry_names, "pyproject.toml")
            || contains_str(entry_names, "setup.py") {
            return RuntimeType::Python;
        }
        if contains_str(entry_names, "package.json") {
            return RuntimeType::Node;
        }
        RuntimeType::PureSkill
    }

    /// Does a parsed `package.json` declare dependencies?
    pub fn declares_dependencies(manifest: Option<&Json>) -> (r: bool)
        ensures
            r == has_dependencies(oview(manifest)),
    {
        match manifest {
            Some(v) => match v.get("dependencies") {
                Some(d) => match d.as_object() {
                    Some(m) => m.len() > 0,
                    None => false,
                },
                None => false,
            },
            None => false,
        }
    }

    /// Is a tool's runtime ready, given the text of its `package.json`
    /// (`None` where there is none; a text serde_json reads no document
    /// from counts as none; see [`Self::is_environment_ready`])?
    pub fn is_environment_ready_text(entry_names: &Vec<String>, manifest_text: Option<&str>, venv_python_exists: bool) -> (r: bool)
        ensures
            r == match runtime_of(views(entry_names@)) {
                RuntimeType::PureSkill => true,
                RuntimeType::Native => first_binary(views(entry_names@)) is Some,
                RuntimeType::Node => !has_dependencies(text_document(manifest_text)) || views(entry_names@).contains(
                    "node_modules"@,
                ),
                RuntimeType::Python => venv_python_exists,
            },
    {
        let manifest = match manifest_text {
            Some(t) => parse_json(t),
            None => None,
        };
        match &manifest {
            Some(m) => Self::is_environment_ready(entry_names, Some(m), venv_python_exists),
            None => Self::is_environment_ready(entry_names, None, venv_python_exists),
        }
    }

    /// Does a Node tool need `npm install`, given the text of its
    /// `package.json` (as for [`Self::is_environment_ready_text`])?
    pub fn needs_npm_install_text(entry_names: &Vec<String>, manifest_text: Option<&str>) -> (r: bool)
        ensures
            r == (has_dependencies(text_document(manifest_text)) && !views(entry_names@).contains("node_modules"@)),
    {
        let manifest = match manifest_text {
            Some(t) => parse_json(t),
            None => None,
        };
        match &manifest {
            Some(m) => Self::needs_npm_install(entry_names, Some(m)),
            None => Self::needs_npm_install(entry_names, None),
        }
    }

    /// Is a tool's runtime ready? A pure skill always is; a native tool when
    /// it has a binary; a Node tool unless its `package.json` (`manifest`,
    /// when it parsed) declares dependencies and `node_modules` is missing;
    /// a Python tool when its virtual environment has an interpreter
    /// (`venv_python_exists`).
    pub fn is_environment_ready(entry_names: &Vec<String>, manifest: Option<&Json>, venv_python_exists: bool) -> (r: bool)
        ensures
            r == match runtime_of(views(entry_names@)) {
                RuntimeType::PureSkill => true,
                RuntimeType::Native => first_binary(views(entry_names@)) is Some,
                RuntimeType::Node => !has_dependencies(oview(manifest)) || views(entry_names@).contains(
                    "node_modules"@,
                ),
                RuntimeType::Python => venv_python_exists,
            },
    {
        match Self::detect_runtime(entry_names) {
            RuntimeType::PureSkill => true,
            RuntimeType::Native => find_binary(entry_names).is_some(),
            RuntimeType::Node => {
                if Self::declares_dependencies(manifest) {
                    contains_str(entry_names, "node_modules")
                } else {
                    true
                }
            },
            RuntimeType::Python => venv_python_exists,
        }
    }

    /// Must `npm install` run before a Node tool is ready?
    pub fn needs_npm_install(entry_names: &Vec<String>, manifest: Option<&Json>) -> (r: bool)
        ensures
            r == (has_dependencies(oview(manifest)) && !views(entry_names@).contains("node_modules"@)),
    {
        Self::declares_dependencies(manifest) && !contains_str(entry_names, "node_modules")
    }

    /// The status of a pure skill.
    pub fn pure_skill_status() -> (r: EnvironmentStatus)
        ensures
            r.ready,
            r.runtime == RuntimeType::PureSkill,
            r.executable_path is None,
            r.message@ == "Pure declarative skill, zero package dependencies required."@,
    {
        EnvironmentStatus {
            ready: true,
            runtime: RuntimeType::PureSkill,
            executable_path: None,
            message: String::from_str("Pure declarative skill, zero package dependencies required."),
        }
    }

    /// The status of a native tool: its first binary, or an error when it
    /// has none.
    pub fn native_status(tool_dir: &str, entry_names: &Vec<String>) -> (r: Result<EnvironmentStatus, String>)
        ensures
            match first_binary(views(entry_names@)) {
                Some(i) => r matches Ok(st) && st.ready && st.runtime == RuntimeType::Native
                    && crate::text::opt_view(st.executable_path) == Some(join_seq(tool_dir@, views(entry_names@)[i]))
                    && st.message@ == "Native binary ready: "@ + path_debug(views(entry_names@)[i]),
                None => r matches Err(e) && e@ == "No native compiled binary (.dll/.so/.wasm/.exe) found in "@
                    + path_debug(tool_dir@),
            },
    {
        match find_binary(entry_names) {
            Some(i) => {
                let name = entry_names[i].as_str();
                assert(views(entry_names@)[i as int] == name@);
                let d = debug_path(name);
                Ok(
                    EnvironmentStatus {
                        ready: true,
                        runtime: RuntimeType::Native,
                        executable_path: Some(join(tool_dir, name)),
                        message: concat("Native binary ready: ", d.as_str()),
                    },
                )
            },
            None => {
                let d = debug_path(tool_dir);
                Err(concat("No native compiled binary (.dll/.so/.wasm/.exe) found in ", d.as_str()))
            },
        }
    }

    /// The status of a Node tool whose packages are installed.
    pub fn node_status() -> (r: EnvironmentStatus)
        ensures
            r.ready,
            r.runtime == RuntimeType::Node,
            r.executable_path is None,
            r.message@ == "Node.js tool environment isolated and ready."@,
    {
        EnvironmentStatus {
            ready: true,
            runtime: RuntimeType::Node,
            executable_path: None,
            message: String::from_str("Node.js tool environment isolated and ready."),
        }
    }

    /// The status of a Python tool whose virtual environment is ready.
    pub fn python_status(py_exe: String) -> (r: EnvironmentStatus)
        ensures
            r.ready,
            r.runtime == RuntimeType::Python,
            crate::text::opt_view(r.executable_path) == Some(py_exe@),
            r.message@ == "Isolated Python venv provisioned and ready."@,
    {
        EnvironmentStatus {
            ready: true,
            runtime: RuntimeType::Python,
            executable_path: Some(py_exe),
            message: String::from_str("Isolated Python venv provisioned and ready."),
        }
    }
}

} // verus!
