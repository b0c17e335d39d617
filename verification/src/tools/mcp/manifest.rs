//! Manifests of MCP servers: how a server is started.
use vstd::prelude::*;
use crate::documents::{json_document, parse_json};
use crate::json::{collect_strings, jget, jobject, Json, JsonView, oarray, or_default, ostr, str_opt, string_items};
use crate::keyed::{str_map, str_map_insert};
use crate::text::views;
use crate::tools::skills::parser::text_of;

verus! {

/// An MCP server manifest.
#[derive(Debug)]
pub struct McpManifest {
    pub name: String,
    pub version: String,
    pub description: String,
    pub author: String,
    /// The manifest's `type` member.
    pub kind: String,
    pub discovery: Option<McpDiscovery>,
    pub activation: Option<McpActivation>,
    pub permissions: Option<McpPermissions>,
    pub execution: Option<McpExecution>,
}

/// Discovery hints of an MCP server.
#[derive(Debug)]
pub struct McpDiscovery {
    pub semantic_triggers: Vec<String>,
    pub cel_grammar: Option<String>,
}

/// Activation rules of an MCP server.
#[derive(Debug)]
pub struct McpActivation {
    pub lazy_load: bool,
    pub trigger_on: Vec<String>,
}

/// Permissions of an MCP server.
#[derive(Debug)]
pub struct McpPermissions {
    pub network_access: bool,
    pub allowed_hosts: Vec<String>,
    pub file_system: String,
}

/// How an MCP server process is started.
#[derive(Debug)]
pub struct McpExecution {
    pub command: String,
    pub args: Vec<String>,
    /// Extra environment variables; a repeated name stands for its first
    /// occurrence.
    pub env: Vec<(String, String)>,
}

/// An execution configuration as mathematical data.
#[verifier::ext_equal]
pub ghost struct ExecutionView {
    pub command: Seq<char>,
    pub args: Seq<Seq<char>>,
    pub env: Map<Seq<char>, Seq<char>>,
}

impl View for McpExecution {
    type V = ExecutionView;

    open spec fn view(&self) -> ExecutionView {
        ExecutionView { command: self.command@, args: views(self.args@), env: str_map(self.env@) }
    }
}

/// Version of a manifest that names none.
pub fn default_version() -> (r: String)
    ensures
        r@ == "1.0.0"@,
{
    String::from_str("1.0.0")
}

/// Command of an execution configuration that names none.
pub fn default_command() -> (r: String)
    ensures
        r@ == "npx"@,
{
    String::from_str("npx")
}

/// The environment after the string members of `m` are inserted in order.
pub open spec fn env_with(e: Map<Seq<char>, Seq<char>>, m: Seq<(Seq<char>, JsonView)>) -> Map<Seq<char>, Seq<char>>
    decreases m.len(),
{
    if m.len() == 0 {
        e
    } else {
        let prev = env_with(e, m.drop_last());
        match ostr(Some(m.last().1)) {
            Some(s) => prev.insert(m.last().0, s),
            None => prev,
        }
    }
}

/// An execution configuration after the `command`, `args` and `env`
/// members of `o` are applied.
pub open spec fn apply_execution(e: ExecutionView, o: JsonView) -> ExecutionView {
    ExecutionView {
        command: match ostr(jget(o, "command"@)) {
            Some(c) => c,
            None => e.command,
        },
        args: match oarray(jget(o, "args"@)) {
            Some(a) => string_items(a),
            None => e.args,
        },
        env: match jget(o, "env"@) {
            Some(x) => match jobject(x) {
                Some(m) => env_with(e.env, m),
                None => e.env,
            },
            None => e.env,
        },
    }
}

/// The execution configuration that a `package.json` gives: its
/// `execution` object, else the first of its `versions`, else its top-level
/// `command`.
pub open spec fn execution_of(v: JsonView) -> ExecutionView {
    let e0 = ExecutionView { command: Seq::empty(), args: Seq::empty(), env: Map::empty() };
    let e1 = match jget(v, "execution"@) {
        Some(x) => if jobject(x) is Some {
            apply_execution(e0, x)
        } else {
            e0
        },
        None => e0,
    };
    let e2 = if e1.command.len() == 0 {
        match jget(v, "versions"@) {
            Some(x) => match jobject(x) {
                Some(m) => if m.len() > 0 {
                    apply_execution(e1, m[0].1)
                } else {
                    e1
                },
                None => e1,
            },
            None => e1,
        }
    } else {
        e1
    };
    if e2.command.len() == 0 {
        match ostr(jget(v, "command"@)) {
            Some(c) => ExecutionView { command: c, ..e2 },
            None => e2,
        }
    } else {
        e2
    }
}

/// The name a manifest gives: its `id`, else its `name`.
pub open spec fn mcp_name_of(v: JsonView) -> Seq<char> {
    match ostr(jget(v, "id"@)) {
        Some(s) => s,
        None => text_of(jget(v, "name"@)),
    }
}

/// Applies an execution object.
fn apply_execution_exec(e: &mut McpExecution, o: &Json)
    ensures
        final(e)@ == apply_execution(old(e)@, o@),
{
    let ghost want = apply_execution(e@, o@);
    if let Some(c) = str_opt(o.get("command")) {
        e.command = String::from_str(c);
    }
    assert(e.command@ == want.command);
    if let Some(a) = o.get("args") {
        if let Some(arr) = a.as_array() {
            e.args = collect_strings(arr);
        }
    }
    assert(views(e.args@) == want.args);
    let ghost env0 = str_map(e.env@);
    assert(env0 == old(e)@.env);
    if let Some(x) = o.get("env") {
        if let Some(m) = x.as_object() {
            let ghost mv = m@.map_values(|p: (String, Json)| (p.0@, p.1@));
            let mut i: usize = 0;
            while i < m.len()
                invariant
                    i <= m@.len(),
                    mv == m@.map_values(|p: (String, Json)| (p.0@, p.1@)),
                    str_map(e.env@) == env_with(env0, mv.subrange(0, i as int)),
                    e.command@ == want.command,
                    views(e.args@) == want.args,
                decreases m@.len() - i,
            {
                proof {
                    assert(mv.subrange(0, i + 1).drop_last() =~= mv.subrange(0, i as int));
                    assert(mv.subrange(0, i + 1).last() == (m@[i as int].0@, m@[i as int].1@));
                }
                if let Some(s) = m[i].1.as_str() {
                    str_map_insert(&mut e.env, m[i].0.clone(), String::from_str(s));
                }
                i = i + 1;
            }
            assert(mv.subrange(0, mv.len() as int) =~= mv);
        }
    }
    assert(str_map(e.env@) == want.env);
    assert(e@ =~= want);
}

/// Reads MCP server manifests.
pub struct McpManifestParser;

impl McpManifestParser {
    /// Parses the text of an MCP server's `package.json`; none where
    /// serde_json reads no document from it (see [`Self::parse_manifest`]).
    pub fn parse_manifest_text(text: &str) -> (r: Option<McpManifest>)
        ensures
            match json_document(text@) {
                Some(v) => r matches Some(m) && m.name@ == mcp_name_of(v) && m.description@ == text_of(
                    jget(v, "description"@),
                ) && (m.execution matches Some(e) && e@ == execution_of(v)),
                None => r is None,
            },
    {
        match parse_json(text) {
            Some(v) => Some(Self::parse_manifest(&v)),
            None => None,
        }
    }

    /// The manifest that a parsed `package.json` gives: its name (`id`, else
    /// `name`), its description, and its execution configuration; the
    /// version, author, type and the optional sections stay empty.
    pub fn parse_manifest(val: &Json) -> (r: McpManifest)
        ensures
            r.name@ == mcp_name_of(val@),
            r.description@ == text_of(jget(val@, "description"@)),
            r.version@.len() == 0,
            r.author@.len() == 0,
            r.kind@.len() == 0,
            r.discovery is None,
            r.activation is None,
            r.permissions is None,
            r.execution matches Some(e) && e@ == execution_of(val@),
    {
        let name = match str_opt(val.get("id")) {
            Some(s) => String::from_str(s),
            None => match str_opt(val.get("name")) {
                Some(s) => String::from_str(s),
                None => String::new(),
            },
        };
        let description = match str_opt(val.get("description")) {
            Some(s) => String::from_str(s),
            None => String::new(),
        };
        let mut exec = McpExecution { command: String::new(), args: Vec::new(), env: Vec::new() };
        assert(exec@ =~= ExecutionView { command: Seq::empty(), args: Seq::empty(), env: Map::empty() }) by {
            assert(str_map(exec.env@) =~= Map::<Seq<char>, Seq<char>>::empty());
        }
        if let Some(x) = val.get("execution") {
            if x.as_object().is_some() {
                apply_execution_exec(&mut exec, x);
            }
        }
        if exec.command.unicode_len() == 0 {
            if let Some(x) = val.get("versions") {
                if let Some(m) = x.as_object() {
                    if m.len() > 0 {
                        apply_execution_exec(&mut exec, &m[0].1);
                    }
                }
            }
        }
        if exec.command.unicode_len() == 0 {
            if let Some(c) = str_opt(val.get("command")) {
                exec.command = String::from_str(c);
            }
        }
        McpManifest {
            name,
            version: String::new(),
            description,
            author: String::new(),
            kind: String::new(),
            discovery: None,
            activation: None,
            permissions: None,
            execution: Some(exec),
        }
    }
}

} // verus!
