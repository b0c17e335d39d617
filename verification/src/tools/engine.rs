//! The tools facade: registry queries and edits, skill matching, function
//! routing, and the decisions of tool execution.
use vstd::prelude::*;
use crate::documents::{json_document, parse_json};
use crate::json::{jget, ju64, Json, JsonView, or_default, or_else, ostr, oview, str_opt};
use crate::keyed::{distinct_keys, keyed_view};
use crate::paths::{debug_path, join, join_seq, path_debug};
use crate::text::{concat, contains_str, lowercase_seq, opt_view, str_eq, views};
use crate::tools::prompt_compiler::{path_exists, resolve_target_spec, ResolvedToolTarget, ToolPromptCompiler, ToolWorkspace};
use crate::tools::registry::index::ToolsRegistry;
use crate::tools::registry::types::{ExecutionMode, SecurityMode, ToolEntry, ToolEntryModel};
use crate::tools::skills::router::{matched_ids, SkillRouter};

verus! {

/// What a terminal tool call asks for.
#[derive(Debug)]
pub struct TerminalRequest {
    pub command: String,
    pub cwd: Option<String>,
    pub stdin: Option<String>,
    pub timeout_secs: Option<u64>,
}

/// The terminal request in a payload that parsed as `parsed` (or did not).
pub open spec fn terminal_request_spec(payload: Seq<char>, parsed: Option<JsonView>) -> (Seq<char>, Option<Seq<char>>, Option<Seq<char>>, Option<u64>) {
    match parsed {
        Some(v) => (
            or_default(ostr(or_else(jget(v, "command"@), jget(v, "cmd"@))), payload),
            ostr(jget(v, "cwd"@)),
            ostr(or_else(jget(v, "stdin"@), jget(v, "input"@))),
            match jget(v, "timeout"@) {
                Some(t) => ju64(t),
                None => None,
            },
        ),
        None => (payload, None, None, None),
    }
}

/// Where a component named `name` is looked up, in order, and what error a
/// miss gives.
pub open spec fn locate_spec(ws: &ToolWorkspace, reg: Option<&ToolsRegistry>, primary: Seq<char>, alt: Seq<char>, use_registry: bool, name: Seq<char>, what: Seq<char>) -> Result<Seq<char>, Seq<char>> {
    if path_exists(ws, primary) {
        Ok(primary)
    } else if path_exists(ws, alt) {
        Ok(alt)
    } else if use_registry && reg is Some && reg->0.tools().contains_key(name) && path_exists(
        ws,
        reg->0.tools()[name].local_dir,
    ) {
        Ok(reg->0.tools()[name].local_dir)
    } else {
        Err(what + " '"@ + name + "' not found in "@ + path_debug(primary))
    }
}

/// One character as serde_json writes it inside a JSON string: quote,
/// backslash and the control characters escaped, the rest as it is.
pub open spec fn json_escape_char(c: char) -> Seq<char> {
    let hex = seq!['0', '1', '2', '3', '4', '5', '6', '7', '8', '9', 'a', 'b', 'c', 'd', 'e', 'f'];
    if c == '"' {
        seq!['\\', '"']
    } else if c == '\\' {
        seq!['\\', '\\']
    } else if c == '\u{8}' {
        seq!['\\', 'b']
    } else if c == '\t' {
        seq!['\\', 't']
    } else if c == '\n' {
        seq!['\\', 'n']
    } else if c == '\u{c}' {
        seq!['\\', 'f']
    } else if c == '\r' {
        seq!['\\', 'r']
    } else if (c as u32) < 0x20 {
        seq!['\\', 'u', '0', '0', hex[(c as int) / 16], hex[(c as int) % 16]]
    } else {
        seq![c]
    }
}

/// A text as a JSON string literal, as serde_json writes it.
pub open spec fn json_quote(s: Seq<char>) -> Seq<char> {
    seq!['"'] + s.map_values(|c: char| json_escape_char(c)).flatten() + seq!['"']
}

/// The compact text that serde_json writes of the JSON value it parses
/// from `text`; `None` where `text` is no JSON value.
pub uninterp spec fn json_rewritten(text: Seq<char>) -> Option<Seq<char>>;

/// `serde_json::from_str` of `text` as a `serde_json::Value`, written back
/// with `serde_json::to_string`. The contract names the text that comes
/// back and says that nothing comes back where the parse fails; how
/// numbers and object keys are written is left to the name.
#[verifier::external_body]
fn rewrite_json(text: &str) -> (r: Option<String>)
    ensures
        opt_view(r) == json_rewritten(text@),
{
    match serde_json::from_str::<serde_json::Value>(text) {
        Ok(v) => serde_json::to_string(&v).ok(),
        Err(_) => None,
    }
}

/// `serde_json::to_string` of a string slice: the text in double quotes,
/// with quote, backslash and the control characters below 0x20 escaped
/// (`\b`, `\t`, `\n`, `\f`, `\r`, else `\u00` and two lower-case hex
/// digits). Writing a string into memory does not fail.
#[verifier::external_body]
fn quote_json(text: &str) -> (r: String)
    ensures
        r@ == json_quote(text@),
{
    match serde_json::to_string(text) {
        Ok(s) => s,
        Err(_) => String::new(),
    }
}

/// The single entry point of tools, skills, plugins and MCP bridges.
pub struct ToolsEngine;

impl ToolsEngine {
    /// All registered tools, in registry order.
    pub fn list_all_tools(registry: &ToolsRegistry) -> (r: Vec<ToolEntry>)
        ensures
            r@.map_values(|e: ToolEntry| e@) == registry.installed_tools@.map_values(|p: (String, ToolEntry)| p.1@),
    {
        registry.list_tools()
    }

    /// A copy of the tool registered under `id`.
    pub fn get_tool(registry: &ToolsRegistry, id: &str) -> (r: Option<ToolEntry>)
        ensures
            match r {
                Some(e) => registry.tools().contains_key(id@) && e@ == registry.tools()[id@],
                None => !registry.tools().contains_key(id@),
            },
    {
        match registry.get_tool(id) {
            Some(e) => Some(e.duplicate()),
            None => None,
        }
    }

    /// Enables or disables a tool; answers whether it exists (and so must be
    /// saved).
    pub fn set_tool_enabled(registry: &mut ToolsRegistry, id: &str, enabled: bool) -> (found: bool)
        ensures
            found == old(registry).tools().contains_key(id@),
            found ==> final(registry).tools() == old(registry).tools().insert(
                id@,
                ToolEntryModel { enabled: enabled, ..old(registry).tools()[id@] },
            ),
            !found ==> final(registry).tools() == old(registry).tools(),
            distinct_keys(old(registry).installed_tools@) ==> distinct_keys(final(registry).installed_tools@),
            final(registry).default_security_mode == old(registry).default_security_mode,
            final(registry).version == old(registry).version,
            final(registry).last_updated == old(registry).last_updated,
    {
        registry.set_tool_enabled(id, enabled)
    }

    /// Sets a tool's execution mode; answers whether it exists.
    pub fn set_tool_execution_mode(registry: &mut ToolsRegistry, id: &str, mode: ExecutionMode) -> (found: bool)
        ensures
            found == old(registry).tools().contains_key(id@),
            found ==> final(registry).tools() == old(registry).tools().insert(
                id@,
                ToolEntryModel { execution_mode: mode, ..old(registry).tools()[id@] },
            ),
            !found ==> final(registry).tools() == old(registry).tools(),
            distinct_keys(old(registry).installed_tools@) ==> distinct_keys(final(registry).installed_tools@),
            final(registry).default_security_mode == old(registry).default_security_mode,
            final(registry).version == old(registry).version,
            final(registry).last_updated == old(registry).last_updated,
    {
        registry.set_tool_execution_mode(id, mode)
    }

    /// Sets a tool's default turn lifetime; answers whether it exists.
    pub fn set_tool_default_turns(registry: &mut ToolsRegistry, id: &str, turns: i32) -> (found: bool)
        ensures
            found == old(registry).tools().contains_key(id@),
            found ==> final(registry).tools() == old(registry).tools().insert(
                id@,
                ToolEntryModel { default_turns: turns, ..old(registry).tools()[id@] },
            ),
            !found ==> final(registry).tools() == old(registry).tools(),
            distinct_keys(old(registry).installed_tools@) ==> distinct_keys(final(registry).installed_tools@),
            final(registry).default_security_mode == old(registry).default_security_mode,
            final(registry).version == old(registry).version,
            final(registry).last_updated == old(registry).last_updated,
    {
        registry.set_tool_default_turns(id, turns)
    }

    /// Sets a tool's security mode; answers whether it exists.
    pub fn set_tool_security_mode(registry: &mut ToolsRegistry, id: &str, mode: SecurityMode) -> (found: bool)
        ensures
            found == old(registry).tools().contains_key(id@),
            found ==> final(registry).tools() == old(registry).tools().insert(
                id@,
                ToolEntryModel { security_mode: mode, ..old(registry).tools()[id@] },
            ),
            !found ==> final(registry).tools() == old(registry).tools(),
            distinct_keys(old(registry).installed_tools@) ==> distinct_keys(final(registry).installed_tools@),
            final(registry).default_security_mode == old(registry).default_security_mode,
            final(registry).version == old(registry).version,
            final(registry).last_updated == old(registry).last_updated,
    {
        registry.set_tool_security_mode(id, mode)
    }

    /// Skills whose triggers occur in the query.
    pub fn match_skills(router: &SkillRouter, query: &str) -> (r: Vec<String>)
        ensures
            views(r@) == matched_ids(router.keyword_map@, lowercase_seq(query@)),
    {
        router.match_query(query)
    }

    /// A copy of a skill's instructions.
    pub fn get_skill_instructions(router: &SkillRouter, skill_id: &str) -> (r: Option<String>)
        ensures
            match r {
                Some(s) => keyed_view(router.parsed_cache@).contains_key(skill_id@) && s@ == keyed_view(
                    router.parsed_cache@,
                )[skill_id@].prompt_instructions@,
                None => !keyed_view(router.parsed_cache@).contains_key(skill_id@),
            },
    {
        match router.get_instructions(skill_id) {
            Some(s) => Some(String::from_str(s)),
            None => None,
        }
    }

    /// Routes an emitted function name to its component.
    pub fn resolve_function_target(fn_name: &str, active_tool_ids: &Vec<String>, registry: Option<&ToolsRegistry>, ws: &ToolWorkspace) -> (r: Option<ResolvedToolTarget>)
        ensures
            match r {
                Some(t) => resolve_target_spec(fn_name@, views(active_tool_ids@), registry, ws) == Some(t@),
                None => resolve_target_spec(fn_name@, views(active_tool_ids@), registry, ws) is None,
            },
    {
        ToolPromptCompiler::resolve_target(fn_name, active_tool_ids, registry, ws)
    }

    /// Wraps a tool's output (already serialised as JSON text) in a
    /// `<tool_response>` block.
    pub fn format_tool_response(name: &str, content_json: &str) -> (r: String)
        ensures
            r@ == "<tool_response>\n{\"name\": \""@ + name@ + "\", \"content\": "@ + content_json@
                + "}\n</tool_response>"@,
    {
        let a = concat("<tool_response>\n{\"name\": \"", name);
        let b = concat(a.as_str(), "\", \"content\": ");
        let c = concat(b.as_str(), content_json);
        concat(c.as_str(), "}\n</tool_response>")
    }

    /// The content of a tool response for raw output: the output's own
    /// JSON text where serde_json parsed it (`rewritten`), else an object
    /// whose `output` member is the raw text.
    pub fn raw_response_content(rewritten: Option<String>, raw_content: &str) -> (r: String)
        ensures
            r@ == match rewritten {
                Some(t) => t@,
                None => "{\"output\":"@ + json_quote(raw_content@) + "}"@,
            },
    {
        match rewritten {
            Some(t) => t,
            None => {
                let q = quote_json(raw_content);
                let a = concat("{\"output\":", q.as_str());
                concat(a.as_str(), "}")
            },
        }
    }

    /// Wraps a tool's raw output in a `<tool_response>` block: as JSON where
    /// it is JSON, else as the `output` member of an object.
    pub fn format_tool_response_raw(name: &str, raw_content: &str) -> (r: String)
        ensures
            r@ == "<tool_response>\n{\"name\": \""@ + name@ + "\", \"content\": "@ + match json_rewritten(raw_content@) {
                Some(t) => t,
                None => "{\"output\":"@ + json_quote(raw_content@) + "}"@,
            } + "}\n</tool_response>"@,
    {
        let rewritten = rewrite_json(raw_content);
        let content = Self::raw_response_content(rewritten, raw_content);
        Self::format_tool_response(name, content.as_str())
    }

    /// Does a call go to the sandboxed terminal?
    pub fn is_terminal_request(category: &str, name: &str, tool_name: Option<&str>) -> (r: bool)
        ensures
            r == (category@ == "terminal"@ || name@ == "run_command"@ || name@ == "terminal"@ || name@ == "bash"@
                || match tool_name {
                Some(t) => t@ == "run_command"@ || t@ == "bash"@ || t@ == "terminal"@,
                None => false,
            }),
    {
        str_eq(category, "terminal") || str_eq(name, "run_command") || str_eq(name, "terminal") || str_eq(
            name,
            "bash",
        ) || match tool_name {
            Some(t) => str_eq(t, "run_command") || str_eq(t, "bash") || str_eq(t, "terminal"),
            None => false,
        }
    }

    /// The terminal request in a payload's text: its JSON fields where
    /// serde_json reads a document from it, else the payload as command
    /// (see [`Self::terminal_request`]).
    pub fn terminal_request_from_payload(payload: &str) -> (r: TerminalRequest)
        ensures
            (r.command@, crate::text::opt_view(r.cwd), crate::text::opt_view(r.stdin), r.timeout_secs)
                == terminal_request_spec(payload@, json_document(payload@)),
    {
        match parse_json(payload) {
            Some(v) => Self::terminal_request(payload, Some(&v)),
            None => Self::terminal_request(payload, None),
        }
    }

    /// The arguments of an MCP tool call: the payload's JSON document where
    /// serde_json reads one, else an object whose `raw` member is the
    /// payload.
    pub fn mcp_arguments(payload: &str) -> (r: Json)
        ensures
            r@ == match json_document(payload@) {
                Some(v) => v,
                None => JsonView::Object(seq![("raw"@, JsonView::Str(payload@))]),
            },
    {
        match parse_json(payload) {
            Some(v) => v,
            None => {
                let raw = Json::Str(String::from_str(payload));
                assert(raw@ == JsonView::Str(payload@));
                let mut m: Vec<(String, Json)> = Vec::new();
                m.push((String::from_str("raw"), raw));
                let r = Json::Object(m);
                assert(r@ == JsonView::Object(seq![("raw"@, JsonView::Str(payload@))])) by {
                    assert(m@.len() == 1);
                    assert(m@[0].0@ == "raw"@);
                    assert(m@[0].1@ == JsonView::Str(payload@));
                    if let JsonView::Object(ms) = r@ {
                        assert(ms =~= seq![("raw"@, JsonView::Str(payload@))]);
                    }
                }
                r
            },
        }
    }

    /// The terminal request in a payload: its JSON fields when it parsed
    /// (`parsed`), else the whole payload as the command.
    pub fn terminal_request(payload: &str, parsed: Option<&Json>) -> (r: TerminalRequest)
        ensures
            (r.command@, crate::text::opt_view(r.cwd), crate::text::opt_view(r.stdin), r.timeout_secs)
                == terminal_request_spec(payload@, oview(parsed)),
    {
        match parsed {
            None => TerminalRequest { command: String::from_str(payload), cwd: None, stdin: None, timeout_secs: None },
            Some(v) => {
                let csrc = match v.get("command") {
                    Some(c) => Some(c),
                    None => v.get("cmd"),
                };
                let command = match str_opt(csrc) {
                    Some(c) => String::from_str(c),
                    None => String::from_str(payload),
                };
                let cwd = match str_opt(v.get("cwd")) {
                    Some(c) => Some(String::from_str(c)),
                    None => None,
                };
                let ssrc = match v.get("stdin") {
                    Some(c) => Some(c),
                    None => v.get("input"),
                };
                let stdin = match str_opt(ssrc) {
                    Some(c) => Some(String::from_str(c)),
                    None => None,
                };
                let timeout_secs = match v.get("timeout") {
                    Some(t) => t.as_u64(),
                    None => None,
                };
                TerminalRequest { command, cwd, stdin, timeout_secs }
            },
        }
    }

    /// What a skill call answers when the skill has no `SKILL.md` to show.
    pub fn skill_ready_message(name: &str) -> (r: String)
        ensures
            r@ == "Skill '"@ + name@ + "' active. Ready for workflow execution."@,
    {
        let a = concat("Skill '", name);
        concat(a.as_str(), "' active. Ready for workflow execution.")
    }

    /// The MCP tool to call: the requested one, else the server's name.
    pub fn mcp_target_tool<'a>(name: &'a str, tool_name: Option<&'a str>) -> (r: &'a str)
        ensures
            r@ == match tool_name {
                Some(t) => t@,
                None => name@,
            },
    {
        match tool_name {
            Some(t) => t,
            None => name,
        }
    }

    /// Looks a component up in its folder, then the alternative folder, then
    /// (when asked) the registry's folder for it.
    fn locate(ws: &ToolWorkspace, registry: Option<&ToolsRegistry>, primary: String, alt: String, use_registry: bool, name: &str, what: &str) -> (r: Result<String, String>)
        ensures
            match r {
                Ok(p) => locate_spec(ws, registry, primary@, alt@, use_registry, name@, what@) == Ok::<Seq<char>, Seq<char>>(p@),
                Err(e) => locate_spec(ws, registry, primary@, alt@, use_registry, name@, what@) == Err::<Seq<char>, Seq<char>>(e@),
            },
    {
        if contains_str(&ws.existing_paths, primary.as_str()) {
            return Ok(primary);
        }
        if contains_str(&ws.existing_paths, alt.as_str()) {
            return Ok(alt);
        }
        if use_registry {
            if let Some(rg) = registry {
                if let Some(entry) = rg.get_tool(name) {
                    if contains_str(&ws.existing_paths, entry.local_dir.as_str()) {
                        return Ok(entry.local_dir.clone());
                    }
                }
            }
        }
        let a = concat(what, " '");
        let b = concat(a.as_str(), name);
        let c = concat(b.as_str(), "' not found in ");
        let d = debug_path(primary.as_str());
        Err(concat(c.as_str(), d.as_str()))
    }

    /// The folder of a plugin run by name: the plugins folder, the global
    /// plugins folder, then the registry's folder for it.
    pub fn resolve_plugin_dir(ws: &ToolWorkspace, registry: Option<&ToolsRegistry>, plugin_name: &str) -> (r: Result<String, String>)
        ensures
            ({
                let primary = join_seq(ws.dirs.plugins_dir@, plugin_name@);
                let alt = join_seq(join_seq(ws.dirs.global_dir@, "plugins"@), plugin_name@);
                let want = locate_spec(ws, registry, primary, alt, true, plugin_name@, "Plugin"@);
                match r {
                    Ok(p) => want == Ok::<Seq<char>, Seq<char>>(p@),
                    Err(e) => want == Err::<Seq<char>, Seq<char>>(e@),
                }
            }),
    {
        let primary = join(ws.dirs.plugins_dir.as_str(), plugin_name);
        let g = join(ws.dirs.global_dir.as_str(), "plugins");
        let alt = join(g.as_str(), plugin_name);
        Self::locate(ws, registry, primary, alt, true, plugin_name, "Plugin")
    }

    /// The folder of an MCP server called by name: the MCP folder, the
    /// global MCP folder, then the registry's folder for it.
    pub fn resolve_mcp_dir(ws: &ToolWorkspace, registry: Option<&ToolsRegistry>, mcp_name: &str) -> (r: Result<String, String>)
        ensures
            ({
                let primary = join_seq(ws.dirs.mcp_dir@, mcp_name@);
                let alt = join_seq(join_seq(ws.dirs.global_dir@, "mcp"@), mcp_name@);
                let want = locate_spec(ws, registry, primary, alt, true, mcp_name@, "MCP server"@);
                match r {
                    Ok(p) => want == Ok::<Seq<char>, Seq<char>>(p@),
                    Err(e) => want == Err::<Seq<char>, Seq<char>>(e@),
                }
            }),
    {
        let primary = join(ws.dirs.mcp_dir.as_str(), mcp_name);
        let g = join(ws.dirs.global_dir.as_str(), "mcp");
        let alt = join(g.as_str(), mcp_name);
        Self::locate(ws, registry, primary, alt, true, mcp_name, "MCP server")
    }

    /// The folder of an MCP server whose tools are listed by name: the MCP
    /// folder, then the global MCP folder.
    pub fn resolve_mcp_list_dir(ws: &ToolWorkspace, mcp_name: &str) -> (r: Result<String, String>)
        ensures
            ({
                let primary = join_seq(ws.dirs.mcp_dir@, mcp_name@);
                let alt = join_seq(join_seq(ws.dirs.global_dir@, "mcp"@), mcp_name@);
                let want = locate_spec(ws, None, primary, alt, false, mcp_name@, "MCP server"@);
                match r {
                    Ok(p) => want == Ok::<Seq<char>, Seq<char>>(p@),
                    Err(e) => want == Err::<Seq<char>, Seq<char>>(e@),
                }
            }),
    {
        let primary = join(ws.dirs.mcp_dir.as_str(), mcp_name);
        let g = join(ws.dirs.global_dir.as_str(), "mcp");
        let alt = join(g.as_str(), mcp_name);
        Self::locate(ws, None, primary, alt, false, mcp_name, "MCP server")
    }
}

} // verus!
