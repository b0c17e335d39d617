//! Routing of the function calls that a model emits to the component that
//! serves them (plugin, MCP server or skill).
use vstd::prelude::*;
use vstd::utf8::encode_utf8;
use crate::documents::{json_document, json_pretty, parse_json, pretty_json_array, text_document};
use crate::json::{array, jget, json_views, Json, JsonView, oarray, object, oget, or_default, or_else, ostr, oview, str_opt, string};
use crate::keyed::{find_key, keyed_view, lemma_first_match_view};
use crate::paths::{join, join_seq};
use crate::text::{
    concat, clone_strings, contains, contains_seq, contains_str, eq_ignore_ascii_case, eq_ignore_ascii_case_seq, first_where,
    lemma_first_where_is, lemma_first_where_none, opt_view, split_char, split_seq, starts_with,
    starts_with_seq, str_eq, trim, trim_seq, views, lowercase_seq, ends_with_seq, to_lowercase, ends_with, join_parts, join_strings, byte_len,
};
use crate::tools::registry::index::ToolsRegistry;
use crate::tools::skills::parser::ParsedSkill;
use crate::tools::skills::router::SkillRouter;

verus! {

/// Where a function call emitted by a model is routed.
#[derive(Debug, Clone, PartialEq, Eq)]
pub struct ResolvedToolTarget {
    /// Tool category: `mcp`, `plugin` or `skill`.
    pub category: String,
    /// Root component id (directory or registry key).
    pub component_id: String,
    /// Function inside the component.
    pub sub_function: Option<String>,
}

/// A routing target with its texts as character sequences.
pub ghost struct TargetView {
    pub category: Seq<char>,
    pub component_id: Seq<char>,
    pub sub_function: Option<Seq<char>>,
}

impl View for ResolvedToolTarget {
    type V = TargetView;

    open spec fn view(&self) -> TargetView {
        TargetView {
            category: self.category@,
            component_id: self.component_id@,
            sub_function: opt_view(self.sub_function),
        }
    }
}

/// The tool directories of the engine's environment.
#[derive(Debug)]
pub struct ToolDirs {
    pub skills_dir: String,
    pub plugins_dir: String,
    pub mcp_dir: String,
    pub global_dir: String,
}

/// What routing reads from the disk, gathered beforehand: the paths that
/// exist, the tool names cached for MCP server folders, and the function
/// names that plugin and skill folders declare in their `package.json`
/// (`functions` entries, then `tools` entries).
#[derive(Debug)]
pub struct ToolWorkspace {
    pub dirs: ToolDirs,
    pub existing_paths: Vec<String>,
    /// Folder to the tool names cached for it.
    pub cached_mcp_tools: Vec<(String, Vec<String>)>,
    /// Folder to the function names its manifest declares.
    pub manifest_functions: Vec<(String, Vec<String>)>,
    /// Server id to the folder of each MCP server that was connected by its
    /// folder, wherever that folder lies (inside the tool folders or not).
    pub mcp_server_dirs: Vec<(String, String)>,
}

/// Does path `p` exist in the workspace?
pub open spec fn path_exists(ws: &ToolWorkspace, p: Seq<char>) -> bool {
    views(ws.existing_paths@).contains(p)
}

/// Category and folder of a tool found by its folder alone: the skills,
/// plugins and MCP folders in turn, then the global plugins folder; else
/// `unknown` with the id itself as folder.
pub open spec fn fs_tool(ws: &ToolWorkspace, id: Seq<char>) -> (Seq<char>, Seq<char>) {
    let sp = join_seq(ws.dirs.skills_dir@, id);
    let pp = join_seq(ws.dirs.plugins_dir@, id);
    let mp = join_seq(ws.dirs.mcp_dir@, id);
    let gp = join_seq(join_seq(ws.dirs.global_dir@, "plugins"@), id);
    if path_exists(ws, sp) {
        ("skill"@, sp)
    } else if path_exists(ws, pp) {
        ("plugin"@, pp)
    } else if path_exists(ws, mp) {
        ("mcp"@, mp)
    } else if path_exists(ws, gp) {
        ("plugin"@, gp)
    } else {
        ("unknown"@, id)
    }
}

/// The folder of a connected MCP server with id `id`, if one is known.
pub open spec fn mcp_server_dir(ws: &ToolWorkspace, id: Seq<char>) -> Option<Seq<char>> {
    if keyed_view(ws.mcp_server_dirs@).contains_key(id) {
        Some(keyed_view(ws.mcp_server_dirs@)[id]@)
    } else {
        None
    }
}

/// Category and folder of a component found without the registry: what its
/// folder under the tool folders says, else the folder of a connected MCP
/// server with that id.
pub open spec fn located_tool(ws: &ToolWorkspace, id: Seq<char>) -> (Seq<char>, Seq<char>) {
    if fs_tool(ws, id).0 == "unknown"@ && mcp_server_dir(ws, id) is Some {
        ("mcp"@, mcp_server_dir(ws, id)->0)
    } else {
        fs_tool(ws, id)
    }
}

/// Category and folder of a component: its registry entry when it has one,
/// else where it is located (see [`located_tool`]).
pub open spec fn component_info(reg: Option<&ToolsRegistry>, ws: &ToolWorkspace, id: Seq<char>) -> (Seq<char>, Seq<char>) {
    match reg {
        Some(r) => if r.tools().contains_key(id) {
            (r.tools()[id].category, r.tools()[id].local_dir)
        } else {
            located_tool(ws, id)
        },
        None => located_tool(ws, id),
    }
}

/// Does some name of `names` equal `n` without regard to ASCII case?
pub open spec fn names_hit(names: Seq<Seq<char>>, n: Seq<char>) -> bool {
    exists|i: int| 0 <= i < names.len() && eq_ignore_ascii_case_seq(#[trigger] names[i], n)
}

/// The names listed for folder `dir` in a table, if any.
pub open spec fn names_of(table: Seq<(String, Vec<String>)>, dir: Seq<char>) -> Option<Seq<Seq<char>>> {
    if keyed_view(table).contains_key(dir) {
        Some(views(keyed_view(table)[dir]@))
    } else {
        None
    }
}

/// Does component `id` declare a function named `n`?
pub open spec fn declares_function(reg: Option<&ToolsRegistry>, ws: &ToolWorkspace, n: Seq<char>, id: Seq<char>) -> bool {
    let (cat, dir) = component_info(reg, ws, id);
    if cat == "mcp"@ {
        match names_of(ws.cached_mcp_tools@, dir) {
            Some(names) => names_hit(names, n),
            None => false,
        }
    } else if cat == "plugin"@ || cat == "skill"@ {
        match names_of(ws.manifest_functions@, dir) {
            Some(names) => names_hit(names, n),
            None => false,
        }
    } else {
        false
    }
}

/// Declaring a function named `n`, as a predicate on component ids.
pub open spec fn declares(reg: Option<&ToolsRegistry>, ws: &ToolWorkspace, n: Seq<char>) -> spec_fn(Seq<char>) -> bool {
    |id: Seq<char>| declares_function(reg, ws, n, id)
}

/// Equality with `n` without regard to ASCII case, as a predicate.
pub open spec fn same_name(n: Seq<char>) -> spec_fn(Seq<char>) -> bool {
    |x: Seq<char>| eq_ignore_ascii_case_seq(x, n)
}

/// Ids of the registry, in order.
pub open spec fn registry_ids(reg: Option<&ToolsRegistry>) -> Seq<Seq<char>> {
    match reg {
        Some(r) => r.installed_tools@.map_values(|p: (String, crate::tools::registry::types::ToolEntry)| p.0@),
        None => Seq::empty(),
    }
}

/// The candidates followed by the registry ids that are not yet listed.
pub open spec fn search_pool(cands: Seq<Seq<char>>, ids: Seq<Seq<char>>) -> Seq<Seq<char>>
    decreases ids.len(),
{
    if ids.len() == 0 {
        cands
    } else {
        let p = search_pool(cands, ids.drop_last());
        if p.contains(ids.last()) {
            p
        } else {
            p.push(ids.last())
        }
    }
}

/// A target with a sub-function.
pub open spec fn target(category: Seq<char>, id: Seq<char>, sub: Option<Seq<char>>) -> TargetView {
    TargetView { category, component_id: id, sub_function: sub }
}

/// The explicit `category:component[:function]` syntax.
pub open spec fn colon_target(parts: Seq<Seq<char>>) -> Option<TargetView> {
    if parts.len() == 2 {
        if parts[0] == "plugin"@ || parts[0] == "mcp"@ || parts[0] == "skill"@ {
            Some(target(parts[0], parts[1], None))
        } else {
            Some(target("mcp"@, parts[0], Some(parts[1])))
        }
    } else if parts.len() >= 3 {
        Some(target(parts[0], parts[1], Some(parts[2])))
    } else {
        None
    }
}

/// Well-known function names served by well-known components that exist.
pub open spec fn heuristic_target(ws: &ToolWorkspace, n: Seq<char>) -> Option<TargetView> {
    if (starts_with_seq(n, "math_"@) || n == "calculate"@ || n == "evaluate_expression"@) && path_exists(
        ws,
        join_seq(ws.dirs.plugins_dir@, "math"@),
    ) {
        Some(target("plugin"@, "math"@, Some(n)))
    } else if (n == "read_file"@ || n == "write_file"@ || n == "list_directory"@ || n == "directory_tree"@)
        && path_exists(ws, join_seq(ws.dirs.mcp_dir@, "filesystem"@)) {
        Some(target("mcp"@, "filesystem"@, Some(n)))
    } else if (n == "web_search"@ || n == "search"@) && path_exists(ws, join_seq(ws.dirs.plugins_dir@, "web-search"@)) {
        Some(target("plugin"@, "web-search"@, Some(n)))
    } else {
        None
    }
}

/// Where the function call `fn_name` goes, given the session's candidate
/// tool ids, the registry and the workspace.
pub open spec fn resolve_target_spec(fn_name: Seq<char>, cands: Seq<Seq<char>>, reg: Option<&ToolsRegistry>, ws: &ToolWorkspace) -> Option<TargetView> {
    let n = trim_seq(fn_name);
    let colon = if contains_seq(n, ":"@) {
        colon_target(split_seq(n, ':'))
    } else {
        None
    };
    let reg_hit = match reg {
        Some(r) => r.tools().contains_key(n),
        None => false,
    };
    let pool = search_pool(cands, registry_ids(reg));
    if n.len() == 0 {
        None
    } else if colon is Some {
        colon
    } else if first_where(cands, same_name(n)) is Some {
        let c = cands[first_where(cands, same_name(n))->0];
        Some(target(fs_tool(ws, c).0, c, None))
    } else if reg_hit {
        Some(target(reg->0.tools()[n].category, reg->0.tools()[n].id, None))
    } else if fs_tool(ws, n).0 != "unknown"@ {
        Some(target(fs_tool(ws, n).0, n, None))
    } else if first_where(pool, declares(reg, ws, n)) is Some {
        let c = pool[first_where(pool, declares(reg, ws, n))->0];
        Some(target(component_info(reg, ws, c).0, c, Some(n)))
    } else {
        heuristic_target(ws, n)
    }
}

/// The candidates stand first in the search pool, in their order.
pub proof fn lemma_search_pool_prefix(cands: Seq<Seq<char>>, ids: Seq<Seq<char>>)
    ensures
        search_pool(cands, ids).len() >= cands.len(),
        forall|i: int| 0 <= i < cands.len() ==> #[trigger] search_pool(cands, ids)[i] == cands[i],
    decreases ids.len(),
{
    if ids.len() > 0 {
        lemma_search_pool_prefix(cands, ids.drop_last());
    }
}

/// A function name that a connected MCP server's cached tools list, and
/// that neither the explicit syntax, a candidate's or registered
/// component's own name, nor a tool folder claims, routes to that server
/// when it is the session's candidate, wherever its folder lies.
pub proof fn lemma_routes_to_connected_mcp(fn_name: Seq<char>, c: Seq<char>, reg: Option<&ToolsRegistry>, ws: &ToolWorkspace)
    requires
        trim_seq(fn_name).len() > 0,
        !contains_seq(trim_seq(fn_name), ":"@),
        !eq_ignore_ascii_case_seq(c, trim_seq(fn_name)),
        match reg {
            Some(r) => !r.tools().contains_key(trim_seq(fn_name)) && !r.tools().contains_key(c),
            None => true,
        },
        fs_tool(ws, trim_seq(fn_name)).0 == "unknown"@,
        fs_tool(ws, c).0 == "unknown"@,
        mcp_server_dir(ws, c) is Some,
        match names_of(ws.cached_mcp_tools@, mcp_server_dir(ws, c)->0) {
            Some(names) => names_hit(names, trim_seq(fn_name)),
            None => false,
        },
    ensures
        resolve_target_spec(fn_name, seq![c], reg, ws) == Some(target("mcp"@, c, Some(trim_seq(fn_name)))),
{
    let n = trim_seq(fn_name);
    let cands = seq![c];
    let pool = search_pool(cands, registry_ids(reg));
    lemma_first_where_none(cands, same_name(n));
    lemma_search_pool_prefix(cands, registry_ids(reg));
    assert(pool[0] == c);
    assert(declares(reg, ws, n)(pool[0]));
    lemma_first_where_is(pool, declares(reg, ws, n), 0);
}

/// Does some name of `names` equal `n` without regard to ASCII case?
fn any_name(names: &Vec<String>, n: &str) -> (r: bool)
    ensures
        r == names_hit(views(names@), n@),
{
    let mut i: usize = 0;
    while i < names.len()
        invariant
            i <= names@.len(),
            forall|j: int| 0 <= j < i ==> !eq_ignore_ascii_case_seq(#[trigger] views(names@)[j], n@),
        decreases names@.len() - i,
    {
        if eq_ignore_ascii_case(names[i].as_str(), n) {
            assert(eq_ignore_ascii_case_seq(views(names@)[i as int], n@));
            return true;
        }
        assert(views(names@)[i as int] == names@[i as int]@);
        i = i + 1;
    }
    false
}

/// Does the name table list, for `dir`, a name equal to `n` without regard
/// to ASCII case?
fn table_hit(table: &Vec<(String, Vec<String>)>, dir: &str, n: &str) -> (r: bool)
    ensures
        r == match names_of(table@, dir@) {
            Some(names) => names_hit(names, n@),
            None => false,
        },
{
    match find_key(table, dir) {
        Some(i) => {
            proof {
                lemma_first_match_view(table@, dir@, i as int);
            }
            any_name(&table[i].1, n)
        },
        None => false,
    }
}

/// A JSON string.
pub open spec fn jtext(s: Seq<char>) -> JsonView {
    JsonView::Str(s)
}

/// A `{"type": t, "description": d}` property.
pub open spec fn typed_property(t: Seq<char>, d: Seq<char>) -> JsonView {
    JsonView::Object(seq![("type"@, jtext(t)), ("description"@, jtext(d))])
}

/// The function schema of an OpenAI-style tool.
pub open spec fn function_schema(name: Seq<char>, desc: Seq<char>, params: JsonView) -> JsonView {
    JsonView::Object(
        seq![
            ("type"@, jtext("function"@)),
            ("function"@, JsonView::Object(seq![("name"@, jtext(name)), ("description"@, jtext(desc)), ("parameters"@, params)])),
        ],
    )
}

/// An object schema without properties.
pub open spec fn empty_object_schema() -> JsonView {
    JsonView::Object(seq![("type"@, jtext("object"@)), ("properties"@, JsonView::Object(Seq::empty()))])
}

/// An object schema with the given properties and required names.
pub open spec fn object_schema(props: JsonView, required: Seq<Seq<char>>) -> JsonView {
    JsonView::Object(
        seq![
            ("type"@, jtext("object"@)),
            ("properties"@, props),
            ("required"@, JsonView::Array(required.map_values(|r: Seq<char>| jtext(r)))),
        ],
    )
}

/// The schema of one entry of a manifest's `functions` (or, with
/// `tools_list`, `tools`) array.
pub open spec fn manifest_item_schema(f: JsonView, plugin_id: Seq<char>, fallback_desc: Seq<char>, tools_list: bool) -> JsonView {
    function_schema(
        or_default(ostr(jget(f, "name"@)), plugin_id),
        or_default(ostr(jget(f, "description"@)), fallback_desc),
        or_default(
            if tools_list {
                or_else(jget(f, "parameters"@), jget(f, "inputSchema"@))
            } else {
                jget(f, "parameters"@)
            },
            empty_object_schema(),
        ),
    )
}

/// The schemas that a plugin manifest lists.
pub open spec fn listed_plugin_schemas(manifest: Option<JsonView>, plugin_id: Seq<char>, fallback_desc: Seq<char>) -> Seq<JsonView> {
    match manifest {
        Some(v) => match oarray(jget(v, "functions"@)) {
            Some(fs) => fs.map_values(|f: JsonView| manifest_item_schema(f, plugin_id, fallback_desc, false)),
            None => match oarray(jget(v, "tools"@)) {
                Some(ts) => ts.map_values(|t: JsonView| manifest_item_schema(t, plugin_id, fallback_desc, true)),
                None => Seq::empty(),
            },
        },
        None => Seq::empty(),
    }
}

/// The schema synthesised for a plugin that lists no function.
pub open spec fn synthesized_plugin_schema(plugin_id: Seq<char>, name: Seq<char>, fallback_desc: Seq<char>) -> JsonView {
    let desc = if fallback_desc.len() > 0 {
        fallback_desc
    } else if name.len() > 0 {
        "Execute "@ + name + " plugin operation"@
    } else {
        "Execute "@ + plugin_id + " tool operation"@
    };
    let is_math = contains_seq(plugin_id, "math"@) || contains_seq(plugin_id, "calc"@);
    let is_search = contains_seq(plugin_id, "search"@);
    let props = if is_math {
        JsonView::Object(
            seq![
                ("expression"@, typed_property("string"@, "Mathematical formula to evaluate (e.g. 'sqrt(256) * 14.5')"@)),
                ("precision"@, typed_property("integer"@, "Decimal precision places (default: 4)"@)),
            ],
        )
    } else if is_search {
        JsonView::Object(seq![("query"@, typed_property("string"@, "Search query or target URL"@))])
    } else {
        JsonView::Object(seq![("input"@, typed_property("string"@, "Input argument string or JSON string to execute"@))])
    };
    let required = if is_math {
        seq!["expression"@]
    } else if is_search {
        seq!["query"@]
    } else {
        seq!["input"@]
    };
    function_schema(plugin_id, desc, object_schema(props, required))
}

/// The function schemas of a plugin: those its manifest lists, else one
/// synthesised from its id, name and description.
pub open spec fn plugin_schemas(manifest: Option<JsonView>, plugin_id: Seq<char>, name: Seq<char>, fallback_desc: Seq<char>) -> Seq<JsonView> {
    let listed = listed_plugin_schemas(manifest, plugin_id, fallback_desc);
    if listed.len() > 0 {
        listed
    } else {
        seq![synthesized_plugin_schema(plugin_id, name, fallback_desc)]
    }
}

/// Schemas of the named entries of an MCP tool list, in order; entries
/// without a name are skipped. The parameters come from `inputSchema`
/// (then, with `also_parameters`, from `parameters`).
pub open spec fn named_tool_schemas(items: Seq<JsonView>, fallback_desc: Seq<char>, also_parameters: bool) -> Seq<JsonView>
    decreases items.len(),
{
    if items.len() == 0 {
        Seq::empty()
    } else {
        let pre = named_tool_schemas(items.drop_last(), fallback_desc, also_parameters);
        let t = items.last();
        match ostr(jget(t, "name"@)) {
            Some(n) => pre.push(
                function_schema(
                    n,
                    or_default(ostr(jget(t, "description"@)), fallback_desc),
                    or_default(
                        if also_parameters {
                            or_else(jget(t, "inputSchema"@), jget(t, "parameters"@))
                        } else {
                            jget(t, "inputSchema"@)
                        },
                        empty_object_schema(),
                    ),
                ),
            ),
            None => pre,
        }
    }
}

/// The bridge schema of an MCP server that lists no tool.
pub open spec fn mcp_bridge_schema(mcp_id: Seq<char>, fallback_name: Seq<char>, fallback_desc: Seq<char>) -> JsonView {
    let desc = if fallback_desc.len() > 0 {
        fallback_desc
    } else {
        "Model Context Protocol tool bridge for "@ + fallback_name
    };
    function_schema(
        mcp_id,
        desc,
        object_schema(
            JsonView::Object(
                seq![
                    ("command"@, typed_property("string"@, "MCP operation or action to execute"@)),
                    ("arguments"@, typed_property("object"@, "Arguments payload dictionary"@)),
                ],
            ),
            seq!["command"@],
        ),
    )
}

/// The function schemas of an MCP server: those its live discovery listed
/// (`discovered`, `None` when discovery failed), else those its manifest
/// lists, else a bridge schema.
pub open spec fn mcp_schemas(discovered: Option<Seq<JsonView>>, manifest: Option<JsonView>, mcp_id: Seq<char>, fallback_name: Seq<char>, fallback_desc: Seq<char>) -> Seq<JsonView> {
    let live = match discovered {
        Some(items) => named_tool_schemas(items, fallback_desc, false),
        None => Seq::empty(),
    };
    let stat = match manifest {
        Some(v) => match oarray(jget(v, "tools"@)) {
            Some(ts) => named_tool_schemas(ts, fallback_desc, true),
            None => Seq::empty(),
        },
        None => Seq::empty(),
    };
    if live.len() > 0 {
        live
    } else if stat.len() > 0 {
        stat
    } else {
        seq![mcp_bridge_schema(mcp_id, fallback_name, fallback_desc)]
    }
}

/// Builds `{"type": t, "description": d}`.
fn typed_property_json(t: &str, d: &str) -> (r: Json)
    ensures
        r@ == typed_property(t@, d@),
{
    let mut m: Vec<(String, Json)> = Vec::new();
    m.push((String::from_str("type"), string(t)));
    m.push((String::from_str("description"), string(d)));
    let r = object(m);
    assert(r@ =~= typed_property(t@, d@)) by {
        assert(m@.map_values(|p: (String, Json)| (p.0@, p.1@)) =~= seq![("type"@, jtext(t@)), ("description"@, jtext(d@))]);
    }
    r
}

/// Builds an OpenAI-style function schema.
fn function_schema_json(name: &str, desc: &str, params: Json) -> (r: Json)
    ensures
        r@ == function_schema(name@, desc@, params@),
{
    let ghost pv = params@;
    let mut inner: Vec<(String, Json)> = Vec::new();
    inner.push((String::from_str("name"), string(name)));
    inner.push((String::from_str("description"), string(desc)));
    inner.push((String::from_str("parameters"), params));
    let f = object(inner);
    assert(f@ =~= JsonView::Object(seq![("name"@, jtext(name@)), ("description"@, jtext(desc@)), ("parameters"@, pv)])) by {
        assert(inner@.map_values(|p: (String, Json)| (p.0@, p.1@)) =~= seq![("name"@, jtext(name@)), ("description"@, jtext(desc@)), ("parameters"@, pv)]);
    }
    let ghost fv = f@;
    let mut outer: Vec<(String, Json)> = Vec::new();
    outer.push((String::from_str("type"), string("function")));
    outer.push((String::from_str("function"), f));
    let r = object(outer);
    assert(r@ =~= function_schema(name@, desc@, pv)) by {
        assert(outer@.map_values(|p: (String, Json)| (p.0@, p.1@)) =~= seq![("type"@, jtext("function"@)), ("function"@, fv)]);
    }
    r
}

/// Builds an object schema without properties.
fn empty_object_schema_json() -> (r: Json)
    ensures
        r@ == empty_object_schema(),
{
    let mut m: Vec<(String, Json)> = Vec::new();
    m.push((String::from_str("type"), string("object")));
    m.push((String::from_str("properties"), object(Vec::new())));
    let r = object(m);
    assert(r@ =~= empty_object_schema()) by {
        assert(Seq::<(String, Json)>::empty().map_values(|p: (String, Json)| (p.0@, p.1@)) =~= Seq::<(Seq<char>, JsonView)>::empty());
        assert(m@.map_values(|p: (String, Json)| (p.0@, p.1@)) =~= seq![("type"@, jtext("object"@)), ("properties"@, JsonView::Object(Seq::empty()))]);
    }
    r
}

/// Builds an object schema with the given properties and one required name.
fn object_schema_json(props: Json, required: &str) -> (r: Json)
    ensures
        r@ == object_schema(props@, seq![required@]),
{
    let ghost pv = props@;
    let mut req: Vec<Json> = Vec::new();
    req.push(string(required));
    let ra = array(req);
    assert(ra@ =~= JsonView::Array(seq![required@].map_values(|r: Seq<char>| jtext(r)))) by {
        assert(crate::json::json_views(req@) =~= seq![required@].map_values(|r: Seq<char>| jtext(r)));
    }
    let ghost rv = ra@;
    let mut m: Vec<(String, Json)> = Vec::new();
    m.push((String::from_str("type"), string("object")));
    m.push((String::from_str("properties"), props));
    m.push((String::from_str("required"), ra));
    let r = object(m);
    assert(r@ =~= object_schema(pv, seq![required@])) by {
        assert(m@.map_values(|p: (String, Json)| (p.0@, p.1@)) =~= seq![("type"@, jtext("object"@)), ("properties"@, pv), ("required"@, rv)]);
    }
    r
}

/// The parameters of a manifest entry, copied, or an empty object schema.
fn params_or_empty(p: Option<&Json>) -> (r: Json)
    ensures
        r@ == or_default(oview(p), empty_object_schema()),
{
    match p {
        Some(v) => v.deep_copy(),
        None => empty_object_schema_json(),
    }
}

/// What compiling tools reads from the disk, gathered beforehand: the
/// `SKILL.md` files that could be read (by path, parsed), the `package.json`
/// files that parsed (by path), and the tools that live discovery listed for
/// MCP server folders (by folder; absent when discovery failed).
#[derive(Debug)]
pub struct ToolMaterials {
    pub skill_docs: Vec<(String, ParsedSkill)>,
    pub manifests: Vec<(String, String)>,
    pub mcp_tools: Vec<(String, Vec<Json>)>,
}

/// The prompt material of a set of tools before serialisation: their
/// function schemas, the skills' instructions and the tool ids taken in.
#[derive(Debug)]
pub struct CompiledSelection {
    pub schemas: Vec<Json>,
    pub skill_instructions: String,
    pub active_tool_ids: Vec<String>,
}

/// Output of compiling tools and skills for a chat prompt.
#[derive(Debug)]
pub struct CompiledPromptTools {
    /// `<tools>` block, empty when there is no schema.
    pub tools_xml: String,
    /// The skills' instructions, joined.
    pub skill_instructions: String,
    /// Tool ids taken in.
    pub active_tool_ids: Vec<String>,
    /// Estimated tokens of the block and the instructions.
    pub estimated_tokens: usize,
}

impl Default for CompiledPromptTools {
    fn default() -> (r: Self)
        ensures
            r.tools_xml@.len() == 0,
            r.skill_instructions@.len() == 0,
            r.active_tool_ids@.len() == 0,
            r.estimated_tokens == 0,
    {
        CompiledPromptTools {
            tools_xml: String::new(),
            skill_instructions: String::new(),
            active_tool_ids: Vec::new(),
            estimated_tokens: 0,
        }
    }
}

/// The parsed skill file at path `p`.
pub open spec fn doc_at(mat: &ToolMaterials, p: Seq<char>) -> Option<ParsedSkill> {
    if keyed_view(mat.skill_docs@).contains_key(p) {
        Some(keyed_view(mat.skill_docs@)[p])
    } else {
        None
    }
}

/// The text of the manifest at path `p`, if it was read.
pub open spec fn manifest_text_at(mat: &ToolMaterials, p: Seq<char>) -> Option<Seq<char>> {
    if keyed_view(mat.manifests@).contains_key(p) {
        Some(keyed_view(mat.manifests@)[p]@)
    } else {
        None
    }
}

/// The manifest at path `p` as serde_json reads it from its text.
pub open spec fn manifest_at(mat: &ToolMaterials, p: Seq<char>) -> Option<JsonView> {
    match manifest_text_at(mat, p) {
        Some(t) => json_document(t),
        None => None,
    }
}

/// The tools live discovery listed for an MCP folder.
pub open spec fn mcp_at(mat: &ToolMaterials, dir: Seq<char>) -> Option<Seq<JsonView>> {
    if keyed_view(mat.mcp_tools@).contains_key(dir) {
        Some(json_views(keyed_view(mat.mcp_tools@)[dir]@))
    } else {
        None
    }
}

/// Category, folder, name and description of a tool: its registry entry,
/// else what its folder says.
pub open spec fn tool_info(reg: Option<&ToolsRegistry>, ws: &ToolWorkspace, id: Seq<char>) -> (Seq<char>, Seq<char>, Seq<char>, Seq<char>) {
    match reg {
        Some(r) => if r.tools().contains_key(id) {
            (r.tools()[id].category, r.tools()[id].local_dir, r.tools()[id].name, r.tools()[id].description)
        } else {
            (fs_tool(ws, id).0, fs_tool(ws, id).1, id, Seq::empty())
        },
        None => (fs_tool(ws, id).0, fs_tool(ws, id).1, id, Seq::empty()),
    }
}

/// State of a compilation.
pub ghost struct CompileState {
    pub instructions: Seq<Seq<char>>,
    pub schemas: Seq<JsonView>,
    pub active: Seq<Seq<char>>,
    pub whitelist: Option<Seq<Seq<char>>>,
}

/// The whitelist with allowed tool names added (lower-cased, trimmed).
pub open spec fn add_allowed(wl: Option<Seq<Seq<char>>>, tools: Seq<Seq<char>>) -> Option<Seq<Seq<char>>> {
    Some(or_default(wl, Seq::empty()) + tools.map_values(|t: Seq<char>| trim_seq(lowercase_seq(t))))
}

/// The instructions a skill contributes: the router's, else its file's.
pub open spec fn skill_instruction(router: &SkillRouter, mat: &ToolMaterials, id: Seq<char>, dir: Seq<char>) -> Option<Seq<char>> {
    if keyed_view(router.parsed_cache@).contains_key(id) {
        Some(keyed_view(router.parsed_cache@)[id].prompt_instructions@)
    } else {
        match doc_at(mat, join_seq(dir, "SKILL.md"@)) {
            Some(d) => Some(d.prompt_instructions@),
            None => None,
        }
    }
}

/// The whitelist after a skill's allowed tools: the router's list, else
/// its file's list when that is not empty.
pub open spec fn skill_whitelist(wl: Option<Seq<Seq<char>>>, router: &SkillRouter, mat: &ToolMaterials, id: Seq<char>, dir: Seq<char>) -> Option<Seq<Seq<char>>> {
    let rc = keyed_view(router.parsed_cache@);
    if rc.contains_key(id) && rc[id].metadata.allowed_tools@.len() > 0 {
        add_allowed(wl, views(rc[id].metadata.allowed_tools@))
    } else {
        match doc_at(mat, join_seq(dir, "SKILL.md"@)) {
            Some(d) => if d.metadata.allowed_tools@.len() > 0 {
                add_allowed(wl, views(d.metadata.allowed_tools@))
            } else {
                wl
            },
            None => wl,
        }
    }
}

/// An optional text as a list of zero or one texts.
pub open spec fn opt_list(o: Option<Seq<char>>) -> Seq<Seq<char>> {
    match o {
        Some(x) => seq![x],
        None => Seq::empty(),
    }
}

/// The state after one (trimmed, non-empty) tool id is compiled.
pub open spec fn compile_step(st: CompileState, id: Seq<char>, reg: Option<&ToolsRegistry>, ws: &ToolWorkspace, router: &SkillRouter, mat: &ToolMaterials) -> CompileState {
    let (cat, dir, name, desc) = tool_info(reg, ws, id);
    let pkg = join_seq(dir, "package.json"@);
    let md = join_seq(dir, "SKILL.md"@);
    let plugin = plugin_schemas(manifest_at(mat, pkg), id, name, desc);
    let st1 = CompileState { active: st.active.push(id), ..st };
    if cat == "skill"@ {
        CompileState {
            instructions: st1.instructions + opt_list(skill_instruction(router, mat, id, dir)),
            whitelist: skill_whitelist(st1.whitelist, router, mat, id, dir),
            schemas: if path_exists(ws, pkg) { st1.schemas + plugin } else { st1.schemas },
            ..st1
        }
    } else if cat == "plugin"@ {
        CompileState { schemas: st1.schemas + plugin, ..st1 }
    } else if cat == "mcp"@ {
        CompileState { schemas: st1.schemas + mcp_schemas(mcp_at(mat, dir), manifest_at(mat, pkg), id, name, desc), ..st1 }
    } else if path_exists(ws, md) {
        CompileState {
            instructions: st1.instructions + opt_list(
                match doc_at(mat, md) {
                    Some(d) => Some(d.prompt_instructions@),
                    None => None,
                },
            ),
            schemas: if path_exists(ws, pkg) { st1.schemas + plugin } else { st1.schemas },
            ..st1
        }
    } else if path_exists(ws, pkg) {
        CompileState { schemas: st1.schemas + plugin, ..st1 }
    } else {
        st1
    }
}

/// Compiling an MCP server adds at least one schema (its discovered
/// tools, else its manifest's, else a bridge) after those already there,
/// keeps the whitelist, and takes the id in.
pub proof fn lemma_mcp_tool_adds_schemas(st: CompileState, id: Seq<char>, reg: Option<&ToolsRegistry>, ws: &ToolWorkspace, router: &SkillRouter, mat: &ToolMaterials)
    requires
        tool_info(reg, ws, id).0 == "mcp"@,
    ensures
        compile_step(st, id, reg, ws, router, mat).schemas.len() > st.schemas.len(),
        compile_step(st, id, reg, ws, router, mat).schemas.subrange(0, st.schemas.len() as int) == st.schemas,
        compile_step(st, id, reg, ws, router, mat).whitelist == st.whitelist,
        compile_step(st, id, reg, ws, router, mat).instructions == st.instructions,
        compile_step(st, id, reg, ws, router, mat).active == st.active.push(id),
{
    reveal_strlit("mcp");
    reveal_strlit("skill");
    reveal_strlit("plugin");
    let (cat, dir, name, desc) = tool_info(reg, ws, id);
    assert("mcp"@.len() == 3 && "skill"@.len() == 5 && "plugin"@.len() == 6);
    assert(cat != "skill"@);
    assert(cat != "plugin"@);
    let pkg = join_seq(dir, "package.json"@);
    let added = mcp_schemas(mcp_at(mat, dir), manifest_at(mat, pkg), id, name, desc);
    assert(added.len() >= 1);
    let r = compile_step(st, id, reg, ws, router, mat);
    assert(r.schemas == st.schemas + added);
    assert(r.schemas.subrange(0, st.schemas.len() as int) =~= st.schemas);
}

/// Compiling a plugin adds at least one schema (those its manifest lists,
/// else one made from its id) after those already there, keeps the
/// whitelist and the instructions, and takes the id in.
pub proof fn lemma_plugin_tool_adds_schemas(st: CompileState, id: Seq<char>, reg: Option<&ToolsRegistry>, ws: &ToolWorkspace, router: &SkillRouter, mat: &ToolMaterials)
    requires
        tool_info(reg, ws, id).0 == "plugin"@,
    ensures
        compile_step(st, id, reg, ws, router, mat).schemas.len() > st.schemas.len(),
        compile_step(st, id, reg, ws, router, mat).schemas.subrange(0, st.schemas.len() as int) == st.schemas,
        compile_step(st, id, reg, ws, router, mat).whitelist == st.whitelist,
        compile_step(st, id, reg, ws, router, mat).instructions == st.instructions,
        compile_step(st, id, reg, ws, router, mat).active == st.active.push(id),
{
    reveal_strlit("skill");
    reveal_strlit("plugin");
    let (cat, dir, name, desc) = tool_info(reg, ws, id);
    assert("skill"@.len() == 5 && "plugin"@.len() == 6);
    assert(cat != "skill"@);
    let pkg = join_seq(dir, "package.json"@);
    let added = plugin_schemas(manifest_at(mat, pkg), id, name, desc);
    assert(added.len() >= 1);
    let r = compile_step(st, id, reg, ws, router, mat);
    assert(r.schemas == st.schemas + added);
    assert(r.schemas.subrange(0, st.schemas.len() as int) =~= st.schemas);
}

/// Compiling a single MCP server, with no skill to restrict tools, gives a
/// non-empty `<tools>` block: the server contributes at least one schema
/// and none is filtered out.
pub proof fn lemma_single_mcp_tool_compiles_schemas(id: Seq<char>, reg: Option<&ToolsRegistry>, ws: &ToolWorkspace, router: &SkillRouter, mat: &ToolMaterials)
    requires
        trim_seq(id).len() > 0,
        tool_info(reg, ws, trim_seq(id)).0 == "mcp"@,
    ensures
        ({
            let st = compile_fold(seq![id], reg, ws, router, mat);
            let kept = kept_schemas(st.whitelist, st.schemas);
            &&& st.whitelist is None
            &&& kept.len() >= 1
            &&& tools_block(kept.len() > 0, json_pretty(kept)).len() > 0
        }),
{
    let ids = seq![id];
    assert(ids.drop_last() =~= Seq::<Seq<char>>::empty());
    let st0 = compile_fold(ids.drop_last(), reg, ws, router, mat);
    lemma_mcp_tool_adds_schemas(st0, trim_seq(id), reg, ws, router, mat);
    reveal_strlit("<tools>\n");
}

/// The state after the tool ids are compiled in order (blank ids skipped).
pub open spec fn compile_fold(ids: Seq<Seq<char>>, reg: Option<&ToolsRegistry>, ws: &ToolWorkspace, router: &SkillRouter, mat: &ToolMaterials) -> CompileState
    decreases ids.len(),
{
    if ids.len() == 0 {
        CompileState { instructions: Seq::empty(), schemas: Seq::empty(), active: Seq::empty(), whitelist: None }
    } else {
        let st = compile_fold(ids.drop_last(), reg, ws, router, mat);
        let id = trim_seq(ids.last());
        if id.len() == 0 {
            st
        } else {
            compile_step(st, id, reg, ws, router, mat)
        }
    }
}

/// The function name of a schema: `function.name`, else `name`.
pub open spec fn schema_name(s: JsonView) -> Option<Seq<char>> {
    or_else(ostr(oget(jget(s, "function"@), "name"@)), ostr(jget(s, "name"@)))
}

/// Does a schema pass the whitelist? Schemas without a name always do.
pub open spec fn passes_whitelist(wl: Seq<Seq<char>>, s: JsonView) -> bool {
    match schema_name(s) {
        Some(n) => {
            let nl = lowercase_seq(n);
            wl.contains(nl) || exists|i: int|
                0 <= i < wl.len() && (ends_with_seq(nl, "__"@ + #[trigger] wl[i]) || contains_seq(nl, wl[i]))
        },
        None => true,
    }
}

/// Passing the whitelist `w`, as a predicate.
pub open spec fn whitelist_pred(w: Seq<Seq<char>>) -> spec_fn(JsonView) -> bool {
    |s: JsonView| passes_whitelist(w, s)
}

/// The schemas kept under an optional whitelist.
pub open spec fn kept_schemas(wl: Option<Seq<Seq<char>>>, schemas: Seq<JsonView>) -> Seq<JsonView> {
    match wl {
        Some(w) => schemas.filter(whitelist_pred(w)),
        None => schemas,
    }
}

/// Views of an optional list of strings.
pub open spec fn opt_views(o: Option<Vec<String>>) -> Option<Seq<Seq<char>>> {
    match o {
        Some(v) => Some(views(v@)),
        None => None,
    }
}

/// The view of a compilation in progress.
pub open spec fn state_of(instructions: Vec<String>, schemas: Vec<Json>, active: Vec<String>, wl: Option<Vec<String>>) -> CompileState {
    CompileState {
        instructions: views(instructions@),
        schemas: json_views(schemas@),
        active: views(active@),
        whitelist: opt_views(wl),
    }
}

/// The separator between the instructions of two skills.
pub open spec fn instruction_separator() -> Seq<char> {
    "\n\n---\n\n"@
}

/// The `<tools>` block around serialised schemas, empty without schemas.
pub open spec fn tools_block(has_schemas: bool, json_text: Seq<char>) -> Seq<char> {
    if has_schemas {
        "<tools>\n"@ + json_text + "\n</tools>"@
    } else {
        Seq::empty()
    }
}

/// Category, folder, name and description of a tool.
fn tool_info_of(reg: Option<&ToolsRegistry>, ws: &ToolWorkspace, id: &str) -> (r: (String, String, String, String))
    ensures
        (r.0@, r.1@, r.2@, r.3@) == tool_info(reg, ws, id@),
{
    if let Some(rg) = reg {
        if let Some(e) = rg.get_tool(id) {
            return (e.category.clone(), e.local_dir.clone(), e.name.clone(), e.description.clone());
        }
    }
    ToolPromptCompiler::resolve_filesystem_tool(ws, id)
}

/// The parsed skill file at path `p`.
fn doc_lookup<'a>(mat: &'a ToolMaterials, p: &str) -> (r: Option<&'a ParsedSkill>)
    ensures
        match r {
            Some(d) => doc_at(mat, p@) == Some(*d),
            None => doc_at(mat, p@) is None,
        },
{
    match find_key(&mat.skill_docs, p) {
        Some(i) => {
            proof {
                lemma_first_match_view(mat.skill_docs@, p@, i as int);
            }
            Some(&mat.skill_docs[i].1)
        },
        None => None,
    }
}

/// The text of the manifest at path `p`.
fn manifest_lookup<'a>(mat: &'a ToolMaterials, p: &str) -> (r: Option<&'a str>)
    ensures
        text_document(r) == manifest_at(mat, p@),
{
    match find_key(&mat.manifests, p) {
        Some(i) => {
            proof {
                lemma_first_match_view(mat.manifests@, p@, i as int);
            }
            Some(mat.manifests[i].1.as_str())
        },
        None => None,
    }
}

/// The tools live discovery listed for an MCP folder.
fn mcp_lookup<'a>(mat: &'a ToolMaterials, dir: &str) -> (r: Option<&'a Vec<Json>>)
    ensures
        match r {
            Some(v) => mcp_at(mat, dir@) == Some(json_views(v@)),
            None => mcp_at(mat, dir@) is None,
        },
{
    match find_key(&mat.mcp_tools, dir) {
        Some(i) => {
            proof {
                lemma_first_match_view(mat.mcp_tools@, dir@, i as int);
            }
            Some(&mat.mcp_tools[i].1)
        },
        None => None,
    }
}

/// Adds allowed tool names to the whitelist.
fn add_allowed_exec(wl: Option<Vec<String>>, tools: &Vec<String>) -> (r: Option<Vec<String>>)
    ensures
        opt_views(r) == add_allowed(opt_views(wl), views(tools@)),
{
    let mut set = match wl {
        Some(v) => v,
        None => Vec::new(),
    };
    let ghost base = views(set@);
    let mut i: usize = 0;
    while i < tools.len()
        invariant
            i <= tools@.len(),
            views(set@) == base + views(tools@).subrange(0, i as int).map_values(
                |t: Seq<char>| trim_seq(lowercase_seq(t)),
            ),
        decreases tools@.len() - i,
    {
        let lower = to_lowercase(tools[i].as_str());
        let t = trim(lower.as_str());
        let ghost before = views(set@);
        set.push(String::from_str(t));
        assert(views(tools@).subrange(0, i + 1) =~= views(tools@).subrange(0, i as int).push(tools@[i as int]@));
        assert(views(set@) =~= before.push(t@));
        assert(views(set@) =~= base + views(tools@).subrange(0, i + 1).map_values(
            |t: Seq<char>| trim_seq(lowercase_seq(t)),
        ));
        i = i + 1;
    }
    assert(views(tools@).subrange(0, tools@.len() as int) =~= views(tools@));
    Some(set)
}

/// Appends schemas.
fn append_schemas(dst: &mut Vec<Json>, src: Vec<Json>)
    ensures
        json_views(final(dst)@) == json_views(old(dst)@) + json_views(src@),
{
    let mut src = src;
    let ghost s = src@;
    dst.append(&mut src);
    assert(json_views(dst@) =~= json_views(old(dst)@) + json_views(s));
}

/// Appends an optional text.
fn append_opt(dst: &mut Vec<String>, o: Option<String>)
    ensures
        views(final(dst)@) == views(old(dst)@) + opt_list(crate::text::opt_view(o)),
{
    if let Some(x) = o {
        let ghost before = views(dst@);
        dst.push(x);
        assert(views(dst@) =~= before + seq![x@]);
    } else {
        assert(views(dst@) =~= views(old(dst)@) + Seq::<Seq<char>>::empty());
    }
}

/// Does a schema pass the whitelist?
fn passes_exec(wl: &Vec<String>, s: &Json) -> (r: bool)
    ensures
        r == passes_whitelist(views(wl@), s@),
{
    let fname = crate::json::get_opt(s.get("function"), "name");
    let n = match str_opt(fname) {
        Some(x) => Some(x),
        None => str_opt(s.get("name")),
    };
    match n {
        None => true,
        Some(name) => {
            let nl = to_lowercase(name);
            if contains_str(wl, nl.as_str()) {
                return true;
            }
            let mut i: usize = 0;
            while i < wl.len()
                invariant
                    i <= wl@.len(),
                    nl@ == lowercase_seq(name@),
                    schema_name(s@) == Some(name@),
                    forall|j: int|
                        0 <= j < i ==> !(ends_with_seq(nl@, "__"@ + #[trigger] views(wl@)[j]) || contains_seq(
                            nl@,
                            views(wl@)[j],
                        )),
                decreases wl@.len() - i,
            {
                let tail = concat("__", wl[i].as_str());
                if ends_with(nl.as_str(), tail.as_str()) || contains(nl.as_str(), wl[i].as_str()) {
                    assert(views(wl@)[i as int] == wl@[i as int]@);
                    assert(tail@ == "__"@ + views(wl@)[i as int]);
                    assert(0 <= i < views(wl@).len() && (ends_with_seq(nl@, "__"@ + views(wl@)[i as int]) || contains_seq(nl@, views(wl@)[i as int])));
                    return true;
                }
                assert(views(wl@)[i as int] == wl@[i as int]@);
                i = i + 1;
            }
            false
        },
    }
}

/// The schemas that pass the whitelist, in order.
fn filter_schemas(wl: &Vec<String>, schemas: &Vec<Json>) -> (r: Vec<Json>)
    ensures
        json_views(r@) == json_views(schemas@).filter(whitelist_pred(views(wl@))),
{
    let ghost sv = json_views(schemas@);
    let ghost pred = whitelist_pred(views(wl@));
    let mut kept: Vec<Json> = Vec::new();
    let mut i: usize = 0;
    assert(sv.subrange(0, 0).filter(pred) =~= Seq::<JsonView>::empty()) by {
        reveal(Seq::filter);
    }
    while i < schemas.len()
        invariant
            i <= schemas@.len(),
            sv == json_views(schemas@),
            pred == whitelist_pred(views(wl@)),
            json_views(kept@) == sv.subrange(0, i as int).filter(pred),
        decreases schemas@.len() - i,
    {
        proof {
            reveal(Seq::filter);
            assert(sv.subrange(0, i + 1).drop_last() =~= sv.subrange(0, i as int));
            assert(sv.subrange(0, i + 1).last() == schemas@[i as int]@);
        }
        if passes_exec(wl, &schemas[i]) {
            let c = schemas[i].deep_copy();
            let ghost before = json_views(kept@);
            kept.push(c);
            assert(json_views(kept@) =~= before.push(schemas@[i as int]@));
        }
        i = i + 1;
    }
    assert(sv.subrange(0, sv.len() as int) =~= sv);
    kept
}

/// Compiles the tools of a session into prompt material, and routes the
/// function calls that the model emits.
pub struct ToolPromptCompiler;

impl ToolPromptCompiler {
    /// Category, folder, name and description of a tool found by its folder
    /// alone (see [`fs_tool`]); the name is the id and the description empty.
    pub fn resolve_filesystem_tool(ws: &ToolWorkspace, tool_id: &str) -> (r: (String, String, String, String))
        ensures
            (r.0@, r.1@) == fs_tool(ws, tool_id@),
            r.2@ == tool_id@,
            r.3@.len() == 0,
    {
        let sp = join(ws.dirs.skills_dir.as_str(), tool_id);
        if contains_str(&ws.existing_paths, sp.as_str()) {
            return (String::from_str("skill"), sp, String::from_str(tool_id), String::new());
        }
        let pp = join(ws.dirs.plugins_dir.as_str(), tool_id);
        if contains_str(&ws.existing_paths, pp.as_str()) {
            return (String::from_str("plugin"), pp, String::from_str(tool_id), String::new());
        }
        let mp = join(ws.dirs.mcp_dir.as_str(), tool_id);
        if contains_str(&ws.existing_paths, mp.as_str()) {
            return (String::from_str("mcp"), mp, String::from_str(tool_id), String::new());
        }
        let g = join(ws.dirs.global_dir.as_str(), "plugins");
        let gp = join(g.as_str(), tool_id);
        if contains_str(&ws.existing_paths, gp.as_str()) {
            return (String::from_str("plugin"), gp, String::from_str(tool_id), String::new());
        }
        (String::from_str("unknown"), String::from_str(tool_id), String::from_str(tool_id), String::new())
    }

    /// Category and folder of a component (see [`component_info`]).
    fn component_of(reg: Option<&ToolsRegistry>, ws: &ToolWorkspace, id: &str) -> (r: (String, String))
        ensures
            (r.0@, r.1@) == component_info(reg, ws, id@),
    {
        if let Some(rg) = reg {
            if let Some(entry) = rg.get_tool(id) {
                return (entry.category.clone(), entry.local_dir.clone());
            }
        }
        let (c, d, _, _) = Self::resolve_filesystem_tool(ws, id);
        if str_eq(c.as_str(), "unknown") {
            if let Some(i) = find_key(&ws.mcp_server_dirs, id) {
                proof {
                    lemma_first_match_view(ws.mcp_server_dirs@, id@, i as int);
                }
                return (String::from_str("mcp"), ws.mcp_server_dirs[i].1.clone());
            }
        }
        (c, d)
    }

    /// Does component `id` declare a function named `n`?
    fn declares_exec(reg: Option<&ToolsRegistry>, ws: &ToolWorkspace, n: &str, id: &str) -> (r: bool)
        ensures
            r == declares_function(reg, ws, n@, id@),
    {
        let (cat, dir) = Self::component_of(reg, ws, id);
        if str_eq(cat.as_str(), "mcp") {
            table_hit(&ws.cached_mcp_tools, dir.as_str(), n)
        } else if str_eq(cat.as_str(), "plugin") || str_eq(cat.as_str(), "skill") {
            table_hit(&ws.manifest_functions, dir.as_str(), n)
        } else {
            false
        }
    }

    /// The candidates followed by the registry ids that are not yet listed.
    fn build_pool(cands: &Vec<String>, reg: Option<&ToolsRegistry>) -> (r: Vec<String>)
        ensures
            views(r@) == search_pool(views(cands@), registry_ids(reg)),
    {
        let mut pool = clone_strings(cands);
        if let Some(rg) = reg {
            let ghost ids = registry_ids(reg);
            let mut i: usize = 0;
            assert(ids.subrange(0, 0) =~= Seq::<Seq<char>>::empty());
            while i < rg.installed_tools.len()
                invariant
                    reg == Some(rg),
                    ids == registry_ids(reg),
                    i <= rg.installed_tools@.len(),
                    ids.len() == rg.installed_tools@.len(),
                    views(pool@) == search_pool(views(cands@), ids.subrange(0, i as int)),
                decreases rg.installed_tools@.len() - i,
            {
                proof {
                    assert(ids.subrange(0, i + 1).drop_last() =~= ids.subrange(0, i as int));
                    assert(ids.subrange(0, i + 1).last() == rg.installed_tools@[i as int].0@);
                }
                let id = &rg.installed_tools[i].0;
                if !contains_str(&pool, id.as_str()) {
                    let ghost before = pool@;
                    pool.push(id.clone());
                    assert(views(pool@) =~= views(before).push(id@));
                }
                i = i + 1;
            }
            assert(ids.subrange(0, ids.len() as int) =~= ids);
        }
        pool
    }

    /// Routes an emitted function name to its component: the explicit
    /// `category:component[:function]` syntax first, then a candidate of the
    /// session with that name, a registry entry, a tool folder, a component
    /// that declares such a function, and last the well-known names.
    pub fn resolve_target(fn_name: &str, candidate_tool_ids: &Vec<String>, registry: Option<&ToolsRegistry>, ws: &ToolWorkspace) -> (r: Option<ResolvedToolTarget>)
        ensures
            match r {
                Some(t) => resolve_target_spec(fn_name@, views(candidate_tool_ids@), registry, ws) == Some(t@),
                None => resolve_target_spec(fn_name@, views(candidate_tool_ids@), registry, ws) is None,
            },
    {
        let n = trim(fn_name);
        if n.unicode_len() == 0 {
            return None;
        }
        if contains(n, ":") {
            let parts = split_char(n, ':');
            if parts.len() == 2 {
                if str_eq(parts[0].as_str(), "plugin") || str_eq(parts[0].as_str(), "mcp") || str_eq(
                    parts[0].as_str(),
                    "skill",
                ) {
                    return Some(
                        ResolvedToolTarget {
                            category: parts[0].clone(),
                            component_id: parts[1].clone(),
                            sub_function: None,
                        },
                    );
                } else {
                    return Some(
                        ResolvedToolTarget {
                            category: String::from_str("mcp"),
                            component_id: parts[0].clone(),
                            sub_function: Some(parts[1].clone()),
                        },
                    );
                }
            } else if parts.len() >= 3 {
                return Some(
                    ResolvedToolTarget {
                        category: parts[0].clone(),
                        component_id: parts[1].clone(),
                        sub_function: Some(parts[2].clone()),
                    },
                );
            }
        }
        let ghost cands = views(candidate_tool_ids@);
        let mut i: usize = 0;
        while i < candidate_tool_ids.len()
            invariant
                i <= candidate_tool_ids@.len(),
                cands == views(candidate_tool_ids@),
                n@ == trim_seq(fn_name@),
                n@.len() > 0,
                !contains_seq(n@, ":"@) || colon_target(split_seq(n@, ':')) is None,
                forall|j: int| 0 <= j < i ==> !same_name(n@)(#[trigger] cands[j]),
            decreases candidate_tool_ids@.len() - i,
        {
            let c = &candidate_tool_ids[i];
            if eq_ignore_ascii_case(c.as_str(), n) {
                proof {
                    lemma_first_where_is(cands, same_name(n@), i as int);
                    assert(cands[i as int] == c@);
                }
                let (category, _, _, _) = Self::resolve_filesystem_tool(ws, c.as_str());
                return Some(ResolvedToolTarget { category, component_id: c.clone(), sub_function: None });
            }
            assert(!same_name(n@)(cands[i as int]));
            i = i + 1;
        }
        proof {
            lemma_first_where_none(cands, same_name(n@));
        }
        if let Some(rg) = registry {
            if let Some(entry) = rg.get_tool(n) {
                return Some(
                    ResolvedToolTarget {
                        category: entry.category.clone(),
                        component_id: entry.id.clone(),
                        sub_function: None,
                    },
                );
            }
        }
        let (cat, _, comp_id, _) = Self::resolve_filesystem_tool(ws, n);
        if !str_eq(cat.as_str(), "unknown") {
            return Some(ResolvedToolTarget { category: cat, component_id: comp_id, sub_function: None });
        }
        let pool = Self::build_pool(candidate_tool_ids, registry);
        let ghost pv = views(pool@);
        let ghost pred = declares(registry, ws, n@);
        let mut k: usize = 0;
        while k < pool.len()
            invariant
                k <= pool@.len(),
                pv == views(pool@),
                pred == declares(registry, ws, n@),
                pv == search_pool(views(candidate_tool_ids@), registry_ids(registry)),
                n@ == trim_seq(fn_name@),
                n@.len() > 0,
                !contains_seq(n@, ":"@) || colon_target(split_seq(n@, ':')) is None,
                first_where(views(candidate_tool_ids@), same_name(n@)) is None,
                !(match registry {
                    Some(r) => r.tools().contains_key(n@),
                    None => false,
                }),
                fs_tool(ws, n@).0 == "unknown"@,
                forall|j: int| 0 <= j < k ==> !pred(#[trigger] pv[j]),
            decreases pool@.len() - k,
        {
            let c = &pool[k];
            if Self::declares_exec(registry, ws, n, c.as_str()) {
                proof {
                    lemma_first_where_is(pv, pred, k as int);
                    assert(pv[k as int] == c@);
                }
                let (category, _) = Self::component_of(registry, ws, c.as_str());
                return Some(
                    ResolvedToolTarget {
                        category,
                        component_id: c.clone(),
                        sub_function: Some(String::from_str(n)),
                    },
                );
            }
            assert(!pred(pv[k as int]));
            k = k + 1;
        }
        proof {
            lemma_first_where_none(pv, pred);
        }
        Self::heuristic(ws, n)
    }

    /// Well-known function names served by well-known components.
    fn heuristic(ws: &ToolWorkspace, n: &str) -> (r: Option<ResolvedToolTarget>)
        ensures
            match r {
                Some(t) => heuristic_target(ws, n@) == Some(t@),
                None => heuristic_target(ws, n@) is None,
            },
    {
        if starts_with(n, "math_") || str_eq(n, "calculate") || str_eq(n, "evaluate_expression") {
            let d = join(ws.dirs.plugins_dir.as_str(), "math");
            if contains_str(&ws.existing_paths, d.as_str()) {
                return Some(
                    ResolvedToolTarget {
                        category: String::from_str("plugin"),
                        component_id: String::from_str("math"),
                        sub_function: Some(String::from_str(n)),
                    },
                );
            }
        }
        if str_eq(n, "read_file") || str_eq(n, "write_file") || str_eq(n, "list_directory") || str_eq(
            n,
            "directory_tree",
        ) {
            let d = join(ws.dirs.mcp_dir.as_str(), "filesystem");
            if contains_str(&ws.existing_paths, d.as_str()) {
                return Some(
                    ResolvedToolTarget {
                        category: String::from_str("mcp"),
                        component_id: String::from_str("filesystem"),
                        sub_function: Some(String::from_str(n)),
                    },
                );
            }
        }
        if str_eq(n, "web_search") || str_eq(n, "search") {
            let d = join(ws.dirs.plugins_dir.as_str(), "web-search");
            if contains_str(&ws.existing_paths, d.as_str()) {
                return Some(
                    ResolvedToolTarget {
                        category: String::from_str("plugin"),
                        component_id: String::from_str("web-search"),
                        sub_function: Some(String::from_str(n)),
                    },
                );
            }
        }
        None
    }
}

/// The schemas of the named entries of an MCP tool list.
fn named_schemas_of(items: &Vec<Json>, fallback_desc: &str, also_parameters: bool) -> (r: Vec<Json>)
    ensures
        json_views(r@) == named_tool_schemas(json_views(items@), fallback_desc@, also_parameters),
{
    let ghost iv = json_views(items@);
    let mut out: Vec<Json> = Vec::new();
    let mut i: usize = 0;
    while i < items.len()
        invariant
            i <= items@.len(),
            iv == json_views(items@),
            json_views(out@) == named_tool_schemas(iv.subrange(0, i as int), fallback_desc@, also_parameters),
        decreases items@.len() - i,
    {
        proof {
            assert(iv.subrange(0, i + 1).drop_last() =~= iv.subrange(0, i as int));
            assert(iv.subrange(0, i + 1).last() == items@[i as int]@);
        }
        let t = &items[i];
        if let Some(n) = str_opt(t.get("name")) {
            let d = match str_opt(t.get("description")) {
                Some(x) => x,
                None => fallback_desc,
            };
            let src = if also_parameters {
                match t.get("inputSchema") {
                    Some(x) => Some(x),
                    None => t.get("parameters"),
                }
            } else {
                t.get("inputSchema")
            };
            let params = params_or_empty(src);
            let sch = function_schema_json(n, d, params);
            let ghost before = out@;
            out.push(sch);
            assert(json_views(out@) =~= json_views(before).push(sch@));
        }
        i = i + 1;
    }
    assert(iv.subrange(0, iv.len() as int) =~= iv);
    out
}

/// The schemas of the entries of a plugin manifest's function list.
fn manifest_schemas_of(items: &Vec<Json>, plugin_id: &str, fallback_desc: &str, tools_list: bool) -> (r: Vec<Json>)
    ensures
        json_views(r@) == json_views(items@).map_values(
            |f: JsonView| manifest_item_schema(f, plugin_id@, fallback_desc@, tools_list),
        ),
{
    let ghost iv = json_views(items@);
    let mut out: Vec<Json> = Vec::new();
    let mut i: usize = 0;
    while i < items.len()
        invariant
            i <= items@.len(),
            iv == json_views(items@),
            json_views(out@) == iv.subrange(0, i as int).map_values(
                |f: JsonView| manifest_item_schema(f, plugin_id@, fallback_desc@, tools_list),
            ),
        decreases items@.len() - i,
    {
        let f = &items[i];
        let n = match str_opt(f.get("name")) {
            Some(x) => x,
            None => plugin_id,
        };
        let d = match str_opt(f.get("description")) {
            Some(x) => x,
            None => fallback_desc,
        };
        let src = if tools_list {
            match f.get("parameters") {
                Some(x) => Some(x),
                None => f.get("inputSchema"),
            }
        } else {
            f.get("parameters")
        };
        let params = params_or_empty(src);
        let sch = function_schema_json(n, d, params);
        let ghost before = out@;
        out.push(sch);
        assert(iv[i as int] == f@);
        assert(sch@ == manifest_item_schema(iv[i as int], plugin_id@, fallback_desc@, tools_list));
        assert(iv.subrange(0, i + 1) =~= iv.subrange(0, i as int).push(iv[i as int]));
        assert(json_views(out@) =~= json_views(before).push(sch@));
        assert(json_views(out@) =~= iv.subrange(0, i + 1).map_values(
            |f: JsonView| manifest_item_schema(f, plugin_id@, fallback_desc@, tools_list),
        ));
        i = i + 1;
    }
    assert(iv.subrange(0, iv.len() as int) =~= iv);
    out
}

/// The schema synthesised for a plugin that lists no function.
fn synthesized_plugin_schema_json(plugin_id: &str, name: &str, fallback_desc: &str) -> (r: Json)
    ensures
        r@ == synthesized_plugin_schema(plugin_id@, name@, fallback_desc@),
{
    let desc = if fallback_desc.unicode_len() > 0 {
        String::from_str(fallback_desc)
    } else if name.unicode_len() > 0 {
        let a = concat("Execute ", name);
        concat(a.as_str(), " plugin operation")
    } else {
        let a = concat("Execute ", plugin_id);
        concat(a.as_str(), " tool operation")
    };
    let is_math = contains(plugin_id, "math") || contains(plugin_id, "calc");
    let is_search = contains(plugin_id, "search");
    let mut props: Vec<(String, Json)> = Vec::new();
    let required = if is_math {
        props.push((String::from_str("expression"), typed_property_json("string", "Mathematical formula to evaluate (e.g. 'sqrt(256) * 14.5')")));
        props.push((String::from_str("precision"), typed_property_json("integer", "Decimal precision places (default: 4)")));
        "expression"
    } else if is_search {
        props.push((String::from_str("query"), typed_property_json("string", "Search query or target URL")));
        "query"
    } else {
        props.push((String::from_str("input"), typed_property_json("string", "Input argument string or JSON string to execute")));
        "input"
    };
    let ghost pm = props@.map_values(|p: (String, Json)| (p.0@, p.1@));
    let po = object(props);
    let ghost want_props = if is_math {
        JsonView::Object(
            seq![
                ("expression"@, typed_property("string"@, "Mathematical formula to evaluate (e.g. 'sqrt(256) * 14.5')"@)),
                ("precision"@, typed_property("integer"@, "Decimal precision places (default: 4)"@)),
            ],
        )
    } else if is_search {
        JsonView::Object(seq![("query"@, typed_property("string"@, "Search query or target URL"@))])
    } else {
        JsonView::Object(seq![("input"@, typed_property("string"@, "Input argument string or JSON string to execute"@))])
    };
    assert(po@ =~= want_props) by {
        if is_math {
            assert(pm =~= seq![
                ("expression"@, typed_property("string"@, "Mathematical formula to evaluate (e.g. 'sqrt(256) * 14.5')"@)),
                ("precision"@, typed_property("integer"@, "Decimal precision places (default: 4)"@)),
            ]);
        } else if is_search {
            assert(pm =~= seq![("query"@, typed_property("string"@, "Search query or target URL"@))]);
        } else {
            assert(pm =~= seq![("input"@, typed_property("string"@, "Input argument string or JSON string to execute"@))]);
        }
    }
    let params = object_schema_json(po, required);
    function_schema_json(plugin_id, desc.as_str(), params)
}

impl ToolPromptCompiler {
    /// The function schemas of a WASM or native plugin from the text of its
    /// `package.json` (`None` where it was not read; a text serde_json reads
    /// no document from counts as none; see
    /// [`Self::plugin_schemas_from_manifest`]).
    pub fn extract_plugin_schemas(manifest_text: Option<&str>, plugin_id: &str, name: &str, fallback_desc: &str) -> (r: Vec<Json>)
        ensures
            json_views(r@) == plugin_schemas(text_document(manifest_text), plugin_id@, name@, fallback_desc@),
    {
        let doc = match manifest_text {
            Some(t) => parse_json(t),
            None => None,
        };
        match &doc {
            Some(m) => Self::plugin_schemas_from_manifest(Some(m), plugin_id, name, fallback_desc),
            None => Self::plugin_schemas_from_manifest(None, plugin_id, name, fallback_desc),
        }
    }

    /// The function schemas of an MCP server from its live discovery and
    /// the text of its `package.json` (as for
    /// [`Self::extract_plugin_schemas`]; see
    /// [`Self::mcp_schemas_from_manifest`]).
    pub fn extract_mcp_schemas(discovered: Option<&Vec<Json>>, manifest_text: Option<&str>, mcp_id: &str, fallback_name: &str, fallback_desc: &str) -> (r: Vec<Json>)
        ensures
            json_views(r@) == mcp_schemas(
                match discovered {
                    Some(v) => Some(json_views(v@)),
                    None => None,
                },
                text_document(manifest_text),
                mcp_id@,
                fallback_name@,
                fallback_desc@,
            ),
    {
        let doc = match manifest_text {
            Some(t) => parse_json(t),
            None => None,
        };
        match &doc {
            Some(m) => Self::mcp_schemas_from_manifest(discovered, Some(m), mcp_id, fallback_name, fallback_desc),
            None => Self::mcp_schemas_from_manifest(discovered, None, mcp_id, fallback_name, fallback_desc),
        }
    }

    /// The function schemas of a WASM or native plugin: those its
    /// `package.json` (`manifest`, when it was read and parsed) lists under
    /// `functions` (else `tools`), else one synthesised from its id, name and
    /// description.
    pub fn plugin_schemas_from_manifest(manifest: Option<&Json>, plugin_id: &str, name: &str, fallback_desc: &str) -> (r: Vec<Json>)
        ensures
            json_views(r@) == plugin_schemas(oview(manifest), plugin_id@, name@, fallback_desc@),
    {
        let mut schemas: Vec<Json> = Vec::new();
        if let Some(v) = manifest {
            let funcs = match v.get("functions") {
                Some(f) => f.as_array(),
                None => None,
            };
            match funcs {
                Some(fs) => {
                    schemas = manifest_schemas_of(fs, plugin_id, fallback_desc, false);
                },
                None => {
                    let tools = match v.get("tools") {
                        Some(t) => t.as_array(),
                        None => None,
                    };
                    if let Some(ts) = tools {
                        schemas = manifest_schemas_of(ts, plugin_id, fallback_desc, true);
                    }
                },
            }
        }
        assert(json_views(schemas@) == listed_plugin_schemas(oview(manifest), plugin_id@, fallback_desc@));
        if schemas.len() == 0 {
            let s = synthesized_plugin_schema_json(plugin_id, name, fallback_desc);
            let mut one: Vec<Json> = Vec::new();
            one.push(s);
            assert(json_views(one@) =~= seq![synthesized_plugin_schema(plugin_id@, name@, fallback_desc@)]);
            return one;
        }
        schemas
    }

    /// The function schemas of an MCP server: the named tools of its live
    /// discovery (`discovered`, `None` when discovery failed), else those its
    /// `package.json` lists, else a bridge schema.
    pub fn mcp_schemas_from_manifest(discovered: Option<&Vec<Json>>, manifest: Option<&Json>, mcp_id: &str, fallback_name: &str, fallback_desc: &str) -> (r: Vec<Json>)
        ensures
            json_views(r@) == mcp_schemas(
                match discovered {
                    Some(v) => Some(json_views(v@)),
                    None => None,
                },
                oview(manifest),
                mcp_id@,
                fallback_name@,
                fallback_desc@,
            ),
    {
        if let Some(items) = discovered {
            let live = named_schemas_of(items, fallback_desc, false);
            if live.len() > 0 {
                return live;
            }
        }
        if let Some(v) = manifest {
            let tools = match v.get("tools") {
                Some(t) => t.as_array(),
                None => None,
            };
            if let Some(ts) = tools {
                let stat = named_schemas_of(ts, fallback_desc, true);
                if stat.len() > 0 {
                    return stat;
                }
            }
        }
        let desc = if fallback_desc.unicode_len() > 0 {
            String::from_str(fallback_desc)
        } else {
            concat("Model Context Protocol tool bridge for ", fallback_name)
        };
        let mut props: Vec<(String, Json)> = Vec::new();
        props.push((String::from_str("command"), typed_property_json("string", "MCP operation or action to execute")));
        props.push((String::from_str("arguments"), typed_property_json("object", "Arguments payload dictionary")));
        let ghost pm = props@.map_values(|p: (String, Json)| (p.0@, p.1@));
        let po = object(props);
        assert(pm =~= seq![
            ("command"@, typed_property("string"@, "MCP operation or action to execute"@)),
            ("arguments"@, typed_property("object"@, "Arguments payload dictionary"@)),
        ]);
        let params = object_schema_json(po, "command");
        let s = function_schema_json(mcp_id, desc.as_str(), params);
        let mut one: Vec<Json> = Vec::new();
        one.push(s);
        assert(json_views(one@) =~= seq![mcp_bridge_schema(mcp_id@, fallback_name@, fallback_desc@)]);
        one
    }
}

/// Compiles one tool id (trimmed, not empty) into the state.
fn compile_one(
    id: &str,
    registry: Option<&ToolsRegistry>,
    ws: &ToolWorkspace,
    router: &SkillRouter,
    mat: &ToolMaterials,
    instructions: &mut Vec<String>,
    schemas: &mut Vec<Json>,
    active: &mut Vec<String>,
    wl: Option<Vec<String>>,
) -> (r: Option<Vec<String>>)
    ensures
        state_of(*final(instructions), *final(schemas), *final(active), r) == compile_step(
            state_of(*old(instructions), *old(schemas), *old(active), wl),
            id@,
            registry,
            ws,
            router,
            mat,
        ),
{
    let (cat, dir, name, desc) = tool_info_of(registry, ws, id);
    let pkg = join(dir.as_str(), "package.json");
    let md = join(dir.as_str(), "SKILL.md");
    let ghost a0 = views(active@);
    active.push(String::from_str(id));
    assert(views(active@) =~= a0.push(id@));
    if str_eq(cat.as_str(), "skill") {
        let instr = match router.get_instructions(id) {
            Some(x) => Some(String::from_str(x)),
            None => match doc_lookup(mat, md.as_str()) {
                Some(d) => Some(d.prompt_instructions.clone()),
                None => None,
            },
        };
        append_opt(instructions, instr);
        let wl2 = match router.get_allowed_tools(id) {
            Some(list) => add_allowed_exec(wl, list),
            None => match doc_lookup(mat, md.as_str()) {
                Some(d) => if d.metadata.allowed_tools.len() > 0 {
                    add_allowed_exec(wl, &d.metadata.allowed_tools)
                } else {
                    wl
                },
                None => wl,
            },
        };
        if contains_str(&ws.existing_paths, pkg.as_str()) {
            let more = ToolPromptCompiler::extract_plugin_schemas(
                manifest_lookup(mat, pkg.as_str()),
                id,
                name.as_str(),
                desc.as_str(),
            );
            append_schemas(schemas, more);
        } else {
            assert(json_views(schemas@) =~= json_views(old(schemas)@));
        }
        wl2
    } else if str_eq(cat.as_str(), "plugin") {
        let more = ToolPromptCompiler::extract_plugin_schemas(manifest_lookup(mat, pkg.as_str()), id, name.as_str(), desc.as_str());
        append_schemas(schemas, more);
        wl
    } else if str_eq(cat.as_str(), "mcp") {
        let more = ToolPromptCompiler::extract_mcp_schemas(
            mcp_lookup(mat, dir.as_str()),
            manifest_lookup(mat, pkg.as_str()),
            id,
            name.as_str(),
            desc.as_str(),
        );
        append_schemas(schemas, more);
        wl
    } else if contains_str(&ws.existing_paths, md.as_str()) {
        let instr = match doc_lookup(mat, md.as_str()) {
            Some(d) => Some(d.prompt_instructions.clone()),
            None => None,
        };
        append_opt(instructions, instr);
        if contains_str(&ws.existing_paths, pkg.as_str()) {
            let more = ToolPromptCompiler::extract_plugin_schemas(
                manifest_lookup(mat, pkg.as_str()),
                id,
                name.as_str(),
                desc.as_str(),
            );
            append_schemas(schemas, more);
        }
        wl
    } else if contains_str(&ws.existing_paths, pkg.as_str()) {
        let more = ToolPromptCompiler::extract_plugin_schemas(manifest_lookup(mat, pkg.as_str()), id, name.as_str(), desc.as_str());
        append_schemas(schemas, more);
        wl
    } else {
        wl
    }
}

impl ToolPromptCompiler {
    /// Selects what the tools `tool_ids` bring to a prompt: the instructions
    /// of their skills, the function schemas of their plugins and MCP
    /// servers (kept to the tools that the skills allow, when a skill
    /// restricts them), and the ids taken in.
    pub fn select_tools(
        tool_ids: &Vec<String>,
        registry: Option<&ToolsRegistry>,
        ws: &ToolWorkspace,
        router: &SkillRouter,
        mat: &ToolMaterials,
    ) -> (r: CompiledSelection)
        ensures
            ({
                let st = compile_fold(views(tool_ids@), registry, ws, router, mat);
                &&& json_views(r.schemas@) == kept_schemas(st.whitelist, st.schemas)
                &&& r.skill_instructions@ == join_parts(st.instructions, instruction_separator())
                &&& views(r.active_tool_ids@) == st.active
            }),
    {
        let ghost ids = views(tool_ids@);
        let mut instructions: Vec<String> = Vec::new();
        let mut schemas: Vec<Json> = Vec::new();
        let mut active: Vec<String> = Vec::new();
        let mut wl: Option<Vec<String>> = None;
        assert(state_of(instructions, schemas, active, wl) =~= compile_fold(ids.subrange(0, 0), registry, ws, router, mat)) by {
            assert(views(instructions@) =~= Seq::<Seq<char>>::empty());
            assert(json_views(schemas@) =~= Seq::<JsonView>::empty());
            assert(views(active@) =~= Seq::<Seq<char>>::empty());
        }
        let mut i: usize = 0;
        while i < tool_ids.len()
            invariant
                i <= tool_ids@.len(),
                ids == views(tool_ids@),
                state_of(instructions, schemas, active, wl) == compile_fold(ids.subrange(0, i as int), registry, ws, router, mat),
            decreases tool_ids@.len() - i,
        {
            proof {
                assert(ids.subrange(0, i + 1).drop_last() =~= ids.subrange(0, i as int));
                assert(ids.subrange(0, i + 1).last() == tool_ids@[i as int]@);
            }
            let nid = trim(tool_ids[i].as_str());
            if nid.unicode_len() > 0 {
                wl = compile_one(nid, registry, ws, router, mat, &mut instructions, &mut schemas, &mut active, wl);
            }
            i = i + 1;
        }
        assert(ids.subrange(0, ids.len() as int) =~= ids);
        let kept = match &wl {
            Some(w) => filter_schemas(w, &schemas),
            None => schemas,
        };
        CompiledSelection {
            schemas: kept,
            skill_instructions: join_strings(&instructions, "\n\n---\n\n"),
            active_tool_ids: active,
        }
    }

    /// The prompt tools of a selection: its schemas serialised by
    /// serde_json as a pretty-printed array in a `<tools>` block (no block
    /// without schemas), its instructions, its ids, and a token estimate of
    /// a quarter of the bytes of block and instructions, rounded up.
    pub fn assemble(selection: CompiledSelection) -> (r: CompiledPromptTools)
        ensures
            r.tools_xml@ == tools_block(selection.schemas@.len() > 0, json_pretty(json_views(selection.schemas@))),
            r.skill_instructions@ == selection.skill_instructions@,
            views(r.active_tool_ids@) == views(selection.active_tool_ids@),
            r.estimated_tokens == (encode_utf8(r.tools_xml@).len() + encode_utf8(r.skill_instructions@).len() + 3)
                / 4,
    {
        let tools_xml = if selection.schemas.len() > 0 {
            let text = pretty_json_array(&selection.schemas);
            let a = concat("<tools>\n", text.as_str());
            concat(a.as_str(), "\n</tools>")
        } else {
            String::new()
        };
        let a = byte_len(tools_xml.as_str());
        let b = byte_len(selection.skill_instructions.as_str());
        let sum: u128 = a as u128 + b as u128 + 3;
        let q: u128 = sum / 4;
        assert(q <= usize::MAX);
        CompiledPromptTools {
            tools_xml,
            skill_instructions: selection.skill_instructions,
            active_tool_ids: selection.active_tool_ids,
            estimated_tokens: q as usize,
        }
    }

    /// Compiles the tools `tool_ids` for a prompt (see [`Self::select_tools`]
    /// and [`Self::assemble`]).
    pub fn compile_tools(
        tool_ids: &Vec<String>,
        registry: Option<&ToolsRegistry>,
        ws: &ToolWorkspace,
        router: &SkillRouter,
        mat: &ToolMaterials,
    ) -> (r: CompiledPromptTools)
        ensures
            ({
                let st = compile_fold(views(tool_ids@), registry, ws, router, mat);
                let kept = kept_schemas(st.whitelist, st.schemas);
                &&& r.tools_xml@ == tools_block(kept.len() > 0, json_pretty(kept))
                &&& r.skill_instructions@ == join_parts(st.instructions, instruction_separator())
                &&& views(r.active_tool_ids@) == st.active
                &&& r.estimated_tokens == (encode_utf8(r.tools_xml@).len() + encode_utf8(r.skill_instructions@).len()
                    + 3) / 4
            }),
    {
        let sel = Self::select_tools(tool_ids, registry, ws, router, mat);
        proof {
            assert(sel.schemas@.len() == json_views(sel.schemas@).len());
        }
        Self::assemble(sel)
    }
}

} // verus!
