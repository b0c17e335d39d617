//! The JSON-RPC exchange with MCP servers: the messages sent, how replies
//! are recognised and read, and the cache of discovered tools.
use vstd::prelude::*;
use crate::documents::{json_document, parse_json};
use crate::json::{array, copy_all, integer, jarray, jget, ji64, json_views, jstr, Json, JsonView, oarray, object, oview, str_opt, string};
use crate::keyed::{find_key, keyed_insert, keyed_view, lemma_first_match_view};
use crate::text::{concat, join_parts, join_strings, trim, trim_seq, views};
use crate::paths::{debug_path, path_debug};
use super::manifest::McpManifest;

verus! {

/// Talks to MCP servers over stdio.
pub struct McpClient;

/// Tools discovered per server folder.
#[derive(Debug)]
pub struct McpToolCache {
    /// Server folder to its tools; a repeated folder stands for its first
    /// occurrence.
    pub entries: Vec<(String, Vec<Json>)>,
}

/// The cache as a map from folder to tools.
pub open spec fn cache_view(c: &McpToolCache) -> Map<Seq<char>, Seq<JsonView>> {
    keyed_view(c.entries@).map_values(|v: Vec<Json>| json_views(v@))
}

/// A JSON string.
pub open spec fn jt(s: Seq<char>) -> JsonView {
    JsonView::Str(s)
}

/// The `initialize` request (id 1); `with_sampling` adds the sampling
/// capability that tool calls announce.
pub open spec fn initialize_request_spec(with_sampling: bool) -> JsonView {
    let caps = if with_sampling {
        JsonView::Object(
            seq![
                ("roots"@, JsonView::Object(seq![("listChanged"@, JsonView::Bool(true))])),
                ("sampling"@, JsonView::Object(Seq::empty())),
            ],
        )
    } else {
        JsonView::Object(seq![("roots"@, JsonView::Object(seq![("listChanged"@, JsonView::Bool(true))]))])
    };
    JsonView::Object(
        seq![
            ("jsonrpc"@, jt("2.0"@)),
            ("id"@, JsonView::UInt(1)),
            ("method"@, jt("initialize"@)),
            (
                "params"@,
                JsonView::Object(
                    seq![
                        ("protocolVersion"@, jt("2024-11-05"@)),
                        ("capabilities"@, caps),
                        (
                            "clientInfo"@,
                            JsonView::Object(seq![("name"@, jt("cluaiz-engine"@)), ("version"@, jt("1.0.0"@))]),
                        ),
                    ],
                ),
            ),
        ],
    )
}

/// The `notifications/initialized` notification.
pub open spec fn initialized_notification_spec() -> JsonView {
    JsonView::Object(seq![("jsonrpc"@, jt("2.0"@)), ("method"@, jt("notifications/initialized"@))])
}

/// A request with id 2 for `method` with the given parameters.
pub open spec fn second_request_spec(method: Seq<char>, params: JsonView) -> JsonView {
    JsonView::Object(
        seq![("jsonrpc"@, jt("2.0"@)), ("id"@, JsonView::UInt(2)), ("method"@, jt(method)), ("params"@, params)],
    )
}

/// Is `v` the reply with the given id?
pub open spec fn is_reply_to(v: JsonView, id: i64) -> bool {
    match jget(v, "id"@) {
        Some(i) => ji64(i) == Some(id),
        None => false,
    }
}

/// The tools a `tools/list` reply lists (none when it lists none).
pub open spec fn listed_tools(reply: JsonView) -> Seq<JsonView> {
    match jget(reply, "result"@) {
        Some(r) => match oarray(jget(r, "tools"@)) {
            Some(a) => a,
            None => Seq::empty(),
        },
        None => Seq::empty(),
    }
}

/// The `text` members of the items, in order.
pub open spec fn content_texts(items: Seq<JsonView>) -> Seq<Seq<char>>
    decreases items.len(),
{
    if items.len() == 0 {
        Seq::empty()
    } else {
        let pre = content_texts(items.drop_last());
        match jget(items.last(), "text"@) {
            Some(t) => match jstr(t) {
                Some(s) => pre.push(s),
                None => pre,
            },
            None => pre,
        }
    }
}

/// The tool result carried by a reply to `initialize` from a one-shot
/// server: its `result`, when that is a string or has `content`, with the
/// texts of its content joined by lines when there are any.
pub open spec fn one_shot_result_spec(init: JsonView) -> Option<JsonView> {
    match jget(init, "result"@) {
        Some(res) => if jstr(res) is Some || jget(res, "content"@) is Some {
            match oarray(jget(res, "content"@)) {
                Some(items) => if content_texts(items).len() > 0 {
                    Some(jt(join_parts(content_texts(items), "\n"@)))
                } else {
                    Some(res)
                },
                None => Some(res),
            }
        } else {
            None
        },
        None => None,
    }
}

/// What a `tools/call` reply says: its `error` (an error), else its
/// `result`, else the whole reply.
pub open spec fn call_outcome_spec(reply: JsonView) -> Result<JsonView, JsonView> {
    match jget(reply, "error"@) {
        Some(e) => Err(e),
        None => match jget(reply, "result"@) {
            Some(r) => Ok(r),
            None => Ok(reply),
        },
    }
}

/// The tools a `package.json` lists statically, when it lists any.
pub open spec fn static_tools_spec(manifest: Option<JsonView>) -> Option<Seq<JsonView>> {
    match manifest {
        Some(v) => match oarray(jget(v, "tools"@)) {
            Some(a) => if a.len() > 0 {
                Some(a)
            } else {
                None
            },
            None => None,
        },
        None => None,
    }
}

/// Builds `{k: v}` members into an object.
fn obj2(k1: &str, v1: Json, k2: &str, v2: Json) -> (r: Json)
    ensures
        r@ == JsonView::Object(seq![(k1@, v1@), (k2@, v2@)]),
{
    let ghost a = v1@;
    let ghost b = v2@;
    let mut m: Vec<(String, Json)> = Vec::new();
    m.push((String::from_str(k1), v1));
    m.push((String::from_str(k2), v2));
    let r = object(m);
    assert(m@.map_values(|p: (String, Json)| (p.0@, p.1@)) =~= seq![(k1@, a), (k2@, b)]);
    r
}

/// Builds a one-member object.
fn obj1(k1: &str, v1: Json) -> (r: Json)
    ensures
        r@ == JsonView::Object(seq![(k1@, v1@)]),
{
    let ghost a = v1@;
    let mut m: Vec<(String, Json)> = Vec::new();
    m.push((String::from_str(k1), v1));
    let r = object(m);
    assert(m@.map_values(|p: (String, Json)| (p.0@, p.1@)) =~= seq![(k1@, a)]);
    r
}

impl McpToolCache {
    /// An empty cache.
    pub fn new() -> (r: Self)
        ensures
            cache_view(&r) == Map::<Seq<char>, Seq<JsonView>>::empty(),
    {
        let r = McpToolCache { entries: Vec::new() };
        assert(cache_view(&r) =~= Map::<Seq<char>, Seq<JsonView>>::empty());
        r
    }

    /// Copies of the tools cached for a server folder.
    pub fn get(&self, dir: &str) -> (r: Option<Vec<Json>>)
        ensures
            match r {
                Some(v) => cache_view(self).contains_key(dir@) && json_views(v@) == cache_view(self)[dir@],
                None => !cache_view(self).contains_key(dir@),
            },
    {
        match find_key(&self.entries, dir) {
            Some(i) => {
                proof {
                    lemma_first_match_view(self.entries@, dir@, i as int);
                }
                Some(copy_all(&self.entries[i].1))
            },
            None => None,
        }
    }

    /// Caches the tools of a server folder.
    pub fn insert(&mut self, dir: String, tools: Vec<Json>)
        ensures
            cache_view(final(self)) == cache_view(old(self)).insert(dir@, json_views(tools@)),
    {
        let ghost d = dir@;
        let ghost t = json_views(tools@);
        keyed_insert(&mut self.entries, dir, tools);
        assert(cache_view(self) =~= cache_view(old(self)).insert(d, t));
    }

    /// Forgets every cached tool list.
    pub fn clear_tool_cache(&mut self)
        ensures
            cache_view(final(self)) == Map::<Seq<char>, Seq<JsonView>>::empty(),
    {
        self.entries = Vec::new();
        assert(cache_view(self) =~= Map::<Seq<char>, Seq<JsonView>>::empty());
    }
}

impl McpClient {
    /// The `initialize` request (id 1).
    pub fn initialize_request(with_sampling: bool) -> (r: Json)
        ensures
            r@ == initialize_request_spec(with_sampling),
    {
        let roots = obj1("roots", obj1("listChanged", Json::Bool(true)));
        let ghost rv = roots@;
        let caps = if with_sampling {
            let c = obj2("roots", obj1("listChanged", Json::Bool(true)), "sampling", object(Vec::new()));
            assert(c@ =~= JsonView::Object(
                seq![
                    ("roots"@, JsonView::Object(seq![("listChanged"@, JsonView::Bool(true))])),
                    ("sampling"@, JsonView::Object(Seq::empty())),
                ],
            )) by {
                assert(Seq::<(String, Json)>::empty().map_values(|p: (String, Json)| (p.0@, p.1@)) =~= Seq::<(Seq<char>, JsonView)>::empty());
            }
            c
        } else {
            roots
        };
        let info = obj2("name", string("cluaiz-engine"), "version", string("1.0.0"));
        let ghost cv = caps@;
        let ghost iv = info@;
        let mut p: Vec<(String, Json)> = Vec::new();
        p.push((String::from_str("protocolVersion"), string("2024-11-05")));
        p.push((String::from_str("capabilities"), caps));
        p.push((String::from_str("clientInfo"), info));
        let params = object(p);
        assert(p@.map_values(|q: (String, Json)| (q.0@, q.1@)) =~= seq![
            ("protocolVersion"@, jt("2024-11-05"@)),
            ("capabilities"@, cv),
            ("clientInfo"@, iv),
        ]);
        let ghost pv = params@;
        let mut m: Vec<(String, Json)> = Vec::new();
        m.push((String::from_str("jsonrpc"), string("2.0")));
        m.push((String::from_str("id"), integer(1)));
        m.push((String::from_str("method"), string("initialize")));
        m.push((String::from_str("params"), params));
        let r = object(m);
        assert(m@.map_values(|q: (String, Json)| (q.0@, q.1@)) =~= seq![
            ("jsonrpc"@, jt("2.0"@)),
            ("id"@, JsonView::UInt(1)),
            ("method"@, jt("initialize"@)),
            ("params"@, pv),
        ]);
        r
    }

    /// The `notifications/initialized` notification.
    pub fn initialized_notification() -> (r: Json)
        ensures
            r@ == initialized_notification_spec(),
    {
        obj2("jsonrpc", string("2.0"), "method", string("notifications/initialized"))
    }

    /// A request with id 2 for `method`.
    fn second_request(method: &str, params: Json) -> (r: Json)
        ensures
            r@ == second_request_spec(method@, params@),
    {
        let ghost pv = params@;
        let mut m: Vec<(String, Json)> = Vec::new();
        m.push((String::from_str("jsonrpc"), string("2.0")));
        m.push((String::from_str("id"), integer(2)));
        m.push((String::from_str("method"), string(method)));
        m.push((String::from_str("params"), params));
        let r = object(m);
        assert(m@.map_values(|q: (String, Json)| (q.0@, q.1@)) =~= seq![
            ("jsonrpc"@, jt("2.0"@)),
            ("id"@, JsonView::UInt(2)),
            ("method"@, jt(method@)),
            ("params"@, pv),
        ]);
        r
    }

    /// The `tools/list` request (id 2).
    pub fn list_request() -> (r: Json)
        ensures
            r@ == second_request_spec("tools/list"@, JsonView::Object(Seq::empty())),
    {
        let e = object(Vec::new());
        assert(e@ =~= JsonView::Object(Seq::empty())) by {
            assert(Seq::<(String, Json)>::empty().map_values(|p: (String, Json)| (p.0@, p.1@)) =~= Seq::<(Seq<char>, JsonView)>::empty());
        }
        Self::second_request("tools/list", e)
    }

    /// The `tools/call` request (id 2) for a tool with its arguments.
    pub fn call_request(tool_name: &str, arguments: Json) -> (r: Json)
        ensures
            r@ == second_request_spec(
                "tools/call"@,
                JsonView::Object(seq![("name"@, jt(tool_name@)), ("arguments"@, arguments@)]),
            ),
    {
        let p = obj2("name", string(tool_name), "arguments", arguments);
        Self::second_request("tools/call", p)
    }

    /// A line of an MCP server's output read as a JSON-RPC message: the
    /// document serde_json reads from it; where `unwrap_strings` is set and
    /// that document is a string holding a document itself, the inner one.
    /// None where the line holds no document.
    pub fn read_reply(line: &str, unwrap_strings: bool) -> (r: Option<Json>)
        ensures
            match json_document(line@) {
                Some(v) => r matches Some(j) && j@ == match v {
                    JsonView::Str(s) => if unwrap_strings && json_document(s) is Some {
                        json_document(s)->0
                    } else {
                        v
                    },
                    _ => v,
                },
                None => r is None,
            },
    {
        match parse_json(line) {
            Some(j) => {
                if unwrap_strings {
                    if let Json::Str(s) = &j {
                        if let Some(inner) = parse_json(s.as_str()) {
                            return Some(inner);
                        }
                    }
                }
                Some(j)
            },
            None => None,
        }
    }

    /// Is a parsed reply line the reply with the given id?
    pub fn is_reply_to(v: &Json, id: i64) -> (r: bool)
        ensures
            r == is_reply_to(v@, id),
    {
        match v.get("id") {
            Some(i) => match i.as_i64() {
                Some(n) => n == id,
                None => false,
            },
            None => false,
        }
    }

    /// Copies of the tools a `tools/list` reply lists.
    pub fn tools_from_list_reply(reply: &Json) -> (r: Vec<Json>)
        ensures
            json_views(r@) == listed_tools(reply@),
    {
        match reply.get("result") {
            Some(res) => match res.get("tools") {
                Some(t) => match t.as_array() {
                    Some(a) => copy_all(a),
                    None => Vec::new(),
                },
                None => Vec::new(),
            },
            None => Vec::new(),
        }
    }

    /// The tool result that a one-shot server put in its `initialize` reply.
    pub fn one_shot_result(init: &Json) -> (r: Option<Json>)
        ensures
            oview_owned(r) == one_shot_result_spec(init@),
    {
        match init.get("result") {
            None => None,
            Some(res) => {
                if res.as_str().is_some() || res.get("content").is_some() {
                    let content = match res.get("content") {
                        Some(c) => c.as_array(),
                        None => None,
                    };
                    match content {
                        Some(items) => {
                            let texts = content_texts_exec(items);
                            if texts.len() > 0 {
                                let joined = join_strings(&texts, "\n");
                                Some(Json::Str(joined))
                            } else {
                                Some(res.deep_copy())
                            }
                        },
                        None => Some(res.deep_copy()),
                    }
                } else {
                    None
                }
            },
        }
    }

    /// What a `tools/call` reply says: `Err` with the error value, or `Ok`
    /// with the result (or the whole reply when it has none).
    pub fn call_outcome(reply: &Json) -> (r: Result<Json, Json>)
        ensures
            match r {
                Ok(v) => call_outcome_spec(reply@) == Ok::<JsonView, JsonView>(v@),
                Err(e) => call_outcome_spec(reply@) == Err::<JsonView, JsonView>(e@),
            },
    {
        match reply.get("error") {
            Some(e) => Err(e.deep_copy()),
            None => match reply.get("result") {
                Some(r) => Ok(r.deep_copy()),
                None => Ok(reply.deep_copy()),
            },
        }
    }

    /// The tools a `package.json` lists statically, when it lists any.
    pub fn static_tools(manifest: Option<&Json>) -> (r: Option<Vec<Json>>)
        ensures
            match r {
                Some(v) => static_tools_spec(oview(manifest)) == Some(json_views(v@)),
                None => static_tools_spec(oview(manifest)) is None,
            },
    {
        match manifest {
            Some(v) => match v.get("tools") {
                Some(t) => match t.as_array() {
                    Some(a) => if a.len() > 0 {
                        Some(copy_all(a))
                    } else {
                        None
                    },
                    None => None,
                },
                None => None,
            },
            None => None,
        }
    }

    /// The tools known for a server folder without starting it: the cached
    /// ones, else those its `package.json` lists.
    pub fn get_cached_tools(cache: &McpToolCache, mcp_dir: &str, manifest: Option<&Json>) -> (r: Option<Vec<Json>>)
        ensures
            match r {
                Some(v) => if cache_view(cache).contains_key(mcp_dir@) {
                    json_views(v@) == cache_view(cache)[mcp_dir@]
                } else {
                    static_tools_spec(oview(manifest)) == Some(json_views(v@))
                },
                None => !cache_view(cache).contains_key(mcp_dir@) && static_tools_spec(oview(manifest)) is None,
            },
    {
        match cache.get(mcp_dir) {
            Some(v) => Some(v),
            None => Self::static_tools(manifest),
        }
    }

    /// Checks that a manifest says how to start its server.
    pub fn execution_check(manifest: &McpManifest, mcp_dir: &str) -> (r: Result<(), String>)
        ensures
            match manifest.execution {
                None => r matches Err(e) && e@ == "No execution configuration found for MCP in "@ + path_debug(mcp_dir@),
                Some(x) => if trim_seq(x.command@).len() == 0 {
                    r matches Err(e) && e@ == "MCP execution command is empty for "@ + path_debug(mcp_dir@)
                } else {
                    r is Ok
                },
            },
    {
        match &manifest.execution {
            None => {
                let d = debug_path(mcp_dir);
                Err(concat("No execution configuration found for MCP in ", d.as_str()))
            },
            Some(x) => if trim(x.command.as_str()).unicode_len() == 0 {
                let d = debug_path(mcp_dir);
                Err(concat("MCP execution command is empty for ", d.as_str()))
            } else {
                Ok(())
            },
        }
    }
}

/// The view of an optional owned value.
pub open spec fn oview_owned(j: Option<Json>) -> Option<JsonView> {
    match j {
        Some(v) => Some(v@),
        None => None,
    }
}

/// The `text` members of the items, in order.
fn content_texts_exec(items: &Vec<Json>) -> (r: Vec<String>)
    ensures
        views(r@) == content_texts(json_views(items@)),
{
    let ghost iv = json_views(items@);
    let mut out: Vec<String> = Vec::new();
    let mut i: usize = 0;
    while i < items.len()
        invariant
            i <= items@.len(),
            iv == json_views(items@),
            views(out@) == content_texts(iv.subrange(0, i as int)),
        decreases items@.len() - i,
    {
        proof {
            assert(iv.subrange(0, i + 1).drop_last() =~= iv.subrange(0, i as int));
            assert(iv.subrange(0, i + 1).last() == items@[i as int]@);
        }
        if let Some(t) = str_opt(items[i].get("text")) {
            let ghost before = views(out@);
            out.push(String::from_str(t));
            assert(views(out@) =~= before.push(t@));
        }
        i = i + 1;
    }
    assert(iv.subrange(0, iv.len() as int) =~= iv);
    out
}

} // verus!
