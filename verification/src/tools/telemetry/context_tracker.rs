//! Context-window telemetry: how many tokens the prompt, the history and
//! each family of tools take up, and what is left free.
use vstd::prelude::*;
use vstd::utf8::encode_utf8;
use crate::text::{
    byte_len, contains, contains_seq, contains_str, first_where, lemma_first_where_is, lemma_first_where_none, lowercase_seq,
    parse_usize, parse_usize_seq, str_eq, to_lowercase, trim, trim_seq, views,
};
use crate::tools::registry::index::ToolsRegistry;
use crate::tools::registry::types::{SecurityMode, ToolEntry, ToolEntryModel};

verus! {

/// Telemetry of one tool in the context window.
#[derive(Debug)]
pub struct ToolTelemetryItem {
    pub name: String,
    pub category: String,
    /// `active` or `deferred`.
    pub status: String,
    pub security_mode: String,
    pub tokens: usize,
}

/// A telemetry item with its texts as character sequences.
pub ghost struct ItemView {
    pub name: Seq<char>,
    pub category: Seq<char>,
    pub status: Seq<char>,
    pub security_mode: Seq<char>,
    pub tokens: nat,
}

impl View for ToolTelemetryItem {
    type V = ItemView;

    open spec fn view(&self) -> ItemView {
        ItemView {
            name: self.name@,
            category: self.category@,
            status: self.status@,
            security_mode: self.security_mode@,
            tokens: self.tokens as nat,
        }
    }
}

/// Token counts of the enabled tools, by family, with their items.
#[derive(Debug)]
pub struct ToolTokenTally {
    pub skills_tokens: usize,
    pub plugins_tokens: usize,
    pub mcp_tools_tokens: usize,
    pub deferred_mcp_tokens: usize,
    pub deferred_plugins_tokens: usize,
    pub deferred_tools_tokens_saved: usize,
    pub skill_items: Vec<ToolTelemetryItem>,
    pub plugin_items: Vec<ToolTelemetryItem>,
    pub mcp_items: Vec<ToolTelemetryItem>,
}

/// A tally as numbers and item sequences.
#[verifier::ext_equal]
pub ghost struct TallyView {
    pub skills: nat,
    pub plugins: nat,
    pub mcp: nat,
    pub deferred_mcp: nat,
    pub deferred_plugins: nat,
    pub deferred_saved: nat,
    pub skill_items: Seq<ItemView>,
    pub plugin_items: Seq<ItemView>,
    pub mcp_items: Seq<ItemView>,
}

/// Views of telemetry items.
pub open spec fn item_views(v: Seq<ToolTelemetryItem>) -> Seq<ItemView> {
    v.map_values(|i: ToolTelemetryItem| i@)
}

impl View for ToolTokenTally {
    type V = TallyView;

    open spec fn view(&self) -> TallyView {
        TallyView {
            skills: self.skills_tokens as nat,
            plugins: self.plugins_tokens as nat,
            mcp: self.mcp_tools_tokens as nat,
            deferred_mcp: self.deferred_mcp_tokens as nat,
            deferred_plugins: self.deferred_plugins_tokens as nat,
            deferred_saved: self.deferred_tools_tokens_saved as nat,
            skill_items: item_views(self.skill_items@),
            plugin_items: item_views(self.plugin_items@),
            mcp_items: item_views(self.mcp_items@),
        }
    }
}

/// Number of UTF-8 bytes of a text.
pub open spec fn bytes_len(s: Seq<char>) -> nat {
    encode_utf8(s).len()
}

/// Total UTF-8 bytes of a list of texts.
pub open spec fn total_bytes(v: Seq<Seq<char>>) -> nat
    decreases v.len(),
{
    if v.len() == 0 {
        0
    } else {
        total_bytes(v.drop_last()) + bytes_len(v.last())
    }
}

/// Size of a tool's schema in bytes: description, permissions, triggers.
pub open spec fn schema_chars(e: ToolEntryModel) -> nat {
    bytes_len(e.description) + total_bytes(e.permissions) + total_bytes(e.semantic_triggers)
}

/// Estimated tokens of a tool's schema: a quarter of its bytes, at least 4.
pub open spec fn estimated_tokens(e: ToolEntryModel) -> nat {
    let c = schema_chars(e);
    if c > 0 && c / 4 > 4 {
        c / 4
    } else {
        4
    }
}

/// Security mode as its variant name in lower case.
pub open spec fn mode_label(m: SecurityMode) -> Seq<char> {
    match m {
        SecurityMode::Sandboxed => "sandboxed"@,
        SecurityMode::FullAccess => "fullaccess"@,
        SecurityMode::WorkspaceWrite => "workspacewrite"@,
        SecurityMode::Strict => "strict"@,
    }
}

/// The telemetry item of an enabled tool.
pub open spec fn item_of(id: Seq<char>, e: ToolEntryModel, is_active: bool) -> ItemView {
    ItemView {
        name: if e.name.len() == 0 { id } else { e.name },
        category: e.category,
        status: if is_active { "active"@ } else { "deferred"@ },
        security_mode: mode_label(e.security_mode),
        tokens: if is_active { estimated_tokens(e) } else { 0 },
    }
}

/// The tally after one more enabled tool.
pub open spec fn tally_step(t: TallyView, id: Seq<char>, e: ToolEntryModel, is_active: bool) -> TallyView {
    let est = estimated_tokens(e);
    let item = item_of(id, e, is_active);
    if is_active {
        if e.category == "skill"@ {
            TallyView { skills: t.skills + est, skill_items: t.skill_items.push(item), ..t }
        } else if e.category == "mcp"@ {
            TallyView { mcp: t.mcp + est, mcp_items: t.mcp_items.push(item), ..t }
        } else {
            TallyView { plugins: t.plugins + est, plugin_items: t.plugin_items.push(item), ..t }
        }
    } else {
        if e.category == "mcp"@ {
            TallyView {
                deferred_saved: t.deferred_saved + est,
                deferred_mcp: t.deferred_mcp + est,
                mcp_items: t.mcp_items.push(item),
                ..t
            }
        } else if e.category == "skill"@ {
            TallyView { deferred_saved: t.deferred_saved + est, skill_items: t.skill_items.push(item), ..t }
        } else {
            TallyView {
                deferred_saved: t.deferred_saved + est,
                deferred_plugins: t.deferred_plugins + est,
                plugin_items: t.plugin_items.push(item),
                ..t
            }
        }
    }
}

/// The empty tally.
pub open spec fn empty_tally() -> TallyView {
    TallyView {
        skills: 0,
        plugins: 0,
        mcp: 0,
        deferred_mcp: 0,
        deferred_plugins: 0,
        deferred_saved: 0,
        skill_items: Seq::empty(),
        plugin_items: Seq::empty(),
        mcp_items: Seq::empty(),
    }
}

/// The tally of the enabled tools of `tools`, in order; a tool is active
/// when its id is among `active`.
pub open spec fn tally(tools: Seq<(String, ToolEntry)>, active: Seq<Seq<char>>) -> TallyView
    decreases tools.len(),
{
    if tools.len() == 0 {
        empty_tally()
    } else {
        let t = tally(tools.drop_last(), active);
        let p = tools.last();
        if !p.1.enabled {
            t
        } else {
            tally_step(t, p.0@, p.1@, active.contains(p.0@))
        }
    }
}

/// The family a tool category belongs to: 0 for `skill`, 1 for `mcp`, 2
/// for any other (plugins).
pub open spec fn family_of(category: Seq<char>) -> int {
    if category == "skill"@ {
        0
    } else if category == "mcp"@ {
        1
    } else {
        2
    }
}

/// The estimated tokens of the enabled tools of family `g` that are active
/// (`want_active`) or deferred (`!want_active`), summed tool by tool.
pub open spec fn family_tokens(tools: Seq<(String, ToolEntry)>, active: Seq<Seq<char>>, want_active: bool, g: int) -> nat
    decreases tools.len(),
{
    if tools.len() == 0 {
        0
    } else {
        let p = tools.last();
        family_tokens(tools.drop_last(), active, want_active, g) + if p.1.enabled && active.contains(p.0@)
            == want_active && family_of(p.1@.category) == g {
            estimated_tokens(p.1@)
        } else {
            0
        }
    }
}

/// How many enabled tools of family `g` there are, active or deferred.
pub open spec fn family_count(tools: Seq<(String, ToolEntry)>, g: int) -> nat
    decreases tools.len(),
{
    if tools.len() == 0 {
        0
    } else {
        family_count(tools.drop_last(), g) + if tools.last().1.enabled && family_of(tools.last().1@.category) == g {
            1nat
        } else {
            0
        }
    }
}

/// Do all items belong to family `g`?
pub open spec fn items_in_family(items: Seq<ItemView>, g: int) -> bool {
    forall|i: int| 0 <= i < items.len() ==> family_of(#[trigger] items[i].category) == g
}

/// Each family's counter holds the estimated tokens of exactly its enabled
/// active tools (skills, MCP servers, and every other category as
/// plugins), the deferred counters those of its enabled inactive MCP
/// servers and plugins, and each family's item list holds one item per
/// enabled tool of that family and none of another.
pub proof fn lemma_tally_by_family(tools: Seq<(String, ToolEntry)>, active: Seq<Seq<char>>)
    ensures
        tally(tools, active).skills == family_tokens(tools, active, true, 0),
        tally(tools, active).mcp == family_tokens(tools, active, true, 1),
        tally(tools, active).plugins == family_tokens(tools, active, true, 2),
        tally(tools, active).deferred_mcp == family_tokens(tools, active, false, 1),
        tally(tools, active).deferred_plugins == family_tokens(tools, active, false, 2),
        tally(tools, active).skill_items.len() == family_count(tools, 0),
        tally(tools, active).mcp_items.len() == family_count(tools, 1),
        tally(tools, active).plugin_items.len() == family_count(tools, 2),
        items_in_family(tally(tools, active).skill_items, 0),
        items_in_family(tally(tools, active).mcp_items, 1),
        items_in_family(tally(tools, active).plugin_items, 2),
    decreases tools.len(),
{
    reveal_strlit("skill");
    reveal_strlit("mcp");
    if tools.len() > 0 {
        let prev = tools.drop_last();
        lemma_tally_by_family(prev, active);
        let t = tally(prev, active);
        let p = tools.last();
        if p.1.enabled {
            let is_active = active.contains(p.0@);
            let item = item_of(p.0@, p.1@, is_active);
            let est = estimated_tokens(p.1@);
            let u = tally(tools, active);
            assert(u == tally_step(t, p.0@, p.1@, is_active));
            assert(item.category == p.1@.category);
            let g = family_of(p.1@.category);
            if g == 0 {
                assert(u.skill_items == t.skill_items.push(item));
                assert(u.mcp_items == t.mcp_items && u.plugin_items == t.plugin_items);
                lemma_push_in_family(t.skill_items, item, 0);
            } else if g == 1 {
                assert(u.mcp_items == t.mcp_items.push(item));
                assert(u.skill_items == t.skill_items && u.plugin_items == t.plugin_items);
                lemma_push_in_family(t.mcp_items, item, 1);
            } else {
                assert(u.plugin_items == t.plugin_items.push(item));
                assert(u.skill_items == t.skill_items && u.mcp_items == t.mcp_items);
                lemma_push_in_family(t.plugin_items, item, 2);
            }
        }
    }
}

/// Appending an item of family `g` to items of family `g`.
proof fn lemma_push_in_family(items: Seq<ItemView>, item: ItemView, g: int)
    requires
        items_in_family(items, g),
        family_of(item.category) == g,
    ensures
        items_in_family(items.push(item), g),
{
    assert forall|i: int| 0 <= i < items.push(item).len() implies family_of(#[trigger] items.push(item)[i].category) == g by {
        if i < items.len() {
            assert(items.push(item)[i] == items[i]);
        }
    }
}

/// A schema's estimate is a quarter of its bytes, rounded down, and never
/// below 4 tokens.
pub proof fn lemma_estimate_is_quarter(e: ToolEntryModel)
    ensures
        estimated_tokens(e) >= 4,
        schema_chars(e) >= 20 ==> 4 * estimated_tokens(e) <= schema_chars(e) < 4 * estimated_tokens(e) + 4,
        schema_chars(e) < 20 ==> estimated_tokens(e) == 4,
{
}

/// The tokens of a list of items, summed.
pub open spec fn items_tokens(items: Seq<ItemView>) -> nat
    decreases items.len(),
{
    if items.len() == 0 {
        0
    } else {
        items_tokens(items.drop_last()) + items.last().tokens
    }
}

/// Is every item marked `active` with some tokens, or `deferred` with none?
pub open spec fn items_marked(items: Seq<ItemView>) -> bool {
    forall|i: int|
        0 <= i < items.len() ==> ((#[trigger] items[i]).status == "active"@ && items[i].tokens > 0) || (items[i].status
            == "deferred"@ && items[i].tokens == 0)
}

/// Appending an item to a list.
proof fn lemma_items_push(items: Seq<ItemView>, item: ItemView)
    ensures
        items_tokens(items.push(item)) == items_tokens(items) + item.tokens,
        items_marked(items) && ((item.status == "active"@ && item.tokens > 0) || (item.status == "deferred"@
            && item.tokens == 0)) ==> items_marked(items.push(item)),
{
    assert(items.push(item).drop_last() =~= items);
    if items_marked(items) && ((item.status == "active"@ && item.tokens > 0) || (item.status == "deferred"@ && item.tokens
        == 0)) {
        assert forall|i: int| 0 <= i < items.push(item).len() implies ((#[trigger] items.push(item)[i]).status
            == "active"@ && items.push(item)[i].tokens > 0) || (items.push(item)[i].status == "deferred"@
            && items.push(item)[i].tokens == 0) by {
            if i < items.len() {
                assert(items.push(item)[i] == items[i]);
            }
        }
    }
}

/// Each family's items account for its active tokens: their tokens add up
/// to the family's counter, an active tool's item is marked `active` with
/// its tokens, and a deferred one's `deferred` with none.
pub proof fn lemma_tally_items_account(tools: Seq<(String, ToolEntry)>, active: Seq<Seq<char>>)
    ensures
        items_tokens(tally(tools, active).skill_items) == tally(tools, active).skills,
        items_tokens(tally(tools, active).mcp_items) == tally(tools, active).mcp,
        items_tokens(tally(tools, active).plugin_items) == tally(tools, active).plugins,
        items_marked(tally(tools, active).skill_items),
        items_marked(tally(tools, active).mcp_items),
        items_marked(tally(tools, active).plugin_items),
    decreases tools.len(),
{
    if tools.len() > 0 {
        let prev = tools.drop_last();
        lemma_tally_items_account(prev, active);
        let t = tally(prev, active);
        let p = tools.last();
        if p.1.enabled {
            let is_active = active.contains(p.0@);
            let item = item_of(p.0@, p.1@, is_active);
            lemma_estimate_is_quarter(p.1@);
            lemma_items_push(t.skill_items, item);
            lemma_items_push(t.mcp_items, item);
            lemma_items_push(t.plugin_items, item);
        }
    }
}

/// Estimated tokens of all enabled tools together.
pub open spec fn tally_total(tools: Seq<(String, ToolEntry)>) -> nat
    decreases tools.len(),
{
    if tools.len() == 0 {
        0
    } else {
        tally_total(tools.drop_last()) + if tools.last().1.enabled {
            estimated_tokens(tools.last().1@)
        } else {
            0
        }
    }
}

/// Every tool's schema size fits in a machine word.
pub open spec fn schemas_fit(tools: Seq<(String, ToolEntry)>) -> bool {
    forall|i: int| 0 <= i < tools.len() ==> schema_chars(#[trigger] tools[i].1@) <= usize::MAX
}

/// The counters of a tally add up to the total, and the deferred ones to
/// the saved count.
pub proof fn lemma_tally_sums(tools: Seq<(String, ToolEntry)>, active: Seq<Seq<char>>)
    ensures
        tally(tools, active).skills + tally(tools, active).plugins + tally(tools, active).mcp + tally(
            tools,
            active,
        ).deferred_saved == tally_total(tools),
        tally(tools, active).deferred_mcp + tally(tools, active).deferred_plugins <= tally(
            tools,
            active,
        ).deferred_saved,
    decreases tools.len(),
{
    if tools.len() > 0 {
        lemma_tally_sums(tools.drop_last(), active);
    }
}

/// A prefix's total is at most the whole total.
pub proof fn lemma_tally_total_prefix(tools: Seq<(String, ToolEntry)>, i: int)
    requires
        0 <= i <= tools.len(),
    ensures
        tally_total(tools.subrange(0, i)) <= tally_total(tools),
    decreases tools.len() - i,
{
    if i < tools.len() {
        lemma_tally_total_prefix(tools, i + 1);
        assert(tools.subrange(0, i + 1).drop_last() =~= tools.subrange(0, i));
    } else {
        assert(tools.subrange(0, i) =~= tools);
    }
}

/// A prefix's byte total is at most the whole total.
pub proof fn lemma_total_bytes_prefix(v: Seq<Seq<char>>, i: int)
    requires
        0 <= i <= v.len(),
    ensures
        total_bytes(v.subrange(0, i)) <= total_bytes(v),
    decreases v.len() - i,
{
    if i < v.len() {
        lemma_total_bytes_prefix(v, i + 1);
        assert(v.subrange(0, i + 1).drop_last() =~= v.subrange(0, i));
    } else {
        assert(v.subrange(0, i) =~= v);
    }
}

/// Total UTF-8 bytes of a list of strings, when it fits in a machine word.
fn sum_bytes(v: &Vec<String>) -> (r: usize)
    requires
        total_bytes(views(v@)) <= usize::MAX,
    ensures
        r == total_bytes(views(v@)),
{
    let mut s: usize = 0;
    let mut i: usize = 0;
    while i < v.len()
        invariant
            i <= v@.len(),
            total_bytes(views(v@)) <= usize::MAX,
            s == total_bytes(views(v@).subrange(0, i as int)),
        decreases v@.len() - i,
    {
        proof {
            assert(views(v@).subrange(0, i + 1).drop_last() =~= views(v@).subrange(0, i as int));
            lemma_total_bytes_prefix(views(v@), i + 1);
        }
        s = s + byte_len(v[i].as_str());
        i = i + 1;
    }
    assert(views(v@).subrange(0, v@.len() as int) =~= views(v@));
    s
}

/// Security mode as its variant name in lower case.
pub fn mode_label_of(m: SecurityMode) -> (r: &'static str)
    ensures
        r@ == mode_label(m),
{
    match m {
        SecurityMode::Sandboxed => "sandboxed",
        SecurityMode::FullAccess => "fullaccess",
        SecurityMode::WorkspaceWrite => "workspacewrite",
        SecurityMode::Strict => "strict",
    }
}

/// Tracks the context window of a session.
pub struct ContextTracker;

impl ContextTracker {
    /// Estimated tokens of a tool's schema: a quarter of the bytes of its
    /// description, permissions and triggers, at least 4.
    pub fn estimate_tool_tokens(entry: &ToolEntry) -> (r: usize)
        requires
            schema_chars(entry@) <= usize::MAX,
        ensures
            r == estimated_tokens(entry@),
    {
        proof {
            assert(total_bytes(views(entry.permissions@)) <= usize::MAX);
            assert(total_bytes(views(entry.semantic_triggers@)) <= usize::MAX);
        }
        let d = byte_len(entry.description.as_str());
        let p = sum_bytes(&entry.permissions);
        let t = sum_bytes(&entry.semantic_triggers);
        let c = d + p + t;
        if c > 0 && c / 4 > 4 {
            c / 4
        } else {
            4
        }
    }

    /// Token counts of the enabled tools of the registry, by family; a tool
    /// counts as active when its id is in `active_tool_ids`, otherwise its
    /// tokens are deferred (saved).
    pub fn tally_tool_tokens(registry: &ToolsRegistry, active_tool_ids: &Vec<String>) -> (r: ToolTokenTally)
        requires
            schemas_fit(registry.installed_tools@),
            tally_total(registry.installed_tools@) <= usize::MAX,
        ensures
            r@ == tally(registry.installed_tools@, views(active_tool_ids@)),
            r.skills_tokens == family_tokens(registry.installed_tools@, views(active_tool_ids@), true, 0),
            r.mcp_tools_tokens == family_tokens(registry.installed_tools@, views(active_tool_ids@), true, 1),
            r.plugins_tokens == family_tokens(registry.installed_tools@, views(active_tool_ids@), true, 2),
            items_in_family(item_views(r.mcp_items@), 1),
            items_in_family(item_views(r.plugin_items@), 2),
            items_in_family(item_views(r.skill_items@), 0),
    {
        proof {
            lemma_tally_by_family(registry.installed_tools@, views(active_tool_ids@));
        }
        let ghost tools = registry.installed_tools@;
        let ghost active = views(active_tool_ids@);
        let mut t = ToolTokenTally {
            skills_tokens: 0,
            plugins_tokens: 0,
            mcp_tools_tokens: 0,
            deferred_mcp_tokens: 0,
            deferred_plugins_tokens: 0,
            deferred_tools_tokens_saved: 0,
            skill_items: Vec::new(),
            plugin_items: Vec::new(),
            mcp_items: Vec::new(),
        };
        assert(t@ =~= empty_tally());
        let mut i: usize = 0;
        while i < registry.installed_tools.len()
            invariant
                i <= tools.len(),
                tools == registry.installed_tools@,
                active == views(active_tool_ids@),
                schemas_fit(tools),
                tally_total(tools) <= usize::MAX,
                t@ == tally(tools.subrange(0, i as int), active),
            decreases tools.len() - i,
        {
            let ghost pre = tools.subrange(0, i as int);
            let ghost next = tools.subrange(0, i + 1);
            proof {
                assert(next.drop_last() =~= pre);
                assert(next.last() == tools[i as int]);
                lemma_tally_total_prefix(tools, i + 1);
                lemma_tally_sums(next, active);
                lemma_tally_sums(pre, active);
            }
            let id = &registry.installed_tools[i].0;
            let entry = &registry.installed_tools[i].1;
            if entry.enabled {
                assert(schema_chars(tools[i as int].1@) <= usize::MAX);
                let est = Self::estimate_tool_tokens(entry);
                let is_active = contains_str(active_tool_ids, id.as_str());
                let item = ToolTelemetryItem {
                    name: if entry.name.unicode_len() == 0 { id.clone() } else { entry.name.clone() },
                    category: entry.category.clone(),
                    status: String::from_str(if is_active { "active" } else { "deferred" }),
                    security_mode: String::from_str(mode_label_of(entry.security_mode)),
                    tokens: if is_active { est } else { 0 },
                };
                assert(item@ == item_of(id@, entry@, is_active));
                if is_active {
                    if str_eq(entry.category.as_str(), "skill") {
                        t.skills_tokens = t.skills_tokens + est;
                        t.skill_items.push(item);
                    } else if str_eq(entry.category.as_str(), "mcp") {
                        t.mcp_tools_tokens = t.mcp_tools_tokens + est;
                        t.mcp_items.push(item);
                    } else {
                        t.plugins_tokens = t.plugins_tokens + est;
                        t.plugin_items.push(item);
                    }
                } else {
                    t.deferred_tools_tokens_saved = t.deferred_tools_tokens_saved + est;
                    if str_eq(entry.category.as_str(), "mcp") {
                        t.deferred_mcp_tokens = t.deferred_mcp_tokens + est;
                        t.mcp_items.push(item);
                    } else if str_eq(entry.category.as_str(), "skill") {
                        t.skill_items.push(item);
                    } else {
                        t.deferred_plugins_tokens = t.deferred_plugins_tokens + est;
                        t.plugin_items.push(item);
                    }
                }
                assert(t@ =~= tally(next, active));
            }
            i = i + 1;
        }
        assert(tools.subrange(0, tools.len() as int) =~= tools);
        t
    }
}

/// Characters dropped from model identifiers before they are compared.
pub open spec fn is_key_separator(c: char) -> bool {
    c == '-' || c == '_' || c == ' ' || c == '.' || c == ':'
}

/// `s` without separator characters.
pub open spec fn strip_key(s: Seq<char>) -> Seq<char> {
    s.filter(|c: char| !is_key_separator(c))
}

/// The comparison key of an installed model's identifier.
pub open spec fn model_key(id: Seq<char>) -> Seq<char> {
    strip_key(lowercase_seq(id))
}

/// Two model keys match when one holds the other.
pub open spec fn keys_match(a: Seq<char>, b: Seq<char>) -> bool {
    a == b || contains_seq(a, b) || contains_seq(b, a)
}

/// Equality with `id`, as a predicate.
pub open spec fn same_id(id: Seq<char>) -> spec_fn(Seq<char>) -> bool {
    |x: Seq<char>| x == id
}

/// Having a model key that matches `target`, as a predicate.
pub open spec fn key_matches(target: Seq<char>) -> spec_fn(Seq<char>) -> bool {
    |x: Seq<char>| keys_match(model_key(x), target)
}

/// An optional index as a mathematical one.
pub open spec fn opt_int(r: Option<usize>) -> Option<int> {
    match r {
        Some(i) => Some(i as int),
        None => None,
    }
}

/// The installed model whose size and context telemetry describes: the one
/// named exactly, else the first whose key matches the requested one (when
/// that key is not empty), else the fallback model named exactly or by key,
/// else the first installed model.
pub open spec fn select_model(ids: Seq<Seq<char>>, active: Seq<char>, fallback: Option<Seq<char>>) -> Option<int> {
    let target = strip_key(lowercase_seq(trim_seq(active)));
    let by_active = match first_where(ids, same_id(active)) {
        Some(i) => Some(i),
        None => if target.len() > 0 {
            first_where(ids, key_matches(target))
        } else {
            None
        },
    };
    let by_fallback = match fallback {
        Some(pid) => match first_where(ids, same_id(pid)) {
            Some(i) => Some(i),
            None => first_where(ids, key_matches(model_key(pid))),
        },
        None => None,
    };
    match by_active {
        Some(i) => Some(i),
        None => match by_fallback {
            Some(i) => Some(i),
            None => if ids.len() > 0 {
                Some(0)
            } else {
                None
            },
        },
    }
}

/// What a `context_window` text such as `32k` or `4096` says, in tokens;
/// 0 when it says nothing.
pub open spec fn context_window_tokens(s: Seq<char>) -> nat {
    if s.len() > 0 && (s.last() == 'k' || s.last() == 'K') {
        match parse_usize_seq(s.drop_last()) {
            Some(k) => (k * 1024) as nat,
            None => 0,
        }
    } else {
        match parse_usize_seq(s) {
            Some(v) => v as nat,
            None => 0,
        }
    }
}

/// Tokens of a prompt of `len` bytes: a quarter, at least one when not empty.
pub open spec fn prompt_tokens(len: nat) -> nat {
    if len > 0 {
        if len / 4 > 1 {
            len / 4
        } else {
            1
        }
    } else {
        0
    }
}

/// Integer counts of a context breakdown.
#[derive(Debug)]
pub struct ContextCounts {
    /// Usable context limit.
    pub total_context_limit: usize,
    pub model_native_context: usize,
    pub total_active_tokens: usize,
    /// Conversation tokens, before the limit is applied.
    pub raw_messages_tokens: usize,
    /// Conversation tokens, at most the limit.
    pub messages_tokens: usize,
    pub system_prompt_tokens: usize,
    pub free_space_tokens: usize,
    pub user_prompt_tokens: usize,
    pub chat_history_tokens: usize,
    pub active_tools_tokens: usize,
    pub active_tools_count: usize,
    pub kv_cache_vram_bytes_allocated: usize,
    pub tools: ToolTokenTally,
}

/// Active tokens: prompt, conversation and active tools, at most the limit.
pub open spec fn total_active_spec(system: int, messages: int, tools: int, limit: int) -> int {
    if system + messages + tools < limit {
        system + messages + tools
    } else {
        limit
    }
}

/// Do the counts of a session fit machine words: every tool's schema size,
/// the estimated tokens of all enabled tools, the message tokens, the sum
/// of all active tokens, and the KV-cache bytes of what fits?
pub open spec fn counts_fit_spec(
    tools: Seq<(String, ToolEntry)>,
    active: Seq<Seq<char>>,
    user_prompt_len: usize,
    history_len: usize,
    system_prompt_len: usize,
    generated_tokens: usize,
    usable_limit: usize,
) -> bool {
    let messages = prompt_tokens(user_prompt_len as nat) + history_len / 4 + generated_tokens;
    &&& schemas_fit(tools)
    &&& tally_total(tools) <= usize::MAX
    &&& messages <= usize::MAX
    &&& ({
        let t = tally(tools, active);
        &&& prompt_tokens(system_prompt_len as nat) + messages + t.skills + t.plugins + t.mcp <= usize::MAX
        &&& total_active_spec(
            prompt_tokens(system_prompt_len as nat) as int,
            messages,
            (t.skills + t.plugins + t.mcp) as int,
            usable_limit as int,
        ) * 8192 <= usize::MAX
    })
}

/// Total UTF-8 bytes of a list of strings; none where it exceeds a
/// machine word.
fn checked_bytes(v: &Vec<String>) -> (r: Option<usize>)
    ensures
        match r {
            Some(n) => n == total_bytes(views(v@)),
            None => total_bytes(views(v@)) > usize::MAX,
        },
{
    let mut s: usize = 0;
    let mut i: usize = 0;
    while i < v.len()
        invariant
            i <= v@.len(),
            s == total_bytes(views(v@).subrange(0, i as int)),
        decreases v@.len() - i,
    {
        proof {
            assert(views(v@).subrange(0, i + 1).drop_last() =~= views(v@).subrange(0, i as int));
        }
        let b = byte_len(v[i].as_str());
        match s.checked_add(b) {
            Some(n) => s = n,
            None => {
                proof {
                    lemma_total_bytes_prefix(views(v@), i + 1);
                }
                return None;
            },
        }
        i = i + 1;
    }
    assert(views(v@).subrange(0, v@.len() as int) =~= views(v@));
    Some(s)
}

/// A tool's schema size; none where it exceeds a machine word.
fn checked_schema_chars(e: &ToolEntry) -> (r: Option<usize>)
    ensures
        match r {
            Some(n) => n == schema_chars(e@),
            None => schema_chars(e@) > usize::MAX,
        },
{
    let d = byte_len(e.description.as_str());
    let p = match checked_bytes(&e.permissions) {
        Some(n) => n,
        None => return None,
    };
    let t = match checked_bytes(&e.semantic_triggers) {
        Some(n) => n,
        None => return None,
    };
    match d.checked_add(p) {
        Some(dp) => dp.checked_add(t),
        None => None,
    }
}

/// Do every tool's schema size and the estimated tokens of the enabled
/// tools fit machine words?
fn tools_fit(tools: &Vec<(String, ToolEntry)>) -> (r: bool)
    ensures
        r == (schemas_fit(tools@) && tally_total(tools@) <= usize::MAX),
{
    let mut total: usize = 0;
    let mut i: usize = 0;
    while i < tools.len()
        invariant
            i <= tools@.len(),
            forall|j: int| 0 <= j < i ==> schema_chars(#[trigger] tools@[j].1@) <= usize::MAX,
            total == tally_total(tools@.subrange(0, i as int)),
        decreases tools@.len() - i,
    {
        proof {
            assert(tools@.subrange(0, i + 1).drop_last() =~= tools@.subrange(0, i as int));
            assert(tools@.subrange(0, i + 1).last() == tools@[i as int]);
        }
        let e = &tools[i].1;
        if checked_schema_chars(e).is_none() {
            return false;
        }
        if e.enabled {
            let est = ContextTracker::estimate_tool_tokens(e);
            match total.checked_add(est) {
                Some(n) => total = n,
                None => {
                    proof {
                        lemma_tally_total_prefix(tools@, i + 1);
                    }
                    return false;
                },
            }
        }
        i = i + 1;
    }
    assert(tools@.subrange(0, tools@.len() as int) =~= tools@);
    true
}

/// Removes the separator characters from `s`.
fn strip_key_of(s: &str) -> (r: String)
    ensures
        r@ == strip_key(s@),
{
    let n = s.unicode_len();
    let mut r = String::new();
    let mut i: usize = 0;
    while i < n
        invariant
            n == s@.len(),
            i <= n,
            r@ == s@.subrange(0, i as int).filter(|c: char| !is_key_separator(c)),
        decreases n - i,
    {
        let c = s.get_char(i);
        proof {
            reveal(Seq::filter);
            assert(s@.subrange(0, i + 1).drop_last() =~= s@.subrange(0, i as int));
        }
        if !(c == '-' || c == '_' || c == ' ' || c == '.' || c == ':') {
            r.append(s.substring_char(i, i + 1));
        }
        assert(r@ =~= s@.subrange(0, i + 1).filter(|c: char| !is_key_separator(c)));
        i = i + 1;
    }
    assert(s@.subrange(0, n as int) =~= s@);
    r
}

/// Do two model keys match?
fn keys_match_exec(a: &str, b: &str) -> (r: bool)
    ensures
        r == keys_match(a@, b@),
{
    str_eq(a, b) || contains(a, b) || contains(b, a)
}

/// First identifier equal to `id`.
fn find_exact(ids: &Vec<String>, id: &str) -> (r: Option<usize>)
    ensures
        opt_int(r) == first_where(views(ids@), same_id(id@)),
{
    let ghost p = same_id(id@);
    let mut i: usize = 0;
    while i < ids.len()
        invariant
            i <= ids@.len(),
            p == same_id(id@),
            forall|j: int| 0 <= j < i ==> !p(#[trigger] views(ids@)[j]),
        decreases ids@.len() - i,
    {
        if str_eq(ids[i].as_str(), id) {
            proof {
                lemma_first_where_is(views(ids@), p, i as int);
            }
            return Some(i);
        }
        assert(!p(views(ids@)[i as int]));
        i = i + 1;
    }
    proof {
        lemma_first_where_none(views(ids@), p);
    }
    None
}

/// First identifier whose key matches `target`.
fn find_fuzzy(ids: &Vec<String>, target: &str) -> (r: Option<usize>)
    ensures
        opt_int(r) == first_where(views(ids@), key_matches(target@)),
{
    let ghost p = key_matches(target@);
    let mut i: usize = 0;
    while i < ids.len()
        invariant
            i <= ids@.len(),
            p == key_matches(target@),
            forall|j: int| 0 <= j < i ==> !p(#[trigger] views(ids@)[j]),
        decreases ids@.len() - i,
    {
        let lower = to_lowercase(ids[i].as_str());
        let key = strip_key_of(lower.as_str());
        if keys_match_exec(key.as_str(), target) {
            proof {
                lemma_first_where_is(views(ids@), p, i as int);
            }
            return Some(i);
        }
        assert(!p(views(ids@)[i as int]));
        i = i + 1;
    }
    proof {
        lemma_first_where_none(views(ids@), p);
    }
    None
}

impl ContextTracker {
    /// Index of the installed model (by identifier, in `installed_ids`) that
    /// the telemetry of `active_model_id` describes; `fallback_model_id` is
    /// the active chat model of the permission schema.
    pub fn select_model_index(installed_ids: &Vec<String>, active_model_id: &str, fallback_model_id: Option<&str>) -> (r: Option<usize>)
        ensures
            opt_int(r) == select_model(
                views(installed_ids@),
                active_model_id@,
                match fallback_model_id {
                    Some(f) => Some(f@),
                    None => None,
                },
            ),
    {
        let t = to_lowercase(trim(active_model_id));
        let target = strip_key_of(t.as_str());
        if let Some(i) = find_exact(installed_ids, active_model_id) {
            return Some(i);
        }
        if target.unicode_len() > 0 {
            if let Some(i) = find_fuzzy(installed_ids, target.as_str()) {
                return Some(i);
            }
        }
        if let Some(pid) = fallback_model_id {
            if let Some(i) = find_exact(installed_ids, pid) {
                return Some(i);
            }
            let pl = to_lowercase(pid);
            let pk = strip_key_of(pl.as_str());
            if let Some(i) = find_fuzzy(installed_ids, pk.as_str()) {
                return Some(i);
            }
        }
        if installed_ids.len() > 0 {
            Some(0)
        } else {
            None
        }
    }

    /// Tokens that a model's `context_window` text names (`32k` is 32768);
    /// 0 when it names none.
    pub fn parse_context_window(ctx: &str) -> (r: usize)
        requires
            context_window_tokens(ctx@) <= usize::MAX,
        ensures
            r == context_window_tokens(ctx@),
    {
        let n = ctx.unicode_len();
        if n > 0 && (ctx.get_char(n - 1) == 'k' || ctx.get_char(n - 1) == 'K') {
            let body = ctx.substring_char(0, n - 1);
            assert(body@ =~= ctx@.drop_last());
            match parse_usize(body) {
                Some(k) => {
                    assert(k * 1024 <= usize::MAX);
                    k * 1024
                },
                None => 0,
            }
        } else {
            match parse_usize(ctx) {
                Some(v) => v,
                None => 0,
            }
        }
    }

    /// Tokens that a model's `context_window` text names, as
    /// [`Self::parse_context_window`] reads them; none where that number
    /// does not fit a machine word.
    pub fn context_window_limit(ctx: &str) -> (r: Option<usize>)
        ensures
            match r {
                Some(v) => v == context_window_tokens(ctx@),
                None => context_window_tokens(ctx@) > usize::MAX,
            },
    {
        let n = ctx.unicode_len();
        if n > 0 && (ctx.get_char(n - 1) == 'k' || ctx.get_char(n - 1) == 'K') {
            let body = ctx.substring_char(0, n - 1);
            assert(body@ =~= ctx@.drop_last());
            match parse_usize(body) {
                Some(k) => k.checked_mul(1024),
                None => Some(0),
            }
        } else {
            match parse_usize(ctx) {
                Some(v) => Some(v),
                None => Some(0),
            }
        }
    }

    /// The model's native context: the parsed `context_window` when it says
    /// something, else the live allocation, else the header's `n_ctx` when
    /// set, else the VRAM envelope.
    pub fn native_context_limit(parsed: usize, live_ctx: Option<usize>, n_ctx: usize, envelope: usize) -> (r: usize)
        ensures
            r == if parsed != 0 {
                parsed
            } else {
                match live_ctx {
                    Some(l) => l,
                    None => if n_ctx > 0 { n_ctx } else { envelope },
                }
            },
    {
        if parsed != 0 {
            parsed
        } else {
            match live_ctx {
                Some(l) => l,
                None => if n_ctx > 0 { n_ctx } else { envelope },
            }
        }
    }

    /// The usable context limit: the live allocation, else the header's
    /// `n_ctx`, else the VRAM envelope capped by the native context; never
    /// below 2048.
    pub fn usable_context_limit(live_ctx: Option<usize>, n_ctx: usize, envelope: usize, native: usize) -> (r: usize)
        ensures
            ({
                let base = match live_ctx {
                    Some(l) => l as int,
                    None => if n_ctx > 0 {
                        n_ctx as int
                    } else if native > 0 && native < envelope {
                        native as int
                    } else {
                        envelope as int
                    },
                };
                r == if base > 2048 { base } else { 2048 }
            }),
    {
        let base = match live_ctx {
            Some(l) => l,
            None => if n_ctx > 0 {
                n_ctx
            } else if native > 0 && native < envelope {
                native
            } else {
                envelope
            },
        };
        if base > 2048 {
            base
        } else {
            2048
        }
    }

    /// Do the counts of a session fit machine words (the condition under
    /// which [`Self::compute_counts`] computes them)?
    pub fn counts_fit(
        registry: &ToolsRegistry,
        active_tool_ids: &Vec<String>,
        user_prompt_len: usize,
        history_len: usize,
        system_prompt_len: usize,
        generated_tokens: usize,
        usable_limit: usize,
    ) -> (r: bool)
        ensures
            r == counts_fit_spec(
                registry.installed_tools@,
                views(active_tool_ids@),
                user_prompt_len,
                history_len,
                system_prompt_len,
                generated_tokens,
                usable_limit,
            ),
    {
        if !tools_fit(&registry.installed_tools) {
            return false;
        }
        let t = Self::tally_tool_tokens(registry, active_tool_ids);
        let user: u128 = if user_prompt_len > 0 {
            if user_prompt_len / 4 > 1 { (user_prompt_len / 4) as u128 } else { 1 }
        } else {
            0
        };
        let system: u128 = if system_prompt_len > 0 {
            if system_prompt_len / 4 > 1 { (system_prompt_len / 4) as u128 } else { 1 }
        } else {
            0
        };
        let messages: u128 = user + (history_len / 4) as u128 + generated_tokens as u128;
        if messages > usize::MAX as u128 {
            return false;
        }
        let sum: u128 = system + messages + t.skills_tokens as u128 + t.plugins_tokens as u128 + t.mcp_tools_tokens as u128;
        if sum > usize::MAX as u128 {
            return false;
        }
        let total: u128 = if sum < usable_limit as u128 {
            sum
        } else {
            usable_limit as u128
        };
        total * 8192 <= usize::MAX as u128
    }

    /// Integer context breakdown of a session: prompt, history and output
    /// tokens, tokens of the active tools, what fits in `usable_limit`, and
    /// the KV-cache bytes that the active tokens take.
    pub fn compute_counts(
        registry: &ToolsRegistry,
        active_tool_ids: &Vec<String>,
        user_prompt_len: usize,
        history_len: usize,
        system_prompt_len: usize,
        generated_tokens: usize,
        usable_limit: usize,
        model_native_limit: usize,
    ) -> (r: ContextCounts)
        requires
            counts_fit_spec(
                registry.installed_tools@,
                views(active_tool_ids@),
                user_prompt_len,
                history_len,
                system_prompt_len,
                generated_tokens,
                usable_limit,
            ),
        ensures
            ({
                let t = tally(registry.installed_tools@, views(active_tool_ids@));
                let system = prompt_tokens(system_prompt_len as nat);
                let user = prompt_tokens(user_prompt_len as nat);
                let history = history_len / 4;
                let messages = user + history + generated_tokens;
                let tools = t.skills + t.plugins + t.mcp;
                let total = total_active_spec(system as int, messages, tools as int, usable_limit as int);
                &&& r.tools@ == t
                &&& r.total_context_limit == usable_limit
                &&& r.model_native_context == model_native_limit
                &&& r.system_prompt_tokens == system
                &&& r.user_prompt_tokens == user
                &&& r.chat_history_tokens == history
                &&& r.raw_messages_tokens == messages
                &&& r.messages_tokens == (if messages < usable_limit { messages } else { usable_limit as int })
                &&& r.active_tools_tokens == tools
                &&& r.total_active_tokens == total
                &&& r.free_space_tokens == usable_limit - total
                &&& r.active_tools_count == active_tool_ids@.len()
                &&& r.kv_cache_vram_bytes_allocated == total * 8192
            }),
    {
        let tools = Self::tally_tool_tokens(registry, active_tool_ids);
        let system = if system_prompt_len > 0 {
            if system_prompt_len / 4 > 1 { system_prompt_len / 4 } else { 1 }
        } else {
            0
        };
        let user = if user_prompt_len > 0 {
            if user_prompt_len / 4 > 1 { user_prompt_len / 4 } else { 1 }
        } else {
            0
        };
        let history = history_len / 4;
        let messages = user + history + generated_tokens;
        let active_tools = tools.skills_tokens + tools.plugins_tokens + tools.mcp_tools_tokens;
        let sum = system + messages + active_tools;
        let total = if sum < usable_limit { sum } else { usable_limit };
        let free = usable_limit - total;
        let kv = total * 2 * 32 * 128;
        ContextCounts {
            total_context_limit: usable_limit,
            model_native_context: model_native_limit,
            total_active_tokens: total,
            raw_messages_tokens: messages,
            messages_tokens: if messages < usable_limit { messages } else { usable_limit },
            system_prompt_tokens: system,
            free_space_tokens: free,
            user_prompt_tokens: user,
            chat_history_tokens: history,
            active_tools_tokens: active_tools,
            active_tools_count: active_tool_ids.len(),
            kv_cache_vram_bytes_allocated: kv,
            tools,
        }
    }
}

/// The active tokens never exceed the usable limit, and active plus free
/// tokens fill it exactly.
pub proof fn lemma_budget_fills_limit(system: int, messages: int, tools: int, limit: int)
    ensures
        total_active_spec(system, messages, tools, limit) <= limit,
        total_active_spec(system, messages, tools, limit) + (limit - total_active_spec(
            system,
            messages,
            tools,
            limit,
        )) == limit,
{
}

} // verus!
