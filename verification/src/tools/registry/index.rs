//! The master tools registry: every installed skill, plugin and MCP server.
use vstd::prelude::*;
use crate::documents::{parse_yaml_as_json, yaml_json_document};
use crate::json::{jbool, jget, jobject, Json, JsonView, or_default, ostr, str_opt};
use crate::keyed::{distinct_keys, find_key, first_match, lemma_distinct_same_keys, keyed_insert, keyed_view, lemma_first_match_view, lemma_update_first_match};
use crate::paths::{join, join_seq};
use crate::text::views;
use crate::tools::prompt_compiler::ToolDirs;
use super::types::{ExecutionMode, SecurityMode, ToolEntry, ToolEntryModel};

verus! {

/// The tools of a registry vector, by id.
pub open spec fn tools_map(s: Seq<(String, ToolEntry)>) -> Map<Seq<char>, ToolEntryModel> {
    keyed_view(s).map_values(|e: ToolEntry| e@)
}

/// Master tools registry, keyed by tool id.
#[derive(Debug)]
pub struct ToolsRegistry {
    /// Format version of the registry file.
    pub version: String,
    /// Time stamp of the last save.
    pub last_updated: String,
    /// Security mode given to newly discovered tools that name none.
    pub default_security_mode: SecurityMode,
    /// Tool id to entry; a repeated id stands for its first occurrence.
    pub installed_tools: Vec<(String, ToolEntry)>,
}

impl ToolsRegistry {
    /// The registered tools, by id.
    pub open spec fn tools(&self) -> Map<Seq<char>, ToolEntryModel> {
        tools_map(self.installed_tools@)
    }

    /// An empty registry with empty version and time stamp.
    pub fn new() -> (r: Self)
        ensures
            r.tools() == Map::<Seq<char>, ToolEntryModel>::empty(),
            r.version@ == Seq::<char>::empty(),
            r.last_updated@ == Seq::<char>::empty(),
            r.default_security_mode == SecurityMode::Sandboxed,
            distinct_keys(r.installed_tools@),
    {
        let r = ToolsRegistry {
            version: String::new(),
            last_updated: String::new(),
            default_security_mode: SecurityMode::Sandboxed,
            installed_tools: Vec::new(),
        };
        assert(r.tools() =~= Map::<Seq<char>, ToolEntryModel>::empty());
        r
    }

    /// The entry registered under `id`, if any.
    pub fn get_tool(&self, id: &str) -> (r: Option<&ToolEntry>)
        ensures
            match r {
                Some(e) => self.tools().contains_key(id@) && e@ == self.tools()[id@],
                None => !self.tools().contains_key(id@),
            },
    {
        match find_key(&self.installed_tools, id) {
            Some(i) => {
                proof {
                    lemma_first_match_view(self.installed_tools@, id@, i as int);
                }
                Some(&self.installed_tools[i].1)
            },
            None => None,
        }
    }

    /// Copies of all registered entries, in registry order.
    pub fn list_tools(&self) -> (r: Vec<ToolEntry>)
        ensures
            r@.map_values(|e: ToolEntry| e@) == self.installed_tools@.map_values(
                |p: (String, ToolEntry)| p.1@,
            ),
    {
        let mut r: Vec<ToolEntry> = Vec::new();
        let mut i: usize = 0;
        while i < self.installed_tools.len()
            invariant
                i <= self.installed_tools@.len(),
                r@.len() == i,
                forall|j: int| 0 <= j < i ==> #[trigger] r@[j]@ == self.installed_tools@[j].1@,
            decreases self.installed_tools@.len() - i,
        {
            let d = self.installed_tools[i].1.duplicate();
            r.push(d);
            i = i + 1;
        }
        assert(r@.map_values(|e: ToolEntry| e@) =~= self.installed_tools@.map_values(
            |p: (String, ToolEntry)| p.1@,
        ));
        r
    }

    /// Replaces the entry at the first occurrence `i` of its key.
    pub(crate) fn replace_entry(&mut self, i: usize, e: ToolEntry)
        requires
            first_match(old(self).installed_tools@, old(self).installed_tools@[i as int].0@, i as int),
        ensures
            final(self).tools() == old(self).tools().insert(
                old(self).installed_tools@[i as int].0@,
                e@,
            ),
            final(self).version == old(self).version,
            final(self).last_updated == old(self).last_updated,
            final(self).default_security_mode == old(self).default_security_mode,
            distinct_keys(old(self).installed_tools@) ==> distinct_keys(final(self).installed_tools@),
    {
        let ghost s = self.installed_tools@;
        let k = self.installed_tools[i].0.clone();
        let ghost ev = e;
        self.installed_tools.set(i, (k, e));
        proof {
            lemma_update_first_match(s, s[i as int].0@, i as int, self.installed_tools@, ev);
            if distinct_keys(s) {
                lemma_distinct_same_keys(s, self.installed_tools@);
            }
            assert(self.tools() =~= keyed_view(s).map_values(|x: ToolEntry| x@).insert(
                s[i as int].0@,
                ev@,
            ));
        }
    }

    /// Sets the enabled switch of tool `id`; answers whether the tool exists
    /// (the caller then persists the registry).
    pub fn set_tool_enabled(&mut self, id: &str, enabled: bool) -> (found: bool)
        ensures
            found == old(self).tools().contains_key(id@),
            found ==> final(self).tools() == old(self).tools().insert(
                id@,
                ToolEntryModel { enabled: enabled, ..old(self).tools()[id@] },
            ),
            !found ==> final(self).tools() == old(self).tools(),
            final(self).default_security_mode == old(self).default_security_mode,
            final(self).version == old(self).version,
            final(self).last_updated == old(self).last_updated,
            distinct_keys(old(self).installed_tools@) ==> distinct_keys(final(self).installed_tools@),
    {
        match find_key(&self.installed_tools, id) {
            Some(i) => {
                proof {
                    lemma_first_match_view(self.installed_tools@, id@, i as int);
                }
                let mut e = self.installed_tools[i].1.duplicate();
                e.enabled = enabled;
                self.replace_entry(i, e);
                true
            },
            None => false,
        }
    }

    /// Sets the execution mode of tool `id`; answers whether the tool exists.
    pub fn set_tool_execution_mode(&mut self, id: &str, mode: ExecutionMode) -> (found: bool)
        ensures
            found == old(self).tools().contains_key(id@),
            found ==> final(self).tools() == old(self).tools().insert(
                id@,
                ToolEntryModel { execution_mode: mode, ..old(self).tools()[id@] },
            ),
            !found ==> final(self).tools() == old(self).tools(),
            final(self).default_security_mode == old(self).default_security_mode,
            final(self).version == old(self).version,
            final(self).last_updated == old(self).last_updated,
            distinct_keys(old(self).installed_tools@) ==> distinct_keys(final(self).installed_tools@),
    {
        match find_key(&self.installed_tools, id) {
            Some(i) => {
                proof {
                    lemma_first_match_view(self.installed_tools@, id@, i as int);
                }
                let mut e = self.installed_tools[i].1.duplicate();
                e.execution_mode = mode;
                self.replace_entry(i, e);
                true
            },
            None => false,
        }
    }

    /// Sets the default turn lifetime of tool `id`; answers whether the tool
    /// exists.
    pub fn set_tool_default_turns(&mut self, id: &str, turns: i32) -> (found: bool)
        ensures
            found == old(self).tools().contains_key(id@),
            found ==> final(self).tools() == old(self).tools().insert(
                id@,
                ToolEntryModel { default_turns: turns, ..old(self).tools()[id@] },
            ),
            !found ==> final(self).tools() == old(self).tools(),
            final(self).default_security_mode == old(self).default_security_mode,
            final(self).version == old(self).version,
            final(self).last_updated == old(self).last_updated,
            distinct_keys(old(self).installed_tools@) ==> distinct_keys(final(self).installed_tools@),
    {
        match find_key(&self.installed_tools, id) {
            Some(i) => {
                proof {
                    lemma_first_match_view(self.installed_tools@, id@, i as int);
                }
                let mut e = self.installed_tools[i].1.duplicate();
                e.default_turns = turns;
                self.replace_entry(i, e);
                true
            },
            None => false,
        }
    }

    /// Sets the security mode of tool `id`; answers whether the tool exists.
    pub fn set_tool_security_mode(&mut self, id: &str, mode: SecurityMode) -> (found: bool)
        ensures
            found == old(self).tools().contains_key(id@),
            found ==> final(self).tools() == old(self).tools().insert(
                id@,
                ToolEntryModel { security_mode: mode, ..old(self).tools()[id@] },
            ),
            !found ==> final(self).tools() == old(self).tools(),
            final(self).default_security_mode == old(self).default_security_mode,
            final(self).version == old(self).version,
            final(self).last_updated == old(self).last_updated,
            distinct_keys(old(self).installed_tools@) ==> distinct_keys(final(self).installed_tools@),
    {
        match find_key(&self.installed_tools, id) {
            Some(i) => {
                proof {
                    lemma_first_match_view(self.installed_tools@, id@, i as int);
                }
                let mut e = self.installed_tools[i].1.duplicate();
                e.security_mode = mode;
                self.replace_entry(i, e);
                true
            },
            None => false,
        }
    }
}

/// The kinds of entries of a legacy registry file.
#[derive(Debug, Clone, Copy, PartialEq, Eq, Structural)]
pub enum LegacyKind {
    Plugin,
    Skill,
    Mcp,
}

/// The entry that a legacy registry member `k: v` of the given kind
/// becomes, with `dir` the folder of that kind.
pub open spec fn legacy_entry(kind: LegacyKind, k: Seq<char>, v: JsonView, dir: Seq<char>) -> ToolEntryModel {
    ToolEntryModel {
        id: k,
        name: or_default(ostr(jget(v, "name"@)), k),
        category: match kind {
            LegacyKind::Plugin => "plugin"@,
            LegacyKind::Skill => "skill"@,
            LegacyKind::Mcp => "mcp"@,
        },
        version: or_default(ostr(jget(v, "version"@)), "1.0.0"@),
        description: or_default(ostr(jget(v, "description"@)), Seq::empty()),
        local_dir: join_seq(dir, k),
        binary_path: if kind == LegacyKind::Plugin { ostr(jget(v, "binary"@)) } else { None },
        enabled: match jget(v, "enabled"@) {
            Some(e) => or_default(jbool(e), true),
            None => true,
        },
        security_mode: if kind == LegacyKind::Mcp { SecurityMode::Strict } else { SecurityMode::FullAccess },
        execution_mode: if kind == LegacyKind::Mcp { ExecutionMode::Manual } else { ExecutionMode::Auto },
        default_turns: if kind == LegacyKind::Mcp { 3i32 } else { -1i32 },
        permissions: Seq::empty(),
        semantic_triggers: Seq::empty(),
        activation_events: Seq::empty(),
    }
}

/// The tools after the members of one legacy section are inserted in order.
pub open spec fn legacy_fold(m: Map<Seq<char>, ToolEntryModel>, kind: LegacyKind, members: Seq<(Seq<char>, JsonView)>, dir: Seq<char>) -> Map<Seq<char>, ToolEntryModel>
    decreases members.len(),
{
    if members.len() == 0 {
        m
    } else {
        let p = members.last();
        legacy_fold(m, kind, members.drop_last(), dir).insert(p.0, legacy_entry(kind, p.0, p.1, dir))
    }
}

/// The members of a legacy section (none when it is not an object).
pub open spec fn legacy_section(v: JsonView, name: Seq<char>) -> Seq<(Seq<char>, JsonView)> {
    match jget(v, name) {
        Some(s) => match jobject(s) {
            Some(m) => m,
            None => Seq::empty(),
        },
        None => Seq::empty(),
    }
}

/// The tools migrated from a legacy registry: its plugins, then its skills,
/// then its MCP servers.
pub open spec fn legacy_tools(v: JsonView, plugins_dir: Seq<char>, skills_dir: Seq<char>, mcp_dir: Seq<char>) -> Map<Seq<char>, ToolEntryModel> {
    let m1 = legacy_fold(Map::empty(), LegacyKind::Plugin, legacy_section(v, "plugins"@), plugins_dir);
    let m2 = legacy_fold(m1, LegacyKind::Skill, legacy_section(v, "skills"@), skills_dir);
    legacy_fold(m2, LegacyKind::Mcp, legacy_section(v, "mcp"@), mcp_dir)
}

/// Inserts the members of one legacy section.
fn insert_legacy(tools: &mut Vec<(String, ToolEntry)>, kind: LegacyKind, section: Option<&Json>, dir: &str)
    ensures
        tools_map(final(tools)@) == legacy_fold(
            tools_map(old(tools)@),
            kind,
            match section {
                Some(s) => match jobject(s@) {
                    Some(m) => m,
                    None => Seq::empty(),
                },
                None => Seq::empty(),
            },
            dir@,
        ),
        distinct_keys(old(tools)@) ==> distinct_keys(final(tools)@),
{
    let members = match section {
        Some(s) => s.as_object(),
        None => None,
    };
    match members {
        None => {
            assert(legacy_fold(tools_map(tools@), kind, Seq::empty(), dir@) == tools_map(tools@));
        },
        Some(m) => {
            let ghost mv = m@.map_values(|p: (String, Json)| (p.0@, p.1@));
            let ghost start = tools_map(tools@);
            let mut i: usize = 0;
            while i < m.len()
                invariant
                    i <= m@.len(),
                    mv == m@.map_values(|p: (String, Json)| (p.0@, p.1@)),
                    start == tools_map(old(tools)@),
                    tools_map(tools@) == legacy_fold(start, kind, mv.subrange(0, i as int), dir@),
                    distinct_keys(old(tools)@) ==> distinct_keys(tools@),
                decreases m@.len() - i,
            {
                proof {
                    assert(mv.subrange(0, i + 1).drop_last() =~= mv.subrange(0, i as int));
                    assert(mv.subrange(0, i + 1).last() == (m@[i as int].0@, m@[i as int].1@));
                }
                let k = &m[i].0;
                let v = &m[i].1;
                let name = match str_opt(v.get("name")) {
                    Some(s) => String::from_str(s),
                    None => k.clone(),
                };
                let version = match str_opt(v.get("version")) {
                    Some(s) => String::from_str(s),
                    None => String::from_str("1.0.0"),
                };
                let description = match str_opt(v.get("description")) {
                    Some(s) => String::from_str(s),
                    None => String::new(),
                };
                let binary_path = if kind == LegacyKind::Plugin {
                    match str_opt(v.get("binary")) {
                        Some(s) => Some(String::from_str(s)),
                        None => None,
                    }
                } else {
                    None
                };
                let enabled = match v.get("enabled") {
                    Some(e) => match e.as_bool() {
                        Some(b) => b,
                        None => true,
                    },
                    None => true,
                };
                let e = ToolEntry {
                    id: k.clone(),
                    name,
                    category: String::from_str(
                        match kind {
                            LegacyKind::Plugin => "plugin",
                            LegacyKind::Skill => "skill",
                            LegacyKind::Mcp => "mcp",
                        },
                    ),
                    version,
                    description,
                    local_dir: join(dir, k.as_str()),
                    binary_path,
                    enabled,
                    security_mode: if kind == LegacyKind::Mcp { SecurityMode::Strict } else { SecurityMode::FullAccess },
                    execution_mode: if kind == LegacyKind::Mcp { ExecutionMode::Manual } else { ExecutionMode::Auto },
                    default_turns: if kind == LegacyKind::Mcp { 3 } else { -1 },
                    permissions: Vec::new(),
                    semantic_triggers: Vec::new(),
                    activation_events: Vec::new(),
                };
                assert(views(e.permissions@) =~= Seq::empty());
                assert(views(e.semantic_triggers@) =~= Seq::empty());
                assert(views(e.activation_events@) =~= Seq::empty());
                assert(e@ =~= legacy_entry(kind, k@, v@, dir@));
                let ghost ev = e@;
                let ghost before = tools_map(tools@);
                let ghost kv = k@;
                keyed_insert(tools, k.clone(), e);
                assert(tools_map(tools@) =~= before.insert(kv, ev));
                i = i + 1;
            }
            assert(mv.subrange(0, mv.len() as int) =~= mv);
        },
    }
}

impl ToolsRegistry {
    /// The registry migrated from the text of a legacy YAML registry file,
    /// read as YAML into JSON data; none where serde_yaml reads none.
    pub fn migrate_legacy_yaml(content: &str, dirs: &ToolDirs) -> (r: Option<ToolsRegistry>)
        ensures
            match yaml_json_document(content@) {
                Some(v) => r matches Some(reg) && reg.tools() == legacy_tools(
                    v,
                    dirs.plugins_dir@,
                    dirs.skills_dir@,
                    dirs.mcp_dir@,
                ) && reg.version@.len() == 0 && reg.last_updated@.len() == 0 && reg.default_security_mode
                    == SecurityMode::Sandboxed && distinct_keys(reg.installed_tools@),
                None => r is None,
            },
    {
        match parse_yaml_as_json(content) {
            Some(legacy) => Some(Self::migrate_legacy(&legacy, dirs)),
            None => None,
        }
    }

    /// The registry that a legacy registry file (`plugins`, `skills` and
    /// `mcp` sections) migrates to, before it is synchronised with the disk.
    pub fn migrate_legacy(legacy: &Json, dirs: &ToolDirs) -> (r: ToolsRegistry)
        ensures
            r.tools() == legacy_tools(legacy@, dirs.plugins_dir@, dirs.skills_dir@, dirs.mcp_dir@),
            r.version@.len() == 0,
            r.last_updated@.len() == 0,
            r.default_security_mode == SecurityMode::Sandboxed,
            distinct_keys(r.installed_tools@),
    {
        let mut reg = ToolsRegistry::new();
        insert_legacy(&mut reg.installed_tools, LegacyKind::Plugin, legacy.get("plugins"), dirs.plugins_dir.as_str());
        insert_legacy(&mut reg.installed_tools, LegacyKind::Skill, legacy.get("skills"), dirs.skills_dir.as_str());
        insert_legacy(&mut reg.installed_tools, LegacyKind::Mcp, legacy.get("mcp"), dirs.mcp_dir.as_str());
        reg
    }
}

impl Default for ToolsRegistry {
    /// An empty registry.
    fn default() -> (r: Self)
        ensures
            r.tools() == Map::<Seq<char>, ToolEntryModel>::empty(),
            r.version@.len() == 0,
            r.last_updated@.len() == 0,
            r.default_security_mode == SecurityMode::Sandboxed,
    {
        ToolsRegistry::new()
    }
}

} // verus!
