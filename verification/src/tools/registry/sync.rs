//! Synchronisation of the registry with the tool folders on disk: what the
//! manifests of a tool folder say about it, and how the registry absorbs a
//! scan of the folders.
use vstd::prelude::*;
use crate::documents::{json_document, parse_json, parse_yaml_as_json, yaml_json_document};
use crate::json::{collect_strings, ji64, jbool, jget, Json, JsonView, oarray, or_default, or_else, ostr, oview, str_opt};
use crate::keyed::{distinct_keys, lemma_distinct_push, lemma_distinct_remove, find_key, first_match, has_key, lemma_first_match_exists, lemma_first_match_view, lemma_push_new_key};
use crate::text::{
    concat, contains_str, find_first, first_occ, opt_str_eq, opt_view, replace_all, replace_seq, starts_with,
    starts_with_seq, str_eq, strings_eq, views,
};
use crate::tools::skills::parser::{strings_of, text_of, triggers_of};
use super::index::{tools_map, ToolsRegistry};
use super::types::{execution_mode_of, mode_key, security_mode_of, ExecutionMode, SecurityMode, ToolEntry, ToolEntryModel};

verus! {

/// What probing one tool folder found.
#[derive(Debug)]
pub struct ToolProbe {
    pub name: String,
    pub version: String,
    pub description: String,
    pub binary_path: Option<String>,
    pub triggers: Vec<String>,
    pub permissions: Vec<String>,
    pub security_mode: Option<SecurityMode>,
    pub execution_mode: ExecutionMode,
    pub default_turns: i32,
}

/// A probe with its texts as character sequences.
#[verifier::ext_equal]
pub ghost struct ProbeView {
    pub name: Seq<char>,
    pub version: Seq<char>,
    pub description: Seq<char>,
    pub binary_path: Option<Seq<char>>,
    pub triggers: Seq<Seq<char>>,
    pub permissions: Seq<Seq<char>>,
    pub security_mode: Option<SecurityMode>,
    pub execution_mode: ExecutionMode,
    pub default_turns: i32,
}

impl View for ToolProbe {
    type V = ProbeView;

    open spec fn view(&self) -> ProbeView {
        ProbeView {
            name: self.name@,
            version: self.version@,
            description: self.description@,
            binary_path: opt_view(self.binary_path),
            triggers: views(self.triggers@),
            permissions: views(self.permissions@),
            security_mode: self.security_mode,
            execution_mode: self.execution_mode,
            default_turns: self.default_turns,
        }
    }
}

/// The kind of a tool folder.
#[derive(Debug, Clone, Copy, PartialEq, Eq, Structural)]
pub enum ToolKind {
    Skill,
    Plugin,
    Mcp,
}

/// A tool folder found by a scan: its id (folder name), path and probe.
#[derive(Debug)]
pub struct FoundTool {
    pub id: String,
    pub path: String,
    pub probe: ToolProbe,
}

/// A found tool with its texts as character sequences.
pub ghost struct FoundView {
    pub id: Seq<char>,
    pub path: Seq<char>,
    pub probe: ProbeView,
}

impl View for FoundTool {
    type V = FoundView;

    open spec fn view(&self) -> FoundView {
        FoundView { id: self.id@, path: self.path@, probe: self.probe@ }
    }
}

/// Views of found tools.
pub open spec fn found_views(v: Seq<FoundTool>) -> Seq<FoundView> {
    v.map_values(|f: FoundTool| f@)
}

/// A scan of the tool folders: the paths that exist, and the folders found
/// under the skills, plugins and MCP folders, in listing order.
#[derive(Debug)]
pub struct ToolScan {
    pub existing_paths: Vec<String>,
    pub skills: Vec<FoundTool>,
    pub plugins: Vec<FoundTool>,
    pub mcps: Vec<FoundTool>,
}

/// The probe of a folder that says nothing.
pub open spec fn empty_probe(binary: Option<Seq<char>>, mode: ExecutionMode, turns: i32) -> ProbeView {
    ProbeView {
        name: Seq::empty(),
        version: Seq::empty(),
        description: Seq::empty(),
        binary_path: binary,
        triggers: Seq::empty(),
        permissions: Seq::empty(),
        security_mode: None,
        execution_mode: mode,
        default_turns: turns,
    }
}

/// A mode member parsed as an execution mode, with a default.
pub open spec fn exec_mode_member(v: JsonView, dflt: ExecutionMode) -> ExecutionMode {
    match ostr(jget(v, "execution_mode"@)) {
        Some(s) => match execution_mode_of(mode_key(s)) {
            Some(m) => m,
            None => dflt,
        },
        None => dflt,
    }
}

/// A mode text parsed as a security mode.
pub open spec fn sec_mode_text(s: Option<Seq<char>>) -> Option<SecurityMode> {
    match s {
        Some(t) => security_mode_of(mode_key(t)),
        None => None,
    }
}

/// The `default_turns` member, with a default, cut to 32 bits.
pub open spec fn turns_member(v: JsonView, dflt: i64) -> i32 {
    (match jget(v, "default_turns"@) {
        Some(t) => match ji64(t) {
            Some(n) => n,
            None => dflt,
        },
        None => dflt,
    }) as i32
}

/// The probe of a skill frontmatter (`None`: absent or not valid).
pub open spec fn frontmatter_probe(yaml: Option<JsonView>) -> ProbeView {
    match yaml {
        Some(v) => ProbeView {
            name: text_of(jget(v, "name"@)),
            version: text_of(or_else(jget(v, "version"@), jget(v, "latest_version"@))),
            description: text_of(jget(v, "description"@)),
            binary_path: None,
            triggers: triggers_of(v),
            permissions: Seq::empty(),
            security_mode: sec_mode_text(ostr(jget(v, "security_mode"@))),
            execution_mode: exec_mode_member(v, ExecutionMode::Auto),
            default_turns: turns_member(v, -1i64),
        },
        None => empty_probe(None, ExecutionMode::Auto, -1i32),
    }
}

/// The name a manifest gives: its `id`, else its `name`.
pub open spec fn manifest_name(v: JsonView) -> Seq<char> {
    match ostr(jget(v, "id"@)) {
        Some(s) => s,
        None => text_of(jget(v, "name"@)),
    }
}

/// The triggers a manifest gives: `discovery.semantic_triggers` when it has
/// a `discovery` member, else its `triggers` list.
pub open spec fn manifest_triggers(v: JsonView) -> Seq<Seq<char>> {
    match jget(v, "discovery"@) {
        Some(d) => strings_of(oarray(jget(d, "semantic_triggers"@))),
        None => strings_of(oarray(jget(v, "triggers"@))),
    }
}

/// Network permission of a manifest's `permissions` member.
pub open spec fn net_allowed(p: JsonView) -> bool {
    match jget(p, "network_access"@) {
        Some(n) => jbool(n) == Some(true),
        None => false,
    }
}

/// File-system permission of a manifest's `permissions` member.
pub open spec fn fs_allowed(p: JsonView) -> bool {
    or_default(ostr(jget(p, "file_system"@)), "none"@) != "none"@
}

/// Permissions that a plugin manifest grants.
pub open spec fn plugin_permissions(v: JsonView) -> Seq<Seq<char>> {
    match jget(v, "permissions"@) {
        Some(p) => (if net_allowed(p) {
            seq!["net:fetch"@]
        } else {
            Seq::empty()
        }) + (if fs_allowed(p) {
            seq!["fs:access"@]
        } else {
            Seq::empty()
        }),
        None => Seq::empty(),
    }
}

/// The probe of a plugin folder: its `package.json` when that parsed, else
/// its `SKILL.md` frontmatter when it has one, else nothing but its binary.
pub open spec fn plugin_probe(binary: Option<Seq<char>>, manifest: Option<JsonView>, skill: Option<ProbeView>) -> ProbeView {
    match manifest {
        Some(v) => ProbeView {
            name: manifest_name(v),
            version: text_of(or_else(jget(v, "latest_version"@), jget(v, "version"@))),
            description: text_of(jget(v, "description"@)),
            binary_path: binary,
            triggers: manifest_triggers(v),
            permissions: plugin_permissions(v),
            security_mode: sec_mode_text(ostr(jget(v, "security_mode"@))),
            execution_mode: exec_mode_member(v, ExecutionMode::Auto),
            default_turns: turns_member(v, -1i64),
        },
        None => match skill {
            Some(p) => ProbeView { binary_path: binary, permissions: Seq::empty(), ..p },
            None => empty_probe(binary, ExecutionMode::Auto, -1i32),
        },
    }
}

/// The probe of an MCP server folder from its `package.json` (when it parsed).
pub open spec fn mcp_probe(manifest: Option<JsonView>) -> ProbeView {
    match manifest {
        Some(v) => ProbeView {
            name: manifest_name(v),
            version: text_of(or_else(jget(v, "latest_version"@), jget(v, "version"@))),
            description: text_of(jget(v, "description"@)),
            binary_path: None,
            triggers: manifest_triggers(v),
            permissions: match jget(v, "permissions"@) {
                Some(p) => if net_allowed(p) {
                    seq!["net:fetch"@]
                } else {
                    Seq::empty()
                },
                None => Seq::empty(),
            },
            security_mode: sec_mode_text(
                ostr(
                    or_else(
                        jget(v, "security_mode"@),
                        match jget(v, "mcp"@) {
                            Some(m) => jget(m, "security_mode"@),
                            None => None,
                        },
                    ),
                ),
            ),
            execution_mode: exec_mode_member(v, ExecutionMode::Manual),
            default_turns: turns_member(v, 3i64),
        },
        None => empty_probe(None, ExecutionMode::Manual, 3i32),
    }
}

/// The frontmatter text of a file whose line endings are `\n`: after an
/// opening `---` line at the very start (or the first one after a line
/// break), up to the next `\n---`.
pub open spec fn frontmatter_text_spec(n: Seq<char>) -> Option<Seq<char>> {
    let start = if starts_with_seq(n, "---\n"@) {
        Some(0int)
    } else {
        match first_occ(n, "\n---\n"@, 0) {
            Some(i) => Some(i + 1),
            None => None,
        }
    };
    match start {
        Some(s) => match first_occ(n, "\n---"@, s + 4) {
            Some(e) => Some(n.subrange(s + 4, e)),
            None => None,
        },
        None => None,
    }
}

/// The category name of a kind.
pub open spec fn kind_label(k: ToolKind) -> Seq<char> {
    match k {
        ToolKind::Skill => "skill"@,
        ToolKind::Plugin => "plugin"@,
        ToolKind::Mcp => "mcp"@,
    }
}

/// A registered entry refreshed from a new probe of its folder.
pub open spec fn updated_entry(old: ToolEntryModel, kind: ToolKind, path: Seq<char>, p: ProbeView) -> ToolEntryModel {
    ToolEntryModel {
        name: if p.name.len() > 0 { p.name } else { old.name },
        version: if p.version.len() > 0 { p.version } else { old.version },
        description: if p.description.len() > 0 { p.description } else { old.description },
        binary_path: if kind == ToolKind::Plugin { p.binary_path } else { old.binary_path },
        semantic_triggers: p.triggers,
        permissions: if kind == ToolKind::Skill { old.permissions } else { p.permissions },
        execution_mode: p.execution_mode,
        security_mode: match p.security_mode {
            Some(m) => m,
            None => old.security_mode,
        },
        default_turns: p.default_turns,
        local_dir: path,
        ..old
    }
}

/// The entry of a newly discovered tool folder.
pub open spec fn new_entry(kind: ToolKind, id: Seq<char>, path: Seq<char>, p: ProbeView, default_sec: SecurityMode) -> ToolEntryModel {
    ToolEntryModel {
        id: id,
        name: if p.name.len() == 0 { id } else { p.name },
        category: kind_label(kind),
        version: p.version,
        description: p.description,
        local_dir: path,
        binary_path: if kind == ToolKind::Plugin { p.binary_path } else { None },
        enabled: true,
        security_mode: match p.security_mode {
            Some(m) => m,
            None => if kind == ToolKind::Plugin && p.binary_path is Some {
                SecurityMode::FullAccess
            } else {
                default_sec
            },
        },
        execution_mode: p.execution_mode,
        default_turns: p.default_turns,
        permissions: if kind == ToolKind::Skill { Seq::empty() } else { p.permissions },
        semantic_triggers: p.triggers,
        activation_events: match kind {
            ToolKind::Skill => Seq::empty(),
            ToolKind::Plugin => seq!["on_command:use plugin::"@ + id],
            ToolKind::Mcp => seq!["on_command:use mcp::"@ + id],
        },
    }
}

/// Registry tools and whether anything changed.
pub ghost struct SyncState {
    pub tools: Map<Seq<char>, ToolEntryModel>,
    pub changed: bool,
}

/// The state after one found folder is absorbed.
pub open spec fn sync_step(st: SyncState, kind: ToolKind, f: FoundView, default_sec: SecurityMode) -> SyncState {
    if st.tools.contains_key(f.id) {
        let upd = updated_entry(st.tools[f.id], kind, f.path, f.probe);
        SyncState { tools: st.tools.insert(f.id, upd), changed: st.changed || upd != st.tools[f.id] }
    } else {
        SyncState { tools: st.tools.insert(f.id, new_entry(kind, f.id, f.path, f.probe, default_sec)), changed: true }
    }
}

/// The state after the found folders are absorbed in order.
pub open spec fn sync_all(st: SyncState, kind: ToolKind, found: Seq<FoundView>, default_sec: SecurityMode) -> SyncState
    decreases found.len(),
{
    if found.len() == 0 {
        st
    } else {
        sync_step(sync_all(st, kind, found.drop_last(), default_sec), kind, found.last(), default_sec)
    }
}

/// Is the registry entry's folder among the existing paths?
pub open spec fn folder_exists(existing: Seq<Seq<char>>) -> spec_fn((String, ToolEntry)) -> bool {
    |p: (String, ToolEntry)| existing.contains(p.1.local_dir@)
}

/// The registry after a whole synchronisation with a scan.
pub open spec fn synced(old: Seq<(String, ToolEntry)>, scan: &ToolScan, default_sec: SecurityMode) -> SyncState {
    let kept = old.filter(folder_exists(views(scan.existing_paths@)));
    let s0 = SyncState { tools: tools_map(kept), changed: kept.len() != old.len() };
    let s1 = sync_all(s0, ToolKind::Skill, found_views(scan.skills@), default_sec);
    let s2 = sync_all(s1, ToolKind::Plugin, found_views(scan.plugins@), default_sec);
    sync_all(s2, ToolKind::Mcp, found_views(scan.mcps@), default_sec)
}

/// Does a found folder of `found` have id `k`?
pub open spec fn found_has(found: Seq<FoundView>, k: Seq<char>) -> bool {
    exists|i: int| 0 <= i < found.len() && (#[trigger] found[i]).id == k
}

/// Does a folder after position `i` of `found` have the same id?
pub open spec fn found_later(found: Seq<FoundView>, i: int) -> bool {
    exists|j: int| i < j < found.len() && (#[trigger] found[j]).id == found[i].id
}

/// Absorbing found folders registers each of their ids, leaves the other
/// entries as they were, and points the entry of each folder's id at the
/// last folder with that id.
proof fn lemma_sync_all_shape(st: SyncState, kind: ToolKind, found: Seq<FoundView>, dsec: SecurityMode)
    ensures
        forall|k: Seq<char>|
            #[trigger] sync_all(st, kind, found, dsec).tools.contains_key(k) <==> (st.tools.contains_key(k) || found_has(
                found,
                k,
            )),
        forall|k: Seq<char>|
            !found_has(found, k) && st.tools.contains_key(k) ==> #[trigger] sync_all(st, kind, found, dsec).tools[k]
                == st.tools[k],
        forall|i: int|
            0 <= i < found.len() && !found_later(found, i) ==> (#[trigger] sync_all(st, kind, found, dsec).tools[found[i].id]).local_dir
                == found[i].path,
    decreases found.len(),
{
    if found.len() > 0 {
        let prev = found.drop_last();
        let f = found.last();
        let n = found.len() - 1;
        lemma_sync_all_shape(st, kind, prev, dsec);
        let before = sync_all(st, kind, prev, dsec);
        let after = sync_all(st, kind, found, dsec);
        assert(after == sync_step(before, kind, f, dsec));
        assert(after.tools.contains_key(f.id));
        assert(after.tools[f.id].local_dir == f.path);
        assert forall|k: Seq<char>| #[trigger] after.tools.contains_key(k) <==> (st.tools.contains_key(k) || found_has(found, k)) by {
            if found_has(found, k) {
                let i = choose|i: int| 0 <= i < found.len() && (#[trigger] found[i]).id == k;
                if i < n {
                    assert(prev[i] == found[i]);
                    assert(found_has(prev, k));
                }
            }
            if found_has(prev, k) {
                let i = choose|i: int| 0 <= i < prev.len() && (#[trigger] prev[i]).id == k;
                assert(found[i] == prev[i]);
                assert(found_has(found, k));
            }
            if k == f.id {
                assert(found[n] == f);
                assert(found_has(found, k));
            }
        }
        assert forall|k: Seq<char>| !found_has(found, k) && st.tools.contains_key(k) implies #[trigger] after.tools[k]
            == st.tools[k] by {
            assert(found[n] == f);
            if found_has(prev, k) {
                let i = choose|i: int| 0 <= i < prev.len() && (#[trigger] prev[i]).id == k;
                assert(found[i] == prev[i]);
            }
        }
        assert forall|i: int| 0 <= i < found.len() && !found_later(found, i) implies (#[trigger] after.tools[found[i].id]).local_dir
            == found[i].path by {
            if i < n {
                assert(found[n] == f);
                assert(f.id != found[i].id);
                assert(prev[i] == found[i]);
                if found_later(prev, i) {
                    let j = choose|j: int| i < j < prev.len() && (#[trigger] prev[j]).id == prev[i].id;
                    assert(found[j] == prev[j]);
                }
            }
        }
    }
}

/// Absorbing found folders keeps the enabled flag and category of each
/// entry that was there, and registers each new id enabled, in the kind's
/// category.
proof fn lemma_sync_all_flags(st: SyncState, kind: ToolKind, found: Seq<FoundView>, dsec: SecurityMode)
    ensures
        forall|k: Seq<char>|
            st.tools.contains_key(k) ==> (#[trigger] sync_all(st, kind, found, dsec).tools[k]).enabled == st.tools[k].enabled
                && sync_all(st, kind, found, dsec).tools[k].category == st.tools[k].category,
        forall|k: Seq<char>|
            !st.tools.contains_key(k) && found_has(found, k) ==> (#[trigger] sync_all(st, kind, found, dsec).tools[k]).enabled
                && sync_all(st, kind, found, dsec).tools[k].category == kind_label(kind),
    decreases found.len(),
{
    if found.len() > 0 {
        let prev = found.drop_last();
        let f = found.last();
        let n = found.len() - 1;
        lemma_sync_all_flags(st, kind, prev, dsec);
        lemma_sync_all_shape(st, kind, prev, dsec);
        let before = sync_all(st, kind, prev, dsec);
        let after = sync_all(st, kind, found, dsec);
        assert(after == sync_step(before, kind, f, dsec));
        assert forall|k: Seq<char>| st.tools.contains_key(k) implies (#[trigger] after.tools[k]).enabled == st.tools[k].enabled
            && after.tools[k].category == st.tools[k].category by {
            assert(before.tools.contains_key(k));
        }
        assert forall|k: Seq<char>| !st.tools.contains_key(k) && found_has(found, k) implies (#[trigger] after.tools[k]).enabled
            && after.tools[k].category == kind_label(kind) by {
            let i = choose|i: int| 0 <= i < found.len() && (#[trigger] found[i]).id == k;
            if found_has(prev, k) {
                assert(before.tools.contains_key(k));
            } else {
                if i < n {
                    assert(prev[i] == found[i]);
                }
                assert(k == f.id);
                assert(!before.tools.contains_key(k));
            }
        }
    }
}

/// Absorbing a found folder whose probe declares a security mode gives its
/// tool that mode, whether it was registered or not; a registered tool
/// whose mode it changes makes the step report a change. A folder that
/// declares none leaves a registered tool's mode as it was.
pub proof fn lemma_absorb_takes_declared_security(st: SyncState, kind: ToolKind, f: FoundView, dsec: SecurityMode)
    ensures
        sync_step(st, kind, f, dsec).tools.contains_key(f.id),
        f.probe.security_mode matches Some(m) ==> sync_step(st, kind, f, dsec).tools[f.id].security_mode == m,
        (f.probe.security_mode matches Some(m) && st.tools.contains_key(f.id) && st.tools[f.id].security_mode != m)
            ==> sync_step(st, kind, f, dsec).changed,
        (f.probe.security_mode is None && st.tools.contains_key(f.id)) ==> sync_step(st, kind, f, dsec).tools[f.id].security_mode
            == st.tools[f.id].security_mode,
{
}

/// Absorbing a found folder points its tool at the folder and takes the
/// probe's triggers, execution mode and turn lifetime; a non-empty probed
/// name, version or description replaces the registered one; a plugin
/// takes the probed binary and, like an MCP server, the probed
/// permissions. A new tool is enabled, in its kind's category, named by
/// the probe or else by its id; a registered one keeps its enabled flag,
/// category and id.
pub proof fn lemma_absorb_refreshes_fields(st: SyncState, kind: ToolKind, f: FoundView, dsec: SecurityMode)
    ensures
        ({
            let e = sync_step(st, kind, f, dsec).tools[f.id];
            &&& e.local_dir == f.path
            &&& e.semantic_triggers == f.probe.triggers
            &&& e.execution_mode == f.probe.execution_mode
            &&& e.default_turns == f.probe.default_turns
            &&& (f.probe.name.len() > 0 ==> e.name == f.probe.name)
            &&& (f.probe.version.len() > 0 ==> e.version == f.probe.version)
            &&& (f.probe.description.len() > 0 ==> e.description == f.probe.description)
            &&& (kind == ToolKind::Plugin ==> e.binary_path == f.probe.binary_path)
            &&& (kind != ToolKind::Skill ==> e.permissions == f.probe.permissions)
            &&& (st.tools.contains_key(f.id) ==> {
                let o = st.tools[f.id];
                &&& e.enabled == o.enabled
                &&& e.category == o.category
                &&& e.id == o.id
                &&& (f.probe.name.len() == 0 ==> e.name == o.name)
                &&& (kind == ToolKind::Skill ==> e.permissions == o.permissions)
            })
            &&& (!st.tools.contains_key(f.id) ==> {
                &&& e.enabled
                &&& e.id == f.id
                &&& e.category == kind_label(kind)
                &&& (f.probe.name.len() == 0 ==> e.name == f.id)
                &&& (kind == ToolKind::Skill ==> e.permissions.len() == 0)
            })
        }),
{
}

/// A step reports a change exactly when the registry had one already, or
/// the folder's tool is new, or its entry differs from the registered one.
pub proof fn lemma_absorb_reports_change(st: SyncState, kind: ToolKind, f: FoundView, dsec: SecurityMode)
    ensures
        sync_step(st, kind, f, dsec).changed == (st.changed || !st.tools.contains_key(f.id) || sync_step(
            st,
            kind,
            f,
            dsec,
        ).tools[f.id] != st.tools[f.id]),
        forall|k: Seq<char>| k != f.id ==> #[trigger] sync_step(st, kind, f, dsec).tools.contains_key(k) == st.tools.contains_key(k),
        forall|k: Seq<char>| k != f.id && st.tools.contains_key(k) ==> #[trigger] sync_step(st, kind, f, dsec).tools[k] == st.tools[k],
{
}

/// After absorbing found folders, the tool of each folder that declares a
/// security mode, and that no later folder with the same id follows,
/// carries that mode.
proof fn lemma_sync_all_security(st: SyncState, kind: ToolKind, found: Seq<FoundView>, dsec: SecurityMode)
    ensures
        forall|i: int|
            0 <= i < found.len() && !found_later(found, i) && found[i].probe.security_mode is Some ==> (
            #[trigger] sync_all(st, kind, found, dsec).tools[found[i].id]).security_mode
                == found[i].probe.security_mode->0,
    decreases found.len(),
{
    if found.len() > 0 {
        let prev = found.drop_last();
        let f = found.last();
        let n = found.len() - 1;
        lemma_sync_all_security(st, kind, prev, dsec);
        let before = sync_all(st, kind, prev, dsec);
        let after = sync_all(st, kind, found, dsec);
        assert(after == sync_step(before, kind, f, dsec));
        lemma_absorb_takes_declared_security(before, kind, f, dsec);
        assert forall|i: int|
            0 <= i < found.len() && !found_later(found, i) && found[i].probe.security_mode is Some implies (
            #[trigger] after.tools[found[i].id]).security_mode == found[i].probe.security_mode->0 by {
            if i < n {
                assert(found[n] == f);
                assert(f.id != found[i].id);
                assert(prev[i] == found[i]);
                if found_later(prev, i) {
                    let j = choose|j: int| i < j < prev.len() && (#[trigger] prev[j]).id == prev[i].id;
                    assert(found[j] == prev[j]);
                }
            }
        }
    }
}

/// After a synchronisation, the tool of every found folder that declares
/// a security mode carries that mode, unless a folder with the same id
/// comes after it (later in its list, or in a later kind: skills, then
/// plugins, then MCP servers).
pub proof fn lemma_sync_applies_declared_security(old: Seq<(String, ToolEntry)>, scan: &ToolScan, dsec: SecurityMode)
    ensures
        forall|i: int|
            0 <= i < scan.mcps@.len() && !found_later(found_views(scan.mcps@), i) && scan.mcps@[i]@.probe.security_mode is Some
                ==> (#[trigger] synced_tools(old, scan, dsec)[scan.mcps@[i].id@]).security_mode
                == scan.mcps@[i]@.probe.security_mode->0,
        forall|i: int|
            0 <= i < scan.plugins@.len() && !found_later(found_views(scan.plugins@), i) && !found_has(
                found_views(scan.mcps@),
                scan.plugins@[i].id@,
            ) && scan.plugins@[i]@.probe.security_mode is Some ==> (#[trigger] synced_tools(
                old,
                scan,
                dsec,
            )[scan.plugins@[i].id@]).security_mode == scan.plugins@[i]@.probe.security_mode->0,
        forall|i: int|
            0 <= i < scan.skills@.len() && !found_later(found_views(scan.skills@), i) && !found_has(
                found_views(scan.plugins@),
                scan.skills@[i].id@,
            ) && !found_has(found_views(scan.mcps@), scan.skills@[i].id@)
                && scan.skills@[i]@.probe.security_mode is Some ==> (#[trigger] synced_tools(
                old,
                scan,
                dsec,
            )[scan.skills@[i].id@]).security_mode == scan.skills@[i]@.probe.security_mode->0,
{
    let kept = old.filter(folder_exists(views(scan.existing_paths@)));
    let s0 = SyncState { tools: tools_map(kept), changed: kept.len() != old.len() };
    let fs = found_views(scan.skills@);
    let fp = found_views(scan.plugins@);
    let fm = found_views(scan.mcps@);
    let s1 = sync_all(s0, ToolKind::Skill, fs, dsec);
    let s2 = sync_all(s1, ToolKind::Plugin, fp, dsec);
    let s3 = sync_all(s2, ToolKind::Mcp, fm, dsec);
    lemma_sync_all_security(s0, ToolKind::Skill, fs, dsec);
    lemma_sync_all_security(s1, ToolKind::Plugin, fp, dsec);
    lemma_sync_all_security(s2, ToolKind::Mcp, fm, dsec);
    lemma_sync_all_shape(s0, ToolKind::Skill, fs, dsec);
    lemma_sync_all_shape(s1, ToolKind::Plugin, fp, dsec);
    lemma_sync_all_shape(s2, ToolKind::Mcp, fm, dsec);
    assert(synced_tools(old, scan, dsec) == s3.tools);
    assert forall|i: int|
        0 <= i < scan.mcps@.len() && !found_later(fm, i) && scan.mcps@[i]@.probe.security_mode is Some implies (
        #[trigger] synced_tools(old, scan, dsec)[scan.mcps@[i].id@]).security_mode == scan.mcps@[i]@.probe.security_mode->0 by {
        assert(fm[i] == scan.mcps@[i]@);
    }
    assert forall|i: int|
        0 <= i < scan.plugins@.len() && !found_later(fp, i) && !found_has(fm, scan.plugins@[i].id@)
            && scan.plugins@[i]@.probe.security_mode is Some implies (#[trigger] synced_tools(
        old,
        scan,
        dsec,
    )[scan.plugins@[i].id@]).security_mode == scan.plugins@[i]@.probe.security_mode->0 by {
        assert(fp[i] == scan.plugins@[i]@);
        assert(s2.tools.contains_key(fp[i].id));
    }
    assert forall|i: int|
        0 <= i < scan.skills@.len() && !found_later(fs, i) && !found_has(fp, scan.skills@[i].id@) && !found_has(
            fm,
            scan.skills@[i].id@,
        ) && scan.skills@[i]@.probe.security_mode is Some implies (#[trigger] synced_tools(
        old,
        scan,
        dsec,
    )[scan.skills@[i].id@]).security_mode == scan.skills@[i]@.probe.security_mode->0 by {
        assert(fs[i] == scan.skills@[i]@);
        assert(s1.tools.contains_key(fs[i].id));
        assert(s2.tools.contains_key(fs[i].id));
    }
}

/// The registry after a whole synchronisation, by tool id.
pub open spec fn synced_tools(old: Seq<(String, ToolEntry)>, scan: &ToolScan, dsec: SecurityMode) -> Map<Seq<char>, ToolEntryModel> {
    synced(old, scan, dsec).tools
}

/// The registered entries whose folders a scan still finds.
pub open spec fn kept_tools(old: Seq<(String, ToolEntry)>, scan: &ToolScan) -> Map<Seq<char>, ToolEntryModel> {
    tools_map(old.filter(folder_exists(views(scan.existing_paths@))))
}

/// Is `k` the id of a folder that a scan found, of any kind?
pub open spec fn scan_found(scan: &ToolScan, k: Seq<char>) -> bool {
    found_has(found_views(scan.skills@), k) || found_has(found_views(scan.plugins@), k) || found_has(
        found_views(scan.mcps@),
        k,
    )
}

/// A synchronisation registers every folder it found and purges deleted
/// tools: the registry holds exactly the ids of the found folders and of
/// the registered tools whose folders still exist; an entry that no found
/// folder refreshed is the registered one, and its folder exists; and each
/// found folder's entry points at that folder unless a folder with the same
/// id comes after it (later in its list, or in a later kind).
pub proof fn lemma_sync_reflects_folders(old: Seq<(String, ToolEntry)>, scan: &ToolScan, dsec: SecurityMode)
    ensures
        forall|k: Seq<char>|
            #[trigger] synced_tools(old, scan, dsec).contains_key(k) <==> (kept_tools(old, scan).contains_key(k) || scan_found(
                scan,
                k,
            )),
        forall|k: Seq<char>|
            #[trigger] synced_tools(old, scan, dsec).contains_key(k) && !scan_found(scan, k) ==> synced_tools(old, scan, dsec)[k]
                == kept_tools(old, scan)[k] && views(scan.existing_paths@).contains(synced_tools(old, scan, dsec)[k].local_dir),
        forall|i: int|
            0 <= i < scan.mcps@.len() && !found_later(found_views(scan.mcps@), i) ==> (#[trigger] synced_tools(
                old,
                scan,
                dsec,
            )[scan.mcps@[i].id@]).local_dir == scan.mcps@[i].path@,
        forall|i: int|
            0 <= i < scan.plugins@.len() && !found_later(found_views(scan.plugins@), i) && !found_has(
                found_views(scan.mcps@),
                scan.plugins@[i].id@,
            ) ==> (#[trigger] synced_tools(old, scan, dsec)[scan.plugins@[i].id@]).local_dir == scan.plugins@[i].path@,
        forall|i: int|
            0 <= i < scan.skills@.len() && !found_later(found_views(scan.skills@), i) && !found_has(
                found_views(scan.plugins@),
                scan.skills@[i].id@,
            ) && !found_has(found_views(scan.mcps@), scan.skills@[i].id@) ==> (#[trigger] synced_tools(old, scan, dsec)[scan.skills@[i].id@]).local_dir
                == scan.skills@[i].path@,
{
    let existing = views(scan.existing_paths@);
    let keep = folder_exists(existing);
    let kept = old.filter(keep);
    let s0 = SyncState { tools: tools_map(kept), changed: kept.len() != old.len() };
    let fs = found_views(scan.skills@);
    let fp = found_views(scan.plugins@);
    let fm = found_views(scan.mcps@);
    let s1 = sync_all(s0, ToolKind::Skill, fs, dsec);
    let s2 = sync_all(s1, ToolKind::Plugin, fp, dsec);
    let s3 = sync_all(s2, ToolKind::Mcp, fm, dsec);
    lemma_sync_all_shape(s0, ToolKind::Skill, fs, dsec);
    lemma_sync_all_shape(s1, ToolKind::Plugin, fp, dsec);
    lemma_sync_all_shape(s2, ToolKind::Mcp, fm, dsec);
    assert(synced_tools(old, scan, dsec) == s3.tools);
    assert forall|k: Seq<char>| #[trigger] synced_tools(old, scan, dsec).contains_key(k) && !scan_found(scan, k) implies synced_tools(old, scan, dsec)[k]
        == kept_tools(old, scan)[k] && existing.contains(synced_tools(old, scan, dsec)[k].local_dir) by {
        assert(s0.tools.contains_key(k));
        assert(has_key(kept, k));
        let j = choose|i: int| 0 <= i < kept.len() && kept[i].0@ == k;
        lemma_first_match_exists(kept, k, j);
        let c = choose|i: int| first_match(kept, k, i);
        lemma_first_match_view(kept, k, c);
        old.lemma_filter_pred(keep, c);
    }
    assert forall|i: int| 0 <= i < scan.mcps@.len() && !found_later(fm, i) implies (#[trigger] synced_tools(old, scan, dsec)[scan.mcps@[i].id@]).local_dir
        == scan.mcps@[i].path@ by {
        assert(fm[i] == scan.mcps@[i]@);
    }
    assert forall|i: int| 0 <= i < scan.plugins@.len() && !found_later(fp, i) && !found_has(fm, scan.plugins@[i].id@) implies (#[trigger] synced_tools(
        old,
        scan,
        dsec,
    )[scan.plugins@[i].id@]).local_dir == scan.plugins@[i].path@ by {
        assert(fp[i] == scan.plugins@[i]@);
        assert(s2.tools.contains_key(fp[i].id));
    }
    assert forall|i: int| 0 <= i < scan.skills@.len() && !found_later(fs, i) && !found_has(fp, scan.skills@[i].id@) && !found_has(
        fm,
        scan.skills@[i].id@,
    ) implies (#[trigger] synced_tools(old, scan, dsec)[scan.skills@[i].id@]).local_dir == scan.skills@[i].path@ by {
        assert(fs[i] == scan.skills@[i]@);
        assert(s1.tools.contains_key(fs[i].id));
        assert(s2.tools.contains_key(fs[i].id));
    }
}

/// The category of the first kind of folder, skills then plugins then MCP
/// servers, whose scan found id `k`.
pub open spec fn first_found_label(scan: &ToolScan, k: Seq<char>) -> Seq<char> {
    if found_has(found_views(scan.skills@), k) {
        kind_label(ToolKind::Skill)
    } else if found_has(found_views(scan.plugins@), k) {
        kind_label(ToolKind::Plugin)
    } else {
        kind_label(ToolKind::Mcp)
    }
}

/// A synchronisation registers each newly found tool enabled, in the
/// category of the first kind of folder (skills, plugins, MCP servers)
/// holding it, and leaves each registered tool whose folder still exists
/// with its enabled flag and category.
pub proof fn lemma_sync_flags_and_categories(old: Seq<(String, ToolEntry)>, scan: &ToolScan, dsec: SecurityMode)
    ensures
        forall|k: Seq<char>|
            kept_tools(old, scan).contains_key(k) ==> (#[trigger] synced_tools(old, scan, dsec)[k]).enabled == kept_tools(
                old,
                scan,
            )[k].enabled && synced_tools(old, scan, dsec)[k].category == kept_tools(old, scan)[k].category,
        forall|k: Seq<char>|
            !kept_tools(old, scan).contains_key(k) && scan_found(scan, k) ==> (#[trigger] synced_tools(old, scan, dsec)[k]).enabled
                && synced_tools(old, scan, dsec)[k].category == first_found_label(scan, k),
{
    let kept = old.filter(folder_exists(views(scan.existing_paths@)));
    let s0 = SyncState { tools: tools_map(kept), changed: kept.len() != old.len() };
    let fs = found_views(scan.skills@);
    let fp = found_views(scan.plugins@);
    let fm = found_views(scan.mcps@);
    let s1 = sync_all(s0, ToolKind::Skill, fs, dsec);
    let s2 = sync_all(s1, ToolKind::Plugin, fp, dsec);
    let s3 = sync_all(s2, ToolKind::Mcp, fm, dsec);
    lemma_sync_all_shape(s0, ToolKind::Skill, fs, dsec);
    lemma_sync_all_shape(s1, ToolKind::Plugin, fp, dsec);
    lemma_sync_all_flags(s0, ToolKind::Skill, fs, dsec);
    lemma_sync_all_flags(s1, ToolKind::Plugin, fp, dsec);
    lemma_sync_all_flags(s2, ToolKind::Mcp, fm, dsec);
    assert(synced_tools(old, scan, dsec) == s3.tools);
    assert(kept_tools(old, scan) == s0.tools);
    assert forall|k: Seq<char>| s0.tools.contains_key(k) implies (#[trigger] s3.tools[k]).enabled == s0.tools[k].enabled
        && s3.tools[k].category == s0.tools[k].category by {
        assert(s1.tools.contains_key(k));
        assert(s2.tools.contains_key(k));
    }
    assert forall|k: Seq<char>| !s0.tools.contains_key(k) && scan_found(scan, k) implies (#[trigger] s3.tools[k]).enabled
        && s3.tools[k].category == first_found_label(scan, k) by {
        if found_has(fs, k) {
            assert(s1.tools.contains_key(k));
            assert(s2.tools.contains_key(k));
        } else if found_has(fp, k) {
            assert(!s1.tools.contains_key(k));
            assert(s2.tools.contains_key(k));
        } else {
            assert(!s1.tools.contains_key(k));
            assert(!s2.tools.contains_key(k));
        }
    }
}

/// Index of the last `c` in `s`.
pub open spec fn last_index_of(s: Seq<char>, c: char) -> Option<int> {
    if exists|i: int| 0 <= i < s.len() && s[i] == c {
        Some(choose|i: int| 0 <= i < s.len() && s[i] == c && forall|j: int| i < j < s.len() ==> s[j] != c)
    } else {
        None
    }
}

/// The file name of a path taken from a folder listing: what follows its
/// last `/`.
pub open spec fn file_name_of(p: Seq<char>) -> Seq<char> {
    match last_index_of(p, '/') {
        Some(k) => p.subrange(k + 1, p.len() as int),
        None => p,
    }
}

/// What follows the last `.` of a file name, when that dot is not its first
/// character (as `Path::extension` has it); `..` has none.
pub open spec fn extension_of(f: Seq<char>) -> Option<Seq<char>> {
    if f == ".."@ {
        None
    } else {
        match last_index_of(f, '.') {
            Some(k) => if k > 0 {
                Some(f.subrange(k + 1, f.len() as int))
            } else {
                None
            },
            None => None,
        }
    }
}

/// Is the file a plugin binary (`wasm`, `dll`, `so` or `dylib`)?
pub open spec fn is_plugin_binary(path: Seq<char>) -> bool {
    match extension_of(file_name_of(path)) {
        Some(e) => e == "wasm"@ || e == "dll"@ || e == "so"@ || e == "dylib"@,
        None => false,
    }
}

/// Index of the last `c` in `s`.
pub(crate) fn find_last(s: &str, c: char) -> (r: Option<usize>)
    ensures
        match r {
            Some(k) => last_index_of(s@, c) == Some(k as int) && k < s@.len(),
            None => last_index_of(s@, c) is None,
        },
{
    let n = s.unicode_len();
    let mut i = n;
    while i > 0
        invariant
            i <= n,
            n == s@.len(),
            forall|j: int| i <= j < n ==> s@[j] != c,
        decreases i,
    {
        if s.get_char(i - 1) == c {
            let k = i - 1;
            proof {
                let w = choose|w: int| 0 <= w < s@.len() && s@[w] == c && forall|j: int| w < j < s@.len() ==> s@[j] != c;
                assert(0 <= k < s@.len() && s@[k as int] == c);
                if w < k {
                    assert(s@[k as int] != c);
                } else if w > k {
                    assert(s@[w] != c);
                }
            }
            return Some(k);
        }
        i = i - 1;
    }
    None
}

/// The extension of a file name (see [`extension_of`]).
pub fn find_last_dot_ext(f: &str) -> (r: Option<String>)
    ensures
        opt_view(r) == extension_of(f@),
{
    if str_eq(f, "..") {
        return None;
    }
    let m = f.unicode_len();
    match find_last(f, '.') {
        Some(k) => if k > 0 {
            Some(String::from_str(f.substring_char(k + 1, m)))
        } else {
            None
        },
        None => None,
    }
}

/// Is the file a plugin binary (`wasm`, `dll`, `so` or `dylib`)?
pub fn is_plugin_binary_path(path: &str) -> (r: bool)
    ensures
        r == is_plugin_binary(path@),
{
    let n = path.unicode_len();
    let f = match find_last(path, '/') {
        Some(k) => path.substring_char(k + 1, n),
        None => path,
    };
    match find_last_dot_ext(f) {
        Some(e) => str_eq(e.as_str(), "wasm") || str_eq(e.as_str(), "dll") || str_eq(e.as_str(), "so") || str_eq(
            e.as_str(),
            "dylib",
        ),
        None => false,
    }
}

/// Parses an optional execution-mode text, with a default.
fn parse_execution_mode(val: Option<&str>, default_mode: ExecutionMode) -> (r: ExecutionMode)
    ensures
        r == match val {
            Some(s) => match execution_mode_of(mode_key(s@)) {
                Some(m) => m,
                None => default_mode,
            },
            None => default_mode,
        },
{
    match val {
        Some(s) => match ExecutionMode::from_raw(s) {
            Some(m) => m,
            None => default_mode,
        },
        None => default_mode,
    }
}

/// Parses an optional security-mode text.
fn parse_security_mode(val: Option<&str>) -> (r: Option<SecurityMode>)
    ensures
        r == sec_mode_text(
            match val {
                Some(s) => Some(s@),
                None => None,
            },
        ),
{
    match val {
        Some(s) => SecurityMode::from_raw(s),
        None => None,
    }
}

/// A member's text, or empty.
fn text_member(v: &Json, k: &str) -> (r: String)
    ensures
        r@ == text_of(crate::json::jget(v@, k@)),
{
    match str_opt(v.get(k)) {
        Some(s) => String::from_str(s),
        None => String::new(),
    }
}

/// The `default_turns` member, with a default, cut to 32 bits.
fn turns_of(v: &Json, dflt: i64) -> (r: i32)
    ensures
        r == turns_member(v@, dflt),
{
    let n = match v.get("default_turns") {
        Some(t) => match t.as_i64() {
            Some(n) => n,
            None => dflt,
        },
        None => dflt,
    };
    #[verifier::truncate]
    (n as i32)
}

/// The strings of an optional member array.
fn member_strings(v: Option<&Json>) -> (r: Vec<String>)
    ensures
        views(r@) == strings_of(crate::json::oarray(oview(v))),
{
    match v {
        Some(a) => match a.as_array() {
            Some(arr) => collect_strings(arr),
            None => Vec::new(),
        },
        None => Vec::new(),
    }
}

/// The name a manifest gives: its `id`, else its `name`.
fn manifest_name_of(v: &Json) -> (r: String)
    ensures
        r@ == manifest_name(v@),
{
    match str_opt(v.get("id")) {
        Some(s) => String::from_str(s),
        None => text_member(v, "name"),
    }
}

/// The triggers a manifest gives.
fn manifest_triggers_of(v: &Json) -> (r: Vec<String>)
    ensures
        views(r@) == manifest_triggers(v@),
{
    match v.get("discovery") {
        Some(d) => member_strings(d.get("semantic_triggers")),
        None => member_strings(v.get("triggers")),
    }
}

/// Does a `permissions` member allow network access?
fn net_allowed_of(p: &Json) -> (r: bool)
    ensures
        r == net_allowed(p@),
{
    match p.get("network_access") {
        Some(n) => match n.as_bool() {
            Some(b) => b,
            None => false,
        },
        None => false,
    }
}

/// The version a manifest gives (`latest_version`, else `version`).
fn manifest_version_of(v: &Json) -> (r: String)
    ensures
        r@ == text_of(or_else(jget(v@, "latest_version"@), jget(v@, "version"@))),
{
    let src = match v.get("latest_version") {
        Some(x) => Some(x),
        None => v.get("version"),
    };
    match str_opt(src) {
        Some(s) => String::from_str(s),
        None => String::new(),
    }
}

/// The probe of a folder that says nothing.
fn empty_probe_of(binary: Option<String>, mode: ExecutionMode, turns: i32) -> (r: ToolProbe)
    ensures
        r@ == empty_probe(opt_view(binary), mode, turns),
{
    let r = ToolProbe {
        name: String::new(),
        version: String::new(),
        description: String::new(),
        binary_path: binary,
        triggers: Vec::new(),
        permissions: Vec::new(),
        security_mode: None,
        execution_mode: mode,
        default_turns: turns,
    };
    assert(r@ =~= empty_probe(opt_view(binary), mode, turns));
    r
}

impl ToolsRegistry {
    /// The frontmatter text of a `SKILL.md`, to be parsed as YAML.
    pub fn frontmatter_text(content: &str) -> (r: Option<String>)
        ensures
            match r {
                Some(t) => frontmatter_text_spec(replace_seq(content@, "\r\n"@, "\n"@)) == Some(t@),
                None => frontmatter_text_spec(replace_seq(content@, "\r\n"@, "\n"@)) is None,
            },
    {
        proof {
            reveal_strlit("\r\n");
            reveal_strlit("---\n");
            reveal_strlit("\n---\n");
            reveal_strlit("\n---");
        }
        let normalized = replace_all(content, "\r\n", "\n");
        let n = normalized.as_str();
        let len = n.unicode_len();
        let start = if starts_with(n, "---\n") {
            Some(0usize)
        } else {
            match find_first(n, "\n---\n", 0) {
                Some(i) => Some(i + 1),
                None => None,
            }
        };
        match start {
            Some(s) => {
                assert(s + 4 <= len);
                match find_first(n, "\n---", s + 4) {
                    Some(e) => Some(String::from_str(n.substring_char(s + 4, e))),
                    None => None,
                }
            },
            None => None,
        }
    }

    /// What a skill's `SKILL.md` text says of it: its frontmatter read as
    /// YAML into JSON data, as [`Self::probe_skill_yaml`] takes it; the
    /// empty probe without a frontmatter block or where serde_yaml reads
    /// none.
    pub fn probe_skill_frontmatter(content: &str) -> (r: ToolProbe)
        ensures
            r@ == frontmatter_probe(
                match frontmatter_text_spec(replace_seq(content@, "\r\n"@, "\n"@)) {
                    Some(t) => yaml_json_document(t),
                    None => None,
                },
            ),
    {
        match Self::frontmatter_text(content) {
            Some(t) => match parse_yaml_as_json(t.as_str()) {
                Some(v) => Self::probe_skill_yaml(Some(&v)),
                None => Self::probe_skill_yaml(None),
            },
            None => Self::probe_skill_yaml(None),
        }
    }

    /// The probe of a skill frontmatter read into JSON data (`Some`), or of
    /// none (`None`).
    pub fn probe_skill_yaml(yaml: Option<&Json>) -> (r: ToolProbe)
        ensures
            r@ == frontmatter_probe(oview(yaml)),
    {
        match yaml {
            None => empty_probe_of(None, ExecutionMode::Auto, -1),
            Some(v) => {
                let vsrc = match v.get("version") {
                    Some(x) => Some(x),
                    None => v.get("latest_version"),
                };
                let version = match str_opt(vsrc) {
                    Some(s) => String::from_str(s),
                    None => String::new(),
                };
                let meta = crate::tools::skills::parser::SkillParser::metadata_from_value(Some(v));
                let r = ToolProbe {
                    name: text_member(v, "name"),
                    version,
                    description: text_member(v, "description"),
                    binary_path: None,
                    triggers: meta.triggers,
                    permissions: Vec::new(),
                    security_mode: parse_security_mode(str_opt(v.get("security_mode"))),
                    execution_mode: parse_execution_mode(str_opt(v.get("execution_mode")), ExecutionMode::Auto),
                    default_turns: turns_of(v, -1),
                };
                assert(r@ =~= frontmatter_probe(oview(yaml)));
                r
            },
        }
    }

    /// What a plugin folder says of itself, from its binary, the text of
    /// its `package.json` (read by serde_json; as missing where it reads
    /// none) and the probe of its `SKILL.md` (see
    /// [`Self::probe_plugin_metadata`]).
    pub fn probe_plugin_package(binary: Option<String>, package_text: Option<&str>, skill: Option<ToolProbe>) -> (r: ToolProbe)
        ensures
            r@ == plugin_probe(
                opt_view(binary),
                match package_text {
                    Some(t) => json_document(t@),
                    None => None,
                },
                match skill {
                    Some(p) => Some(p@),
                    None => None,
                },
            ),
    {
        let manifest = match package_text {
            Some(t) => parse_json(t),
            None => None,
        };
        match &manifest {
            Some(m) => Self::probe_plugin_metadata(binary, Some(m), skill),
            None => Self::probe_plugin_metadata(binary, None, skill),
        }
    }

    /// What an MCP server folder says of itself, from the text of its
    /// `package.json` (read by serde_json; as missing where it reads none;
    /// see [`Self::probe_mcp_metadata`]).
    pub fn probe_mcp_package(package_text: Option<&str>) -> (r: ToolProbe)
        ensures
            r@ == mcp_probe(
                match package_text {
                    Some(t) => json_document(t@),
                    None => None,
                },
            ),
    {
        let manifest = match package_text {
            Some(t) => parse_json(t),
            None => None,
        };
        match &manifest {
            Some(m) => Self::probe_mcp_metadata(Some(m)),
            None => Self::probe_mcp_metadata(None),
        }
    }

    /// The probe of a plugin folder: from its `package.json` (`manifest`,
    /// when it parsed), else from its `SKILL.md` (`skill`, when it has one),
    /// else nothing but its binary.
    pub fn probe_plugin_metadata(binary: Option<String>, manifest: Option<&Json>, skill: Option<ToolProbe>) -> (r: ToolProbe)
        ensures
            r@ == plugin_probe(
                opt_view(binary),
                oview(manifest),
                match skill {
                    Some(p) => Some(p@),
                    None => None,
                },
            ),
    {
        match manifest {
            Some(v) => {
                let mut perms: Vec<String> = Vec::new();
                if let Some(p) = v.get("permissions") {
                    if net_allowed_of(p) {
                        perms.push(String::from_str("net:fetch"));
                    }
                    let fsv = match str_opt(p.get("file_system")) {
                        Some(s) => s,
                        None => "none",
                    };
                    if !str_eq(fsv, "none") {
                        perms.push(String::from_str("fs:access"));
                    }
                }
                let r = ToolProbe {
                    name: manifest_name_of(v),
                    version: manifest_version_of(v),
                    description: text_member(v, "description"),
                    binary_path: binary,
                    triggers: manifest_triggers_of(v),
                    permissions: perms,
                    security_mode: parse_security_mode(str_opt(v.get("security_mode"))),
                    execution_mode: parse_execution_mode(str_opt(v.get("execution_mode")), ExecutionMode::Auto),
                    default_turns: turns_of(v, -1),
                };
                assert(r@.permissions =~= plugin_permissions(v@));
                assert(r@ =~= plugin_probe(opt_view(binary), oview(manifest), None));
                r
            },
            None => match skill {
                Some(p) => {
                    let r = ToolProbe { binary_path: binary, permissions: Vec::new(), ..p };
                    assert(r@ =~= ProbeView { binary_path: opt_view(binary), permissions: Seq::empty(), ..p@ });
                    r
                },
                None => empty_probe_of(binary, ExecutionMode::Auto, -1),
            },
        }
    }

    /// The probe of an MCP server folder from its `package.json` (when it
    /// parsed).
    pub fn probe_mcp_metadata(manifest: Option<&Json>) -> (r: ToolProbe)
        ensures
            r@ == mcp_probe(oview(manifest)),
    {
        match manifest {
            Some(v) => {
                let mut perms: Vec<String> = Vec::new();
                if let Some(p) = v.get("permissions") {
                    if net_allowed_of(p) {
                        perms.push(String::from_str("net:fetch"));
                    }
                }
                let ssrc = match v.get("security_mode") {
                    Some(x) => Some(x),
                    None => match v.get("mcp") {
                        Some(m) => m.get("security_mode"),
                        None => None,
                    },
                };
                let r = ToolProbe {
                    name: manifest_name_of(v),
                    version: manifest_version_of(v),
                    description: text_member(v, "description"),
                    binary_path: None,
                    triggers: manifest_triggers_of(v),
                    permissions: perms,
                    security_mode: parse_security_mode(str_opt(ssrc)),
                    execution_mode: parse_execution_mode(str_opt(v.get("execution_mode")), ExecutionMode::Manual),
                    default_turns: turns_of(v, 3),
                };
                assert(r@ =~= mcp_probe(oview(manifest)));
                r
            },
            None => empty_probe_of(None, ExecutionMode::Manual, 3),
        }
    }
}

/// Filtering a sequence with one element put in front.
proof fn lemma_filter_prepend<A>(x: A, rest: Seq<A>, pred: spec_fn(A) -> bool)
    ensures
        (seq![x] + rest).filter(pred) == (if pred(x) {
            seq![x] + rest.filter(pred)
        } else {
            rest.filter(pred)
        }),
{
    Seq::filter_distributes_over_add(seq![x], rest, pred);
    reveal(Seq::filter);
    assert(seq![x].drop_last() =~= Seq::<A>::empty());
    assert(Seq::<A>::empty().filter(pred) =~= Seq::<A>::empty());
    if pred(x) {
        assert(seq![x].filter(pred) =~= seq![x]);
    } else {
        assert(seq![x].filter(pred) =~= Seq::<A>::empty());
        assert(Seq::<A>::empty() + rest.filter(pred) =~= rest.filter(pred));
    }
}

impl ToolsRegistry {
    /// Drops the entries whose folder no longer exists; answers whether any
    /// was dropped.
    fn purge_missing(&mut self, existing: &Vec<String>) -> (changed: bool)
        ensures
            final(self).installed_tools@ == old(self).installed_tools@.filter(folder_exists(views(existing@))),
            changed == (final(self).installed_tools@.len() != old(self).installed_tools@.len()),
            final(self).default_security_mode == old(self).default_security_mode,
            final(self).version == old(self).version,
            final(self).last_updated == old(self).last_updated,
            distinct_keys(old(self).installed_tools@) ==> distinct_keys(final(self).installed_tools@),
    {
        let ghost s = self.installed_tools@;
        let ghost pred = folder_exists(views(existing@));
        let ghost n = s.len();
        let mut i = self.installed_tools.len();
        let mut removed = false;
        assert(s.subrange(n as int, n as int).filter(pred) =~= Seq::<(String, ToolEntry)>::empty()) by {
            reveal(Seq::filter);
        }
        assert(self.installed_tools@ =~= s.subrange(0, i as int) + s.subrange(i as int, n as int).filter(pred));
        while i > 0
            invariant
                i <= n,
                n == s.len(),
                pred == folder_exists(views(existing@)),
                self.installed_tools@ == s.subrange(0, i as int) + s.subrange(i as int, n as int).filter(pred),
                removed == (self.installed_tools@.len() != n),
                self.installed_tools@.len() <= n,
                self.default_security_mode == old(self).default_security_mode,
                self.version == old(self).version,
                self.last_updated == old(self).last_updated,
                s == old(self).installed_tools@,
                distinct_keys(s) ==> distinct_keys(self.installed_tools@),
            decreases i,
        {
            i = i - 1;
            let ghost rest = s.subrange(i + 1, n as int);
            proof {
                assert(s.subrange(i as int, n as int) =~= seq![s[i as int]] + rest);
                lemma_filter_prepend(s[i as int], rest, pred);
                assert(self.installed_tools@[i as int] == s[i as int]);
                rest.filter(pred).lemma_filter_len(pred);
            }
            let keep = contains_str(existing, self.installed_tools[i].1.local_dir.as_str());
            if !keep {
                let ghost before = self.installed_tools@;
                self.installed_tools.remove(i);
                proof {
                    if distinct_keys(s) {
                        lemma_distinct_remove(before, i as int);
                    }
                }
                removed = true;
                assert(self.installed_tools@ =~= s.subrange(0, i as int) + s.subrange(i as int, n as int).filter(pred));
            } else {
                assert(self.installed_tools@ =~= s.subrange(0, i as int) + s.subrange(i as int, n as int).filter(pred));
            }
        }
        assert(self.installed_tools@ =~= s.filter(pred)) by {
            assert(s.subrange(0, 0) + s.subrange(0, n as int).filter(pred) =~= s.filter(pred)) by {
                assert(s.subrange(0, n as int) =~= s);
            }
        }
        removed
    }

    /// Absorbs one found folder: refreshes its entry, or registers it;
    /// answers whether the registry changed.
    fn absorb(&mut self, kind: ToolKind, f: &FoundTool, default_sec: SecurityMode) -> (changed: bool)
        ensures
            final(self).tools() == sync_step(SyncState { tools: old(self).tools(), changed: false }, kind, f@, default_sec).tools,
            changed == sync_step(SyncState { tools: old(self).tools(), changed: false }, kind, f@, default_sec).changed,
            final(self).default_security_mode == old(self).default_security_mode,
            final(self).version == old(self).version,
            final(self).last_updated == old(self).last_updated,
            distinct_keys(old(self).installed_tools@) ==> distinct_keys(final(self).installed_tools@),
    {
        match find_key(&self.installed_tools, f.id.as_str()) {
            Some(i) => {
                proof {
                    lemma_first_match_view(self.installed_tools@, f.id@, i as int);
                }
                let ghost old_e = self.installed_tools@[i as int].1@;
                let p = &f.probe;
                let mut e = self.installed_tools[i].1.duplicate();
                let mut ch = false;
                if p.name.unicode_len() > 0 && !str_eq(e.name.as_str(), p.name.as_str()) {
                    e.name = p.name.clone();
                    ch = true;
                }
                if p.version.unicode_len() > 0 && !str_eq(e.version.as_str(), p.version.as_str()) {
                    e.version = p.version.clone();
                    ch = true;
                }
                if p.description.unicode_len() > 0 && !str_eq(e.description.as_str(), p.description.as_str()) {
                    e.description = p.description.clone();
                    ch = true;
                }
                if kind == ToolKind::Plugin && !opt_str_eq(&e.binary_path, &p.binary_path) {
                    e.binary_path = crate::text::clone_opt_string(&p.binary_path);
                    ch = true;
                }
                if !strings_eq(&e.semantic_triggers, &p.triggers) {
                    e.semantic_triggers = crate::text::clone_strings(&p.triggers);
                    ch = true;
                }
                if kind != ToolKind::Skill && !strings_eq(&e.permissions, &p.permissions) {
                    e.permissions = crate::text::clone_strings(&p.permissions);
                    ch = true;
                }
                if e.execution_mode != p.execution_mode {
                    e.execution_mode = p.execution_mode;
                    ch = true;
                }
                if let Some(m) = p.security_mode {
                    if e.security_mode != m {
                        e.security_mode = m;
                        ch = true;
                    }
                }
                if e.default_turns != p.default_turns {
                    e.default_turns = p.default_turns;
                    ch = true;
                }
                if !str_eq(e.local_dir.as_str(), f.path.as_str()) {
                    e.local_dir = f.path.clone();
                    ch = true;
                }
                let ghost upd = updated_entry(old_e, kind, f.path@, f.probe@);
                assert(e@ =~= upd);
                proof {
                    if !ch {
                        assert(upd =~= old_e);
                    }
                }
                self.replace_entry(i, e);
                ch
            },
            None => {
                let p = &f.probe;
                let sec = match p.security_mode {
                    Some(m) => m,
                    None => if kind == ToolKind::Plugin && p.binary_path.is_some() {
                        SecurityMode::FullAccess
                    } else {
                        default_sec
                    },
                };
                let mut events: Vec<String> = Vec::new();
                match kind {
                    ToolKind::Plugin => events.push(concat("on_command:use plugin::", f.id.as_str())),
                    ToolKind::Mcp => events.push(concat("on_command:use mcp::", f.id.as_str())),
                    ToolKind::Skill => {},
                }
                let e = ToolEntry {
                    id: f.id.clone(),
                    name: if p.name.unicode_len() == 0 { f.id.clone() } else { p.name.clone() },
                    category: String::from_str(
                        match kind {
                            ToolKind::Skill => "skill",
                            ToolKind::Plugin => "plugin",
                            ToolKind::Mcp => "mcp",
                        },
                    ),
                    version: p.version.clone(),
                    description: p.description.clone(),
                    local_dir: f.path.clone(),
                    binary_path: if kind == ToolKind::Plugin { crate::text::clone_opt_string(&p.binary_path) } else { None },
                    enabled: true,
                    security_mode: sec,
                    execution_mode: p.execution_mode,
                    default_turns: p.default_turns,
                    permissions: if kind == ToolKind::Skill { Vec::new() } else { crate::text::clone_strings(&p.permissions) },
                    semantic_triggers: crate::text::clone_strings(&p.triggers),
                    activation_events: events,
                };
                assert(e@ =~= new_entry(kind, f.id@, f.path@, f.probe@, default_sec));
                let ghost s = self.installed_tools@;
                let key = f.id.clone();
                let ghost ev = e;
                self.installed_tools.push((key, e));
                proof {
                    lemma_push_new_key(s, key, ev);
                    if distinct_keys(s) {
                        lemma_distinct_push(s, key, ev);
                    }
                    assert(self.tools() =~= tools_map(s).insert(f.id@, ev@));
                }
                true
            },
        }
    }

    /// Absorbs the found folders of one kind, in order.
    fn absorb_all(&mut self, kind: ToolKind, found: &Vec<FoundTool>, default_sec: SecurityMode, changed: bool) -> (r: bool)
        ensures
            final(self).tools() == sync_all(SyncState { tools: old(self).tools(), changed }, kind, found_views(found@), default_sec).tools,
            r == sync_all(SyncState { tools: old(self).tools(), changed }, kind, found_views(found@), default_sec).changed,
            final(self).default_security_mode == old(self).default_security_mode,
            final(self).version == old(self).version,
            final(self).last_updated == old(self).last_updated,
            distinct_keys(old(self).installed_tools@) ==> distinct_keys(final(self).installed_tools@),
    {
        let ghost st0 = SyncState { tools: self.tools(), changed };
        let ghost fv = found_views(found@);
        let mut ch = changed;
        let mut i: usize = 0;
        while i < found.len()
            invariant
                i <= found@.len(),
                fv == found_views(found@),
                self.tools() == sync_all(st0, kind, fv.subrange(0, i as int), default_sec).tools,
                ch == sync_all(st0, kind, fv.subrange(0, i as int), default_sec).changed,
                self.default_security_mode == old(self).default_security_mode,
                self.version == old(self).version,
                self.last_updated == old(self).last_updated,
                distinct_keys(old(self).installed_tools@) ==> distinct_keys(self.installed_tools@),
            decreases found@.len() - i,
        {
            proof {
                assert(fv.subrange(0, i + 1).drop_last() =~= fv.subrange(0, i as int));
                assert(fv.subrange(0, i + 1).last() == found@[i as int]@);
            }
            let c = self.absorb(kind, &found[i], default_sec);
            ch = ch || c;
            i = i + 1;
        }
        assert(fv.subrange(0, fv.len() as int) =~= fv);
        ch
    }

    /// Synchronises the registry with a scan of the tool folders: entries
    /// whose folder is gone are dropped, then every skill, plugin and MCP
    /// folder found refreshes its entry or is registered. Answers whether
    /// anything changed (and the registry must be saved).
    pub fn sync_with_filesystem(&mut self, scan: &ToolScan) -> (changed: bool)
        ensures
            final(self).tools() == synced(old(self).installed_tools@, scan, old(self).default_security_mode).tools,
            changed == synced(old(self).installed_tools@, scan, old(self).default_security_mode).changed,
            final(self).default_security_mode == old(self).default_security_mode,
            final(self).version == old(self).version,
            final(self).last_updated == old(self).last_updated,
            distinct_keys(old(self).installed_tools@) ==> distinct_keys(final(self).installed_tools@),
    {
        let dsec = self.default_security_mode;
        let c0 = self.purge_missing(&scan.existing_paths);
        let c1 = self.absorb_all(ToolKind::Skill, &scan.skills, dsec, c0);
        let c2 = self.absorb_all(ToolKind::Plugin, &scan.plugins, dsec, c1);
        self.absorb_all(ToolKind::Mcp, &scan.mcps, dsec, c2)
    }
}

} // verus!
