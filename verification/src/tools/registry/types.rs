//! Entry types of the tools registry and the parsing of their mode names.
use vstd::prelude::*;
use crate::text::{clone_opt_string, clone_strings, opt_view, views, lowercase_seq, str_eq, to_lowercase, trim, trim_end_seq, trim_seq, trim_start_seq};

verus! {

/// When a tool is brought into memory.
#[derive(Debug, Clone, Copy, PartialEq, Eq, Structural)]
pub enum LoadStrategy {
    Eager,
    Lazy,
}

impl Default for LoadStrategy {
    fn default() -> (r: Self)
        ensures
            r == LoadStrategy::Lazy,
    {
        LoadStrategy::Lazy
    }
}

/// Execution mode for installed tools and skills.
#[derive(Debug, Clone, Copy, PartialEq, Eq, Structural)]
pub enum ExecutionMode {
    Auto,
    Manual,
    ConfirmDestructive,
}

impl Default for ExecutionMode {
    fn default() -> (r: Self)
        ensures
            r == ExecutionMode::Auto,
    {
        ExecutionMode::Auto
    }
}

/// Security mode for tool execution.
#[derive(Debug, Clone, Copy, PartialEq, Eq, Structural)]
pub enum SecurityMode {
    Sandboxed,
    FullAccess,
    WorkspaceWrite,
    Strict,
}

impl Default for SecurityMode {
    fn default() -> (r: Self)
        ensures
            r == SecurityMode::Sandboxed,
    {
        SecurityMode::Sandboxed
    }
}

/// Tool category in the tools ecosystem.
#[derive(Debug, Clone, Copy, PartialEq, Eq, Structural)]
pub enum ToolCategory {
    Skill,
    Plugin,
    Mcp,
}

impl Default for ToolCategory {
    fn default() -> (r: Self)
        ensures
            r == ToolCategory::Plugin,
    {
        ToolCategory::Plugin
    }
}

/// A single entry of the tools registry.
#[derive(Debug)]
pub struct ToolEntry {
    /// Unique tool identifier.
    pub id: String,
    /// Human readable display name.
    pub name: String,
    /// Category: "skill", "plugin" or "mcp".
    pub category: String,
    /// Semantic version.
    pub version: String,
    /// Short description of capabilities.
    pub description: String,
    /// Local directory of the tool.
    pub local_dir: String,
    /// Path to a compiled WASM or native binary, if any.
    pub binary_path: Option<String>,
    /// Master on/off switch.
    pub enabled: bool,
    /// Security mode the tool runs under.
    pub security_mode: SecurityMode,
    /// Whether the model may call the tool on its own.
    pub execution_mode: ExecutionMode,
    /// Default turn lifetime (-1: permanent).
    pub default_turns: i32,
    /// Granular permissions, e.g. "net:fetch".
    pub permissions: Vec<String>,
    /// Words and phrases that activate the tool.
    pub semantic_triggers: Vec<String>,
    /// Explicit activation event strings.
    pub activation_events: Vec<String>,
}

/// The abstract content of a [`ToolEntry`].
#[verifier::ext_equal]
pub ghost struct ToolEntryModel {
    pub id: Seq<char>,
    pub name: Seq<char>,
    pub category: Seq<char>,
    pub version: Seq<char>,
    pub description: Seq<char>,
    pub local_dir: Seq<char>,
    pub binary_path: Option<Seq<char>>,
    pub enabled: bool,
    pub security_mode: SecurityMode,
    pub execution_mode: ExecutionMode,
    pub default_turns: i32,
    pub permissions: Seq<Seq<char>>,
    pub semantic_triggers: Seq<Seq<char>>,
    pub activation_events: Seq<Seq<char>>,
}

impl View for ToolEntry {
    type V = ToolEntryModel;

    open spec fn view(&self) -> ToolEntryModel {
        ToolEntryModel {
            id: self.id@,
            name: self.name@,
            category: self.category@,
            version: self.version@,
            description: self.description@,
            local_dir: self.local_dir@,
            binary_path: opt_view(self.binary_path),
            enabled: self.enabled,
            security_mode: self.security_mode,
            execution_mode: self.execution_mode,
            default_turns: self.default_turns,
            permissions: views(self.permissions@),
            semantic_triggers: views(self.semantic_triggers@),
            activation_events: views(self.activation_events@),
        }
    }
}

impl ToolEntry {
    /// A copy of the entry.
    pub fn duplicate(&self) -> (r: ToolEntry)
        ensures
            r@ == self@,
    {
        ToolEntry {
            id: self.id.clone(),
            name: self.name.clone(),
            category: self.category.clone(),
            version: self.version.clone(),
            description: self.description.clone(),
            local_dir: self.local_dir.clone(),
            binary_path: clone_opt_string(&self.binary_path),
            enabled: self.enabled,
            security_mode: self.security_mode,
            execution_mode: self.execution_mode,
            default_turns: self.default_turns,
            permissions: clone_strings(&self.permissions),
            semantic_triggers: clone_strings(&self.semantic_triggers),
            activation_events: clone_strings(&self.activation_events),
        }
    }
}

impl Clone for ToolEntry {
    fn clone(&self) -> (r: Self)
        ensures
            r@ == self@,
    {
        self.duplicate()
    }
}

impl Default for ToolEntry {
    /// The all-empty entry: empty strings and lists, disabled, turn count 0,
    /// default modes.
    fn default() -> (r: Self)
        ensures
            r@ == (ToolEntryModel {
                id: Seq::empty(),
                name: Seq::empty(),
                category: Seq::empty(),
                version: Seq::empty(),
                description: Seq::empty(),
                local_dir: Seq::empty(),
                binary_path: None,
                enabled: false,
                security_mode: SecurityMode::Sandboxed,
                execution_mode: ExecutionMode::Auto,
                default_turns: 0,
                permissions: Seq::empty(),
                semantic_triggers: Seq::empty(),
                activation_events: Seq::empty(),
            }),
    {
        let r = ToolEntry {
            id: String::new(),
            name: String::new(),
            category: String::new(),
            version: String::new(),
            description: String::new(),
            local_dir: String::new(),
            binary_path: None,
            enabled: false,
            security_mode: SecurityMode::Sandboxed,
            execution_mode: ExecutionMode::Auto,
            default_turns: 0,
            permissions: Vec::new(),
            semantic_triggers: Vec::new(),
            activation_events: Vec::new(),
        };
        assert(views(r.permissions@) =~= Seq::empty());
        assert(views(r.semantic_triggers@) =~= Seq::empty());
        assert(views(r.activation_events@) =~= Seq::empty());
        r
    }
}

/// Default of the `enabled` switch when a registry file leaves it out.
pub fn default_true() -> (r: bool)
    ensures
        r,
{
    true
}

/// Default version when a registry file leaves it out.
pub fn default_version() -> (r: String)
    ensures
        r@ == "1.0.0"@,
{
    String::from_str("1.0.0")
}

/// Default turn lifetime when a registry file leaves it out: permanent.
pub fn default_persistent_turns() -> (r: i32)
    ensures
        r == -1,
{
    -1
}

/// Is `t` the default (permanent) turn lifetime?
pub fn is_default_turn(t: &i32) -> (r: bool)
    ensures
        r == (*t == -1),
{
    *t == -1
}

/// How a raw mode name is normalised before it is matched: trimmed, then
/// lowercased.
pub open spec fn mode_key(s: Seq<char>) -> Seq<char> {
    lowercase_seq(trim_seq(s))
}

/// The execution mode that a normalised name denotes.
pub open spec fn execution_mode_of(n: Seq<char>) -> Option<ExecutionMode> {
    if n == "auto"@ {
        Some(ExecutionMode::Auto)
    } else if n == "manual"@ {
        Some(ExecutionMode::Manual)
    } else if n == "confirm_destructive"@ || n == "confirmdestructive"@ || n
        == "confirm-destructive"@ {
        Some(ExecutionMode::ConfirmDestructive)
    } else {
        None
    }
}

/// The security mode that a normalised name denotes.
pub open spec fn security_mode_of(n: Seq<char>) -> Option<SecurityMode> {
    if n == "sandboxed"@ {
        Some(SecurityMode::Sandboxed)
    } else if n == "workspace_write"@ || n == "workspacewrite"@ || n == "workspace-write"@ {
        Some(SecurityMode::WorkspaceWrite)
    } else if n == "strict"@ {
        Some(SecurityMode::Strict)
    } else if n == "full_access"@ || n == "fullaccess"@ || n == "full-access"@ {
        Some(SecurityMode::FullAccess)
    } else {
        None
    }
}

impl ExecutionMode {
    /// Canonical name of the mode.
    pub open spec fn label(self) -> Seq<char> {
        match self {
            ExecutionMode::Auto => "auto"@,
            ExecutionMode::Manual => "manual"@,
            ExecutionMode::ConfirmDestructive => "confirm_destructive"@,
        }
    }

    /// Parses a mode name, ignoring surrounding white space and letter case.
    pub fn from_raw(s: &str) -> (r: Option<Self>)
        ensures
            r == execution_mode_of(mode_key(s@)),
    {
        let lowered = to_lowercase(trim(s));
        let n = lowered.as_str();
        if str_eq(n, "auto") {
            Some(ExecutionMode::Auto)
        } else if str_eq(n, "manual") {
            Some(ExecutionMode::Manual)
        } else if str_eq(n, "confirm_destructive") || str_eq(n, "confirmdestructive") || str_eq(
            n,
            "confirm-destructive",
        ) {
            Some(ExecutionMode::ConfirmDestructive)
        } else {
            None
        }
    }

    /// Canonical name of the mode.
    pub fn as_str(&self) -> (r: &'static str)
        ensures
            r@ == self.label(),
    {
        match self {
            ExecutionMode::Auto => "auto",
            ExecutionMode::Manual => "manual",
            ExecutionMode::ConfirmDestructive => "confirm_destructive",
        }
    }
}

impl SecurityMode {
    /// Canonical name of the mode.
    pub open spec fn label(self) -> Seq<char> {
        match self {
            SecurityMode::Sandboxed => "sandboxed"@,
            SecurityMode::FullAccess => "full_access"@,
            SecurityMode::WorkspaceWrite => "workspace_write"@,
            SecurityMode::Strict => "strict"@,
        }
    }

    /// Parses a mode name, ignoring surrounding white space and letter case.
    pub fn from_raw(s: &str) -> (r: Option<Self>)
        ensures
            r == security_mode_of(mode_key(s@)),
    {
        let lowered = to_lowercase(trim(s));
        let n = lowered.as_str();
        if str_eq(n, "sandboxed") {
            Some(SecurityMode::Sandboxed)
        } else if str_eq(n, "workspace_write") || str_eq(n, "workspacewrite") || str_eq(
            n,
            "workspace-write",
        ) {
            Some(SecurityMode::WorkspaceWrite)
        } else if str_eq(n, "strict") {
            Some(SecurityMode::Strict)
        } else if str_eq(n, "full_access") || str_eq(n, "fullaccess") || str_eq(n, "full-access") {
            Some(SecurityMode::FullAccess)
        } else {
            None
        }
    }

    /// Canonical name of the mode.
    pub fn as_str(&self) -> (r: &'static str)
        ensures
            r@ == self.label(),
    {
        match self {
            SecurityMode::Sandboxed => "sandboxed",
            SecurityMode::FullAccess => "full_access",
            SecurityMode::WorkspaceWrite => "workspace_write",
            SecurityMode::Strict => "strict",
        }
    }
}


/// A name made only of lowercase ASCII letters, `_` and `-` is its own mode
/// key: trimming and lowercasing leave it unchanged.
pub proof fn lemma_plain_name_is_key(n: Seq<char>)
    requires
        n.len() > 0,
        forall|i: int| 0 <= i < n.len() ==> ('a' <= #[trigger] n[i] && n[i] <= 'z') || n[i] == '_'
            || n[i] == '-',
    ensures
        mode_key(n) == n,
{
    assert(trim_start_seq(n) == n);
    assert(trim_end_seq(n) == n);
    assert(vstd::utf8::is_ascii_chars(n));
    assert(n.map_values(|c: char| crate::text::ascii_lower_char(c)) =~= n);
}

/// Parsing the canonical name of an execution mode gives that mode back.
pub proof fn lemma_execution_mode_roundtrip(m: ExecutionMode)
    ensures
        execution_mode_of(mode_key(m.label())) == Some(m),
{
    reveal_strlit("auto");
    reveal_strlit("manual");
    reveal_strlit("confirm_destructive");
    lemma_plain_name_is_key(m.label());
}

/// Parsing the canonical name of a security mode gives that mode back.
pub proof fn lemma_security_mode_roundtrip(m: SecurityMode)
    ensures
        security_mode_of(mode_key(m.label())) == Some(m),
{
    reveal_strlit("sandboxed");
    reveal_strlit("full_access");
    reveal_strlit("workspace_write");
    reveal_strlit("workspacewrite");
    reveal_strlit("workspace-write");
    reveal_strlit("strict");
    lemma_plain_name_is_key(m.label());
}

} // verus!
