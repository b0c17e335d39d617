//! Safety policy for commands run in the sandbox terminal.
use vstd::prelude::*;
use crate::text::{
    concat, contains_seq, first_contained, first_hit, lowercase_seq, starts_with, starts_with_any,
    starts_with_seq, str_views, to_lowercase, trim, trim_seq,
};
use crate::tools::registry::types::SecurityMode;

verus! {

/// Outcome of evaluating an execution request against the security policy.
#[derive(Debug, Clone, PartialEq, Eq)]
pub enum PolicyDecision {
    /// The command is safe and may run at once.
    Allow,
    /// The command is sensitive or destructive and needs the user's consent.
    AskConfirmation { reason: String, command: String },
    /// The command is prohibited.
    Deny { reason: String },
}

/// A policy decision with its texts as character sequences.
pub ghost enum DecisionView {
    Allow,
    AskConfirmation { reason: Seq<char>, command: Seq<char> },
    Deny { reason: Seq<char> },
}

impl View for PolicyDecision {
    type V = DecisionView;

    open spec fn view(&self) -> DecisionView {
        match self {
            PolicyDecision::Allow => DecisionView::Allow,
            PolicyDecision::AskConfirmation { reason, command } => DecisionView::AskConfirmation {
                reason: reason@,
                command: command@,
            },
            PolicyDecision::Deny { reason } => DecisionView::Deny { reason: reason@ },
        }
    }
}

/// Patterns denied in every security mode.
pub open spec fn universal_denied_patterns() -> Seq<Seq<char>> {
    seq![
        "rm -rf /"@,
        "rm -rf /*"@,
        "rm -rf ~"@,
        "mkfs"@,
        "dd if="@,
        "format c:"@,
        "rmdir /s /q c:\\"@,
        "del /f /s /q c:\\windows"@,
        ":(){ :|:& };:"@,
        "shutdown /s"@,
        "shutdown -h"@,
        "init 0"@,
    ]
}

/// Host paths that the sandboxed mode keeps commands away from.
pub open spec fn sensitive_paths() -> Seq<Seq<char>> {
    seq!["/etc/shadow"@, "/etc/passwd"@, "c:\\windows\\system32\\config"@, "\\windows\\system32"@]
}

/// Command prefixes that the strict mode runs without asking.
pub open spec fn read_only_prefixes() -> Seq<Seq<char>> {
    seq![
        "git status"@,
        "git log"@,
        "git diff"@,
        "cargo check"@,
        "cargo test"@,
        "ls"@,
        "dir"@,
        "cat"@,
        "echo"@,
        "pwd"@,
        "type"@,
    ]
}

/// Does the lower-cased command start with a read-only prefix?
pub open spec fn is_read_only(lower: Seq<char>) -> bool {
    exists|i: int| 0 <= i < read_only_prefixes().len() && starts_with_seq(lower, #[trigger] read_only_prefixes()[i])
}

/// The decision for a command once it is trimmed (`trimmed`) and lower-cased
/// (`lower`), in a working directory `cwd` that exists or not.
pub open spec fn decide(trimmed: Seq<char>, lower: Seq<char>, cwd: Seq<char>, cwd_exists: bool, mode: SecurityMode) -> DecisionView {
    match first_hit(lower, universal_denied_patterns()) {
        Some(i) => DecisionView::Deny {
            reason: "Destructive command pattern '"@ + universal_denied_patterns()[i]
                + "' is strictly prohibited across all modes"@,
        },
        None => if !cwd_exists {
            DecisionView::Deny { reason: "Target working directory does not exist: "@ + cwd }
        } else {
            match mode {
                SecurityMode::Sandboxed => match first_hit(lower, sensitive_paths()) {
                    Some(i) => DecisionView::Deny {
                        reason: "Sandboxed mode prevents access to sensitive system path: '"@
                            + sensitive_paths()[i] + "'"@,
                    },
                    None => if starts_with_seq(lower, "rm -rf"@) || starts_with_seq(lower, "rmdir /s"@) {
                        DecisionView::AskConfirmation {
                            reason: "Recursive directory deletion in sandboxed workspace"@,
                            command: trimmed,
                        }
                    } else {
                        DecisionView::Allow
                    },
                },
                SecurityMode::Strict => if is_read_only(lower) {
                    DecisionView::Allow
                } else {
                    DecisionView::AskConfirmation {
                        reason: "Strict security mode requires user confirmation for execution"@,
                        command: trimmed,
                    }
                },
                SecurityMode::WorkspaceWrite | SecurityMode::FullAccess => DecisionView::Allow,
            }
        },
    }
}

/// The decision for `command` run in `cwd`.
pub open spec fn evaluate_spec(command: Seq<char>, cwd: Seq<char>, cwd_exists: bool, mode: SecurityMode) -> DecisionView {
    decide(trim_seq(command), lowercase_seq(trim_seq(command)), cwd, cwd_exists, mode)
}

/// Evaluates command safety, arguments and working-directory boundaries.
pub struct ExecutionPolicy;

impl ExecutionPolicy {
    /// Evaluates `command`, to be run in the directory `cwd` (which exists or
    /// not, as `cwd_exists` says), against the active security mode.
    pub fn evaluate(command: &str, cwd: &str, cwd_exists: bool, security_mode: SecurityMode) -> (r: PolicyDecision)
        ensures
            r@ == evaluate_spec(command@, cwd@, cwd_exists, security_mode),
    {
        let trimmed = trim(command);
        let lower = to_lowercase(trimmed);
        let universal_denied: Vec<&str> = vec![
            "rm -rf /",
            "rm -rf /*",
            "rm -rf ~",
            "mkfs",
            "dd if=",
            "format c:",
            "rmdir /s /q c:\\",
            "del /f /s /q c:\\windows",
            ":(){ :|:& };:",
            "shutdown /s",
            "shutdown -h",
            "init 0",
        ];
        assert(str_views(universal_denied@) =~= universal_denied_patterns());
        if let Some(i) = first_contained(lower.as_str(), &universal_denied) {
            let head = concat("Destructive command pattern '", universal_denied[i]);
            let reason = concat(head.as_str(), "' is strictly prohibited across all modes");
            return PolicyDecision::Deny { reason };
        }
        if !cwd_exists {
            return PolicyDecision::Deny { reason: concat("Target working directory does not exist: ", cwd) };
        }
        match security_mode {
            SecurityMode::Sandboxed => {
                let sensitive: Vec<&str> = vec![
                    "/etc/shadow",
                    "/etc/passwd",
                    "c:\\windows\\system32\\config",
                    "\\windows\\system32",
                ];
                assert(str_views(sensitive@) =~= sensitive_paths());
                if let Some(i) = first_contained(lower.as_str(), &sensitive) {
                    let head = concat("Sandboxed mode prevents access to sensitive system path: '", sensitive[i]);
                    return PolicyDecision::Deny { reason: concat(head.as_str(), "'") };
                }
                if starts_with(lower.as_str(), "rm -rf") || starts_with(lower.as_str(), "rmdir /s") {
                    return PolicyDecision::AskConfirmation {
                        reason: String::from_str("Recursive directory deletion in sandboxed workspace"),
                        command: String::from_str(trimmed),
                    };
                }
                PolicyDecision::Allow
            },
            SecurityMode::Strict => {
                let read_only: Vec<&str> = vec![
                    "git status",
                    "git log",
                    "git diff",
                    "cargo check",
                    "cargo test",
                    "ls",
                    "dir",
                    "cat",
                    "echo",
                    "pwd",
                    "type",
                ];
                let hit = starts_with_any(lower.as_str(), &read_only);
                proof {
                    assert(str_views(read_only@) =~= read_only_prefixes());
                    if hit {
                        let i = choose|i: int| 0 <= i < read_only@.len() && starts_with_seq(lower@, #[trigger] read_only@[i]@);
                        assert(read_only_prefixes()[i] == read_only@[i]@);
                    }
                    if is_read_only(lower@) {
                        let i = choose|i: int| 0 <= i < read_only_prefixes().len() && starts_with_seq(lower@, #[trigger] read_only_prefixes()[i]);
                        assert(read_only_prefixes()[i] == read_only@[i]@);
                    }
                }
                if hit {
                    PolicyDecision::Allow
                } else {
                    PolicyDecision::AskConfirmation {
                        reason: String::from_str("Strict security mode requires user confirmation for execution"),
                        command: String::from_str(trimmed),
                    }
                }
            },
            SecurityMode::WorkspaceWrite | SecurityMode::FullAccess => PolicyDecision::Allow,
        }
    }
}

/// A command holding one of the universally prohibited patterns (after
/// trimming and lower-casing) is denied in every security mode, whatever the
/// working directory.
pub proof fn lemma_universal_patterns_always_denied(command: Seq<char>, cwd: Seq<char>, cwd_exists: bool, mode: SecurityMode, i: int)
    requires
        0 <= i < universal_denied_patterns().len(),
        contains_seq(lowercase_seq(trim_seq(command)), universal_denied_patterns()[i]),
    ensures
        evaluate_spec(command, cwd, cwd_exists, mode) is Deny,
{
    crate::text::lemma_first_hit(lowercase_seq(trim_seq(command)), universal_denied_patterns());
}

/// A working directory that does not exist is refused in every security mode.
pub proof fn lemma_missing_cwd_denied(command: Seq<char>, cwd: Seq<char>, mode: SecurityMode)
    ensures
        evaluate_spec(command, cwd, false, mode) is Deny,
{
}

/// In the workspace-write and full-access modes every command that is not
/// universally prohibited, in an existing directory, is allowed.
pub proof fn lemma_open_modes_allow(command: Seq<char>, cwd: Seq<char>, mode: SecurityMode)
    requires
        mode == SecurityMode::WorkspaceWrite || mode == SecurityMode::FullAccess,
        first_hit(lowercase_seq(trim_seq(command)), universal_denied_patterns()) is None,
    ensures
        evaluate_spec(command, cwd, true, mode) == DecisionView::Allow,
{
}

/// No security mode ever asks for confirmation of a command that another
/// mode denies for a universal pattern: denial by pattern does not depend on
/// the mode.
pub proof fn lemma_pattern_denial_mode_independent(command: Seq<char>, cwd: Seq<char>, cwd_exists: bool, m1: SecurityMode, m2: SecurityMode)
    requires
        first_hit(lowercase_seq(trim_seq(command)), universal_denied_patterns()) is Some,
    ensures
        evaluate_spec(command, cwd, cwd_exists, m1) == evaluate_spec(command, cwd, cwd_exists, m2),
{
}

/// In the sandboxed mode, in an existing directory, a command free of the
/// universal and sensitive patterns is asked about exactly when its
/// trimmed, lower-cased text starts with `rm -rf` or `rmdir /s` (a
/// recursive deletion), and allowed otherwise.
pub proof fn lemma_sandboxed_recursive_deletion_confirms(command: Seq<char>, cwd: Seq<char>)
    requires
        forall|i: int|
            0 <= i < universal_denied_patterns().len() ==> !contains_seq(
                lowercase_seq(trim_seq(command)),
                #[trigger] universal_denied_patterns()[i],
            ),
        forall|i: int|
            0 <= i < sensitive_paths().len() ==> !contains_seq(
                lowercase_seq(trim_seq(command)),
                #[trigger] sensitive_paths()[i],
            ),
    ensures
        (starts_with_seq(lowercase_seq(trim_seq(command)), "rm -rf"@) || starts_with_seq(
            lowercase_seq(trim_seq(command)),
            "rmdir /s"@,
        )) ==> evaluate_spec(command, cwd, true, SecurityMode::Sandboxed) == (DecisionView::AskConfirmation {
            reason: "Recursive directory deletion in sandboxed workspace"@,
            command: trim_seq(command),
        }),
        !(starts_with_seq(lowercase_seq(trim_seq(command)), "rm -rf"@) || starts_with_seq(
            lowercase_seq(trim_seq(command)),
            "rmdir /s"@,
        )) ==> evaluate_spec(command, cwd, true, SecurityMode::Sandboxed) == DecisionView::Allow,
{
    let lower = lowercase_seq(trim_seq(command));
    crate::text::lemma_first_hit(lower, universal_denied_patterns());
    crate::text::lemma_first_hit(lower, sensitive_paths());
    match first_hit(lower, universal_denied_patterns()) {
        Some(i) => {
            assert(!contains_seq(lower, universal_denied_patterns()[i]));
        },
        None => {},
    }
    match first_hit(lower, sensitive_paths()) {
        Some(i) => {
            assert(!contains_seq(lower, sensitive_paths()[i]));
        },
        None => {},
    }
}

/// In the sandboxed mode, in an existing directory, a command that names a
/// sensitive system path (and holds no universal pattern) is denied.
pub proof fn lemma_sandboxed_sensitive_paths_denied(command: Seq<char>, cwd: Seq<char>, i: int)
    requires
        0 <= i < sensitive_paths().len(),
        contains_seq(lowercase_seq(trim_seq(command)), sensitive_paths()[i]),
    ensures
        evaluate_spec(command, cwd, true, SecurityMode::Sandboxed) is Deny,
{
    crate::text::lemma_first_hit(lowercase_seq(trim_seq(command)), sensitive_paths());
}

/// In the strict mode, in an existing directory, a command free of the
/// universal patterns runs without asking exactly when it starts with a
/// read-only prefix, and is asked about, with its trimmed text, otherwise.
pub proof fn lemma_strict_mode_asks_unless_read_only(command: Seq<char>, cwd: Seq<char>)
    requires
        forall|i: int|
            0 <= i < universal_denied_patterns().len() ==> !contains_seq(
                lowercase_seq(trim_seq(command)),
                #[trigger] universal_denied_patterns()[i],
            ),
    ensures
        (exists|i: int|
            0 <= i < read_only_prefixes().len() && starts_with_seq(
                lowercase_seq(trim_seq(command)),
                #[trigger] read_only_prefixes()[i],
            )) ==> evaluate_spec(command, cwd, true, SecurityMode::Strict) == DecisionView::Allow,
        !(exists|i: int|
            0 <= i < read_only_prefixes().len() && starts_with_seq(
                lowercase_seq(trim_seq(command)),
                #[trigger] read_only_prefixes()[i],
            )) ==> (evaluate_spec(command, cwd, true, SecurityMode::Strict) matches DecisionView::AskConfirmation {
            command: c,
            ..
        } && c == trim_seq(command)),
{
    let lower = lowercase_seq(trim_seq(command));
    crate::text::lemma_first_hit(lower, universal_denied_patterns());
    match first_hit(lower, universal_denied_patterns()) {
        Some(i) => {
            assert(!contains_seq(lower, universal_denied_patterns()[i]));
        },
        None => {},
    }
}

} // verus!
