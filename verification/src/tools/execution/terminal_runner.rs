//! Command validation for the sandboxed terminal runner.
use vstd::prelude::*;
use crate::text::{concat, starts_with, starts_with_seq, views};
use crate::tools::registry::types::SecurityMode;
use super::policy::{evaluate_spec, DecisionView, ExecutionPolicy, PolicyDecision};

verus! {

/// Stdin piping mode for child processes.
#[derive(Debug, Clone, Copy, PartialEq, Eq, Structural)]
pub enum StdinMode {
    Null,
    Piped,
    Inherit,
}

impl Default for StdinMode {
    fn default() -> (r: Self)
        ensures
            r == StdinMode::Null,
    {
        StdinMode::Null
    }
}

/// The stdin mode for a run: piped when there is input to send.
pub fn stdin_mode_for(has_input: bool) -> (r: StdinMode)
    ensures
        r == (if has_input { StdinMode::Piped } else { StdinMode::Null }),
{
    if has_input {
        StdinMode::Piped
    } else {
        StdinMode::Null
    }
}

/// The error text of a validation, `None` when the command may run.
pub open spec fn validation_error(d: DecisionView) -> Option<Seq<char>> {
    match d {
        DecisionView::Allow => None,
        DecisionView::AskConfirmation { reason, command } => Some(
            "Confirmation required for command '"@ + command + "': "@ + reason,
        ),
        DecisionView::Deny { reason } => Some("Security policy violation: "@ + reason),
    }
}

/// Runs operating-system processes in the sandbox; validation is its logic.
pub struct SandboxTerminalRunner;

impl SandboxTerminalRunner {
    /// Validates a command against the policy of the active security mode:
    /// `Ok` when the policy allows it, otherwise the reason as an error.
    pub fn validate_command(command: &str, cwd: &str, cwd_exists: bool, security_mode: SecurityMode) -> (r: Result<(), String>)
        ensures
            match validation_error(evaluate_spec(command@, cwd@, cwd_exists, security_mode)) {
                None => r is Ok,
                Some(msg) => r matches Err(e) && e@ == msg,
            },
    {
        match ExecutionPolicy::evaluate(command, cwd, cwd_exists, security_mode) {
            PolicyDecision::Allow => Ok(()),
            PolicyDecision::AskConfirmation { reason, command } => {
                let a = concat("Confirmation required for command '", command.as_str());
                let b = concat(a.as_str(), "': ");
                Err(concat(b.as_str(), reason.as_str()))
            },
            PolicyDecision::Deny { reason } => Err(concat("Security policy violation: ", reason.as_str())),
        }
    }

    /// The shell and its arguments for a trimmed command line: `cmd.exe /c`
    /// when a Windows command names cmd itself, PowerShell for the other
    /// Windows commands, and `sh -c` elsewhere.
    pub fn shell_invocation(trimmed: &str, windows: bool) -> (r: (String, Vec<String>))
        ensures
            windows && (starts_with_seq(trimmed@, "cmd.exe"@) || starts_with_seq(trimmed@, "cmd /c"@))
                ==> r.0@ == "cmd.exe"@ && views(r.1@) == seq!["/c"@, trimmed@],
            windows && !(starts_with_seq(trimmed@, "cmd.exe"@) || starts_with_seq(trimmed@, "cmd /c"@))
                ==> r.0@ == "powershell.exe"@ && views(r.1@) == seq![
                    "-NoProfile"@,
                    "-NonInteractive"@,
                    "-ExecutionPolicy"@,
                    "Bypass"@,
                    "-Command"@,
                    trimmed@,
                ],
            !windows ==> r.0@ == "sh"@ && views(r.1@) == seq!["-c"@, trimmed@],
    {
        let mut args: Vec<String> = Vec::new();
        if windows {
            if starts_with(trimmed, "cmd.exe") || starts_with(trimmed, "cmd /c") {
                args.push(String::from_str("/c"));
                args.push(String::from_str(trimmed));
                assert(views(args@) =~= seq!["/c"@, trimmed@]);
                (String::from_str("cmd.exe"), args)
            } else {
                args.push(String::from_str("-NoProfile"));
                args.push(String::from_str("-NonInteractive"));
                args.push(String::from_str("-ExecutionPolicy"));
                args.push(String::from_str("Bypass"));
                args.push(String::from_str("-Command"));
                args.push(String::from_str(trimmed));
                assert(views(args@) =~= seq![
                    "-NoProfile"@,
                    "-NonInteractive"@,
                    "-ExecutionPolicy"@,
                    "Bypass"@,
                    "-Command"@,
                    trimmed@,
                ]);
                (String::from_str("powershell.exe"), args)
            }
        } else {
            args.push(String::from_str("-c"));
            args.push(String::from_str(trimmed));
            assert(views(args@) =~= seq!["-c"@, trimmed@]);
            (String::from_str("sh"), args)
        }
    }

    /// Seconds a command may run: the requested limit, 180 by default.
    pub fn effective_timeout_secs(timeout_secs: Option<u64>) -> (r: u64)
        ensures
            r == match timeout_secs {
                Some(t) => t,
                None => 180,
            },
    {
        match timeout_secs {
            Some(t) => t,
            None => 180,
        }
    }

    /// The exit code reported for a finished process: its own code, or `-1`
    /// after a cancellation and `1` otherwise when it has none (killed by a
    /// signal, or not waited for).
    pub fn resolve_exit_code(code: Option<i32>, cancelled: bool) -> (r: i32)
        ensures
            r == match code {
                Some(c) => c,
                None => if cancelled { -1i32 } else { 1i32 },
            },
    {
        match code {
            Some(c) => c,
            None => if cancelled { -1 } else { 1 },
        }
    }

    /// Whether a run in this security mode hides secrets from the child's
    /// environment.
    pub fn scrubs_secrets(security_mode: SecurityMode) -> (r: bool)
        ensures
            r == (security_mode == SecurityMode::Sandboxed || security_mode == SecurityMode::Strict),
    {
        match security_mode {
            SecurityMode::Sandboxed | SecurityMode::Strict => true,
            _ => false,
        }
    }
}

/// A command is accepted by validation exactly when the policy allows it.
pub proof fn lemma_validation_matches_policy(command: Seq<char>, cwd: Seq<char>, cwd_exists: bool, mode: SecurityMode)
    ensures
        validation_error(evaluate_spec(command, cwd, cwd_exists, mode)) is None <==> evaluate_spec(
            command,
            cwd,
            cwd_exists,
            mode,
        ) == DecisionView::Allow,
{
}

} // verus!
