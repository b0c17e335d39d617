use cluaiz_engines::tools::execution::environment::EnvironmentResolver;
use cluaiz_engines::tools::execution::policy::{ExecutionPolicy, PolicyDecision};
use cluaiz_engines::tools::execution::result::TerminalRunResult;
use cluaiz_engines::tools::execution::script_runner::{DeclarativeScriptRunner, ExecutionManifest, LanguageConfig};
use cluaiz_engines::tools::execution::terminal_runner::{SandboxTerminalRunner, StdinMode};
use cluaiz_engines::tools::registry::types::SecurityMode;

fn temp_dir() -> String {
    "/tmp".to_string()
}

fn evaluate_here(command: &str, mode: SecurityMode) -> PolicyDecision {
    let cwd = temp_dir();
    let exists = std::path::Path::new(&cwd).exists();
    ExecutionPolicy::evaluate(command, &cwd, exists, mode)
}

#[test]
fn test_universal_destructive_commands_denied() {
    let decision = evaluate_here("rm -rf /", SecurityMode::FullAccess);
    assert!(matches!(decision, PolicyDecision::Deny { .. }));

    let decision2 = evaluate_here("format C: /Q", SecurityMode::FullAccess);
    assert!(matches!(decision2, PolicyDecision::Deny { .. }));
}

#[test]
fn test_non_existent_cwd_denied() {
    let invalid_cwd = "Z:\\non_existent_path_xyz_123";
    let exists = std::path::Path::new(invalid_cwd).exists();
    let decision = ExecutionPolicy::evaluate("echo hello", invalid_cwd, exists, SecurityMode::Sandboxed);
    assert!(matches!(decision, PolicyDecision::Deny { .. }));
}

#[test]
fn test_strict_mode_confirmation() {
    let decision = evaluate_here("npm install axios", SecurityMode::Strict);
    assert!(matches!(decision, PolicyDecision::AskConfirmation { .. }));

    let read_decision = evaluate_here("cargo check", SecurityMode::Strict);
    assert_eq!(read_decision, PolicyDecision::Allow);
}

#[test]
fn test_sandboxed_safe_commands_allowed() {
    let decision = evaluate_here("cargo test", SecurityMode::Sandboxed);
    assert_eq!(decision, PolicyDecision::Allow);
}

#[test]
fn policy_deny_reason_names_pattern() {
    let decision = evaluate_here("  sudo MKFS.ext4 /dev/sda ", SecurityMode::WorkspaceWrite);
    assert_eq!(
        decision,
        PolicyDecision::Deny {
            reason: "Destructive command pattern 'mkfs' is strictly prohibited across all modes".to_string()
        }
    );
}

#[test]
fn policy_missing_cwd_reason() {
    let decision = ExecutionPolicy::evaluate("ls", "/no/such/dir", false, SecurityMode::FullAccess);
    assert_eq!(
        decision,
        PolicyDecision::Deny { reason: "Target working directory does not exist: /no/such/dir".to_string() }
    );
}

#[test]
fn policy_sandboxed_sensitive_path_and_recursive_delete() {
    let decision = evaluate_here("cat /etc/passwd", SecurityMode::Sandboxed);
    assert_eq!(
        decision,
        PolicyDecision::Deny {
            reason: "Sandboxed mode prevents access to sensitive system path: '/etc/passwd'".to_string()
        }
    );
    let decision = evaluate_here("  rm -rf build ", SecurityMode::Sandboxed);
    assert_eq!(
        decision,
        PolicyDecision::AskConfirmation {
            reason: "Recursive directory deletion in sandboxed workspace".to_string(),
            command: "rm -rf build".to_string(),
        }
    );
}

#[test]
fn policy_open_modes_allow() {
    assert_eq!(evaluate_here("npm install axios", SecurityMode::WorkspaceWrite), PolicyDecision::Allow);
    assert_eq!(evaluate_here("npm install axios", SecurityMode::FullAccess), PolicyDecision::Allow);
}

#[test]
fn test_dangerous_command_blocked() {
    let cwd = temp_dir();
    let res = SandboxTerminalRunner::validate_command("rm -rf /", &cwd, true, SecurityMode::FullAccess);
    assert!(res.is_err(), "Destructive command must be blocked by validation");
}

#[test]
fn validation_messages() {
    let err = SandboxTerminalRunner::validate_command("npm i", "/tmp", true, SecurityMode::Strict).unwrap_err();
    assert_eq!(
        err,
        "Confirmation required for command 'npm i': Strict security mode requires user confirmation for execution"
    );
    let err = SandboxTerminalRunner::validate_command("ls", "/x", false, SecurityMode::Strict).unwrap_err();
    assert_eq!(err, "Security policy violation: Target working directory does not exist: /x");
    assert!(SandboxTerminalRunner::validate_command("ls -la", "/tmp", true, SecurityMode::Strict).is_ok());
}

#[test]
fn terminal_runner_helpers() {
    assert_eq!(cluaiz_engines::tools::execution::terminal_runner::stdin_mode_for(true), StdinMode::Piped);
    assert_eq!(cluaiz_engines::tools::execution::terminal_runner::stdin_mode_for(false), StdinMode::Null);
    assert_eq!(StdinMode::default(), StdinMode::Null);
    let (shell, args) = SandboxTerminalRunner::shell_invocation("echo hi", false);
    assert_eq!(shell, "sh");
    assert_eq!(args, vec!["-c".to_string(), "echo hi".to_string()]);
    let (shell, args) = SandboxTerminalRunner::shell_invocation("cmd /c dir", true);
    assert_eq!(shell, "cmd.exe");
    assert_eq!(args, vec!["/c".to_string(), "cmd /c dir".to_string()]);
    let (shell, args) = SandboxTerminalRunner::shell_invocation("dir", true);
    assert_eq!(shell, "powershell.exe");
    assert_eq!(args.len(), 6);
    assert_eq!(SandboxTerminalRunner::effective_timeout_secs(None), 180);
    assert_eq!(SandboxTerminalRunner::effective_timeout_secs(Some(5)), 5);
    assert_eq!(SandboxTerminalRunner::resolve_exit_code(Some(3), true), 3);
    assert_eq!(SandboxTerminalRunner::resolve_exit_code(None, true), -1);
    assert_eq!(SandboxTerminalRunner::resolve_exit_code(None, false), 1);
    assert!(SandboxTerminalRunner::scrubs_secrets(SecurityMode::Strict));
    assert!(!SandboxTerminalRunner::scrubs_secrets(SecurityMode::FullAccess));
}

#[test]
fn test_truncate_small_output() {
    let small = "hello world";
    let out = TerminalRunResult::truncate_output(small, 100);
    assert_eq!(out, small);
}

#[test]
fn test_truncate_large_output() {
    let large = "A".repeat(1000);
    let out = TerminalRunResult::truncate_output(&large, 200);
    assert!(out.contains("[... output truncated:"));
    assert!(out.len() < 1000);
}

#[test]
fn truncate_exact_layout() {
    let text = "0123456789";
    let out = TerminalRunResult::truncate_output(text, 4);
    assert_eq!(
        out,
        "01\n\n[... output truncated: 6 bytes omitted to prevent context flooding ...]\n\n89"
    );
}

#[test]
fn truncate_respects_char_boundaries() {
    let text = "ééééé";
    let out = TerminalRunResult::truncate_output(text, 5);
    assert!(out.starts_with("é"));
    assert!(out.ends_with("é"));
    assert!(out.contains("6 bytes omitted"));
}

#[test]
fn test_signal_explanation() {
    let exp = TerminalRunResult::explain_exit_code(137, false);
    assert!(exp.is_some());
    assert!(exp.unwrap().contains("OOM killer"));

    let exp_cancel = TerminalRunResult::explain_exit_code(-1, true);
    assert!(exp_cancel.is_some());
    assert!(exp_cancel.unwrap().contains("cancellation"));
}

#[test]
fn exit_codes_without_explanation() {
    assert!(TerminalRunResult::explain_exit_code(0, false).is_none());
    assert!(TerminalRunResult::explain_exit_code(2, false).is_none());
    assert!(TerminalRunResult::explain_exit_code(127, false).unwrap().contains("Command not found"));
}

#[test]
fn run_result_new_truncates_both_streams() {
    let r = TerminalRunResult::new(143, "x".repeat(60000), "short".to_string(), 12, false);
    assert_eq!(r.exit_code, 143);
    assert!(r.stdout.contains("bytes omitted"));
    assert_eq!(r.stderr, "short");
    assert_eq!(r.duration_ms, 12);
    assert!(r.signal_info.unwrap().contains("SIGTERM"));
}

#[test]
fn test_secret_scrubbing() {
    let vars = vec![
        ("CLUAIZ_TEST_API_KEY".to_string(), "secret_12345".to_string()),
        ("HOME".to_string(), "/home/u".to_string()),
        ("database_url".to_string(), "pg://".to_string()),
    ];
    let resolved = EnvironmentResolver::resolve("/tmp", &vars, None, false, false, true);
    assert!(!resolved.env_vars.iter().any(|(k, _)| k == "CLUAIZ_TEST_API_KEY"), "Sensitive API key must be scrubbed");
    assert!(!resolved.env_vars.iter().any(|(k, _)| k == "database_url"));
    assert!(resolved.env_vars.iter().any(|(k, v)| k == "HOME" && v == "/home/u"));
    let kept = EnvironmentResolver::resolve("/tmp", &vars, None, false, false, false);
    assert_eq!(kept.env_vars.len(), 3);
}

#[test]
fn test_venv_path_injection() {
    let vars = vec![("PATH".to_string(), "/usr/bin".to_string())];
    let resolved = EnvironmentResolver::resolve("/tmp", &vars, Some("/tmp/venv"), true, false, false);
    let get = |k: &str| resolved.env_vars.iter().find(|(n, _)| n == k).map(|(_, v)| v.clone());
    assert_eq!(get("VIRTUAL_ENV").unwrap(), "/tmp/venv");
    assert_eq!(get("PATH").unwrap(), "/tmp/venv/bin:/usr/bin");
    let win = EnvironmentResolver::resolve("/tmp", &vec![], Some("C:/v"), true, true, false);
    let path = win.env_vars.iter().find(|(n, _)| n == "PATH").map(|(_, v)| v.clone()).unwrap();
    assert_eq!(path, "C:/v/Scripts;");
}

#[test]
fn sensitive_names() {
    assert!(EnvironmentResolver::is_sensitive("AWS_ACCESS_KEY_ID"));
    assert!(EnvironmentResolver::is_sensitive("MY_TOKEN_X"));
    assert!(!EnvironmentResolver::is_sensitive("PATH"));
}

#[test]
fn language_configs() {
    let mut manifest = ExecutionManifest::default();
    let (cmd, ext) = DeclarativeScriptRunner::resolve_language_config(&manifest, " Python ");
    assert_eq!(cmd, "python \"{file}\"");
    assert_eq!(ext, "py");
    let (cmd, ext) = DeclarativeScriptRunner::resolve_language_config(&manifest, "zig");
    assert_eq!(cmd, "zig \"{file}\"");
    assert_eq!(ext, "txt");
    manifest.languages.push((
        "python".to_string(),
        LanguageConfig { cmd: "python3 {file}".to_string(), ext: "py3".to_string() },
    ));
    let (cmd, ext) = DeclarativeScriptRunner::resolve_language_config(&manifest, "PYTHON");
    assert_eq!(cmd, "python3 {file}");
    assert_eq!(ext, "py3");
}

use cluaiz_engines::tools::installer::runtime_env::{RuntimeEnvironmentManager, RuntimeType};

#[test]
fn test_detect_pure_skill() {
    let entries = vec!["SKILL.md".to_string()];
    assert_eq!(RuntimeEnvironmentManager::detect_runtime(&entries), RuntimeType::PureSkill);
}

#[test]
fn test_detect_node_runtime() {
    let entries = vec!["package.json".to_string()];
    assert_eq!(RuntimeEnvironmentManager::detect_runtime(&entries), RuntimeType::Node);
}

#[test]
fn test_detect_native_runtime() {
    let entries = vec!["engine_plugin.dll".to_string()];
    assert_eq!(RuntimeEnvironmentManager::detect_runtime(&entries), RuntimeType::Native);
}

use cluaiz_engines::json::Json;

#[test]
fn script_request_reads_payload_fields() {
    let mut manifest = ExecutionManifest::default();
    let plain = DeclarativeScriptRunner::script_request(&manifest, "print(1)", None);
    assert_eq!(plain.language, "python");
    assert_eq!(plain.code, "print(1)");
    assert_eq!(plain.timeout_secs, 15);
    manifest.default_language = Some("Bash".to_string());
    let d = DeclarativeScriptRunner::script_request(&manifest, "echo", None);
    assert_eq!(d.language, "bash");
    let parsed = Json::Object(vec![
        ("lang".to_string(), Json::Str("JS".to_string())),
        ("script".to_string(), Json::Str("console.log(2)".to_string())),
        ("timeout".to_string(), Json::UInt(40)),
    ]);
    let r = DeclarativeScriptRunner::script_request(&manifest, "{..}", Some(&parsed));
    assert_eq!(r.language, "js");
    assert_eq!(r.code, "console.log(2)");
    assert_eq!(r.timeout_secs, 40);
    let odd = Json::Object(vec![
        ("language".to_string(), Json::UInt(3)),
        ("input".to_string(), Json::Str("x".to_string())),
        ("timeout".to_string(), Json::Str("9".to_string())),
    ]);
    let o = DeclarativeScriptRunner::script_request(&manifest, "raw", Some(&odd));
    assert_eq!(o.language, "bash");
    assert_eq!(o.code, "x");
    assert_eq!(o.timeout_secs, 15);
}

#[test]
fn script_files_and_command_line() {
    let mut manifest = ExecutionManifest::default();
    let f = DeclarativeScriptRunner::script_files(&manifest, "/work", 1700000000123, "rs", "");
    assert_eq!(f.scratch_dir, "/work/scratch");
    assert_eq!(f.script_file, "/work/scratch/eval_1700000000123.rs");
    assert_eq!(f.bin_file, "/work/scratch/eval_1700000000123");
    manifest.scratch_dir = Some("tmp".to_string());
    let g = DeclarativeScriptRunner::script_files(&manifest, "/work/", 7, "py", ".exe");
    assert_eq!(g.script_file, "/work/tmp/eval_7.py");
    assert_eq!(g.bin_file, "/work/tmp/eval_7.exe");
    let line = DeclarativeScriptRunner::command_line("rustc \"{file}\" -o \"{bin}\" && \"{bin}\"", "/s/a.rs", "/s/a");
    assert_eq!(line, "rustc \"/s/a.rs\" -o \"/s/a\" && \"/s/a\"");
}
