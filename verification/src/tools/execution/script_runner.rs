//! Declarative multi-language script execution: which command runs a script
//! of a given language, and with which file extension.
use vstd::prelude::*;
use crate::documents::{json_document, parse_json};
use crate::json::{jget, ju64, Json, JsonView, or_default, or_else, ostr, oview, str_opt};
use crate::keyed::{find_key, keyed_view, lemma_first_match_view};
use crate::paths::{join, join_seq};
use crate::text::{
    concat, decimal_seq, lowercase_seq, opt_view, replace_all, replace_seq, str_eq, to_lowercase, trim, trim_seq,
    u64_to_decimal,
};

verus! {

/// Declarative execution configuration read from a component's `package.json`.
#[derive(Debug)]
pub struct ExecutionManifest {
    pub execution_type: Option<String>,
    pub scratch_dir: Option<String>,
    pub default_language: Option<String>,
    /// Language name to configuration; a repeated name stands for its first
    /// occurrence.
    pub languages: Vec<(String, LanguageConfig)>,
    pub command: Option<String>,
}

/// Command template and file extension of one language.
#[derive(Debug)]
pub struct LanguageConfig {
    pub cmd: String,
    pub ext: String,
}

impl Default for ExecutionManifest {
    fn default() -> (r: Self)
        ensures
            r.execution_type is None,
            r.scratch_dir is None,
            r.default_language is None,
            r.languages@.len() == 0,
            r.command is None,
    {
        ExecutionManifest {
            execution_type: None,
            scratch_dir: None,
            default_language: None,
            languages: Vec::new(),
            command: None,
        }
    }
}

impl Default for LanguageConfig {
    fn default() -> (r: Self)
        ensures
            r.cmd@.len() == 0,
            r.ext@.len() == 0,
    {
        LanguageConfig { cmd: String::new(), ext: String::new() }
    }
}

/// Command template and extension of the languages known without a
/// manifest entry, by normalised name.
pub open spec fn builtin_language(n: Seq<char>) -> Option<(Seq<char>, Seq<char>)> {
    if n == "python"@ || n == "py"@ {
        Some(("python \"{file}\""@, "py"@))
    } else if n == "javascript"@ || n == "js"@ || n == "node"@ {
        Some(("node \"{file}\""@, "js"@))
    } else if n == "typescript"@ || n == "ts"@ {
        Some(("npx ts-node \"{file}\""@, "ts"@))
    } else if n == "powershell"@ || n == "ps1"@ {
        Some(("powershell -File \"{file}\""@, "ps1"@))
    } else if n == "pwsh"@ {
        Some(("pwsh -File \"{file}\""@, "ps1"@))
    } else if n == "bash"@ || n == "sh"@ {
        Some(("bash \"{file}\""@, "sh"@))
    } else if n == "rust"@ || n == "rs"@ {
        Some(("rustc \"{file}\" -o \"{bin}\" && \"{bin}\""@, "rs"@))
    } else if n == "go"@ || n == "golang"@ {
        Some(("go run \"{file}\""@, "go"@))
    } else if n == "c"@ {
        Some(("gcc \"{file}\" -o \"{bin}\" && \"{bin}\""@, "c"@))
    } else if n == "cpp"@ || n == "c++"@ {
        Some(("g++ \"{file}\" -o \"{bin}\" && \"{bin}\""@, "cpp"@))
    } else if n == "java"@ {
        Some(("java \"{file}\""@, "java"@))
    } else if n == "php"@ {
        Some(("php \"{file}\""@, "php"@))
    } else if n == "ruby"@ || n == "rb"@ {
        Some(("ruby \"{file}\""@, "rb"@))
    } else if n == "lua"@ {
        Some(("lua \"{file}\""@, "lua"@))
    } else if n == "r"@ {
        Some(("Rscript \"{file}\""@, "r"@))
    } else {
        None
    }
}

/// The language name as it is looked up: trimmed and lower-cased.
pub open spec fn normalized_language(lang: Seq<char>) -> Seq<char> {
    lowercase_seq(trim_seq(lang))
}

/// Command template and extension for `lang`: the manifest's own entry
/// first, then the built-in table, and for any other name the name itself
/// run on the file, with extension `txt`.
pub open spec fn language_config_spec(languages: Seq<(String, LanguageConfig)>, lang: Seq<char>) -> (Seq<char>, Seq<char>) {
    let n = normalized_language(lang);
    let m = keyed_view(languages);
    if m.contains_key(n) {
        (m[n].cmd@, m[n].ext@)
    } else {
        match builtin_language(n) {
            Some(p) => p,
            None => (n + " \"{file}\""@, "txt"@),
        }
    }
}

/// What a script payload asks for: the language (lower-cased), the code
/// and the timeout in seconds. A payload that parsed as JSON (`parsed`)
/// names them in `language` or `lang`, `code`, `script` or `input`, and
/// `timeout`; what it does not name is the manifest's default language (else
/// Python), the whole payload, and 15 seconds.
pub open spec fn script_request_spec(default_language: Option<Seq<char>>, payload: Seq<char>, parsed: Option<JsonView>) -> (Seq<char>, Seq<char>, u64) {
    let fallback = or_default(default_language, "python"@);
    match parsed {
        Some(v) => (
            lowercase_seq(or_default(ostr(or_else(jget(v, "language"@), jget(v, "lang"@))), fallback)),
            or_default(ostr(or_else(or_else(jget(v, "code"@), jget(v, "script"@)), jget(v, "input"@))), payload),
            or_default(
                match jget(v, "timeout"@) {
                    Some(t) => ju64(t),
                    None => None,
                },
                15u64,
            ),
        ),
        None => (lowercase_seq(fallback), payload, 15u64),
    }
}

/// A script run that a payload asks for.
#[derive(Debug)]
pub struct ScriptRequest {
    /// The requested language, lower-cased.
    pub language: String,
    pub code: String,
    pub timeout_secs: u64,
}

/// The files of one script run, under the scratch folder of `cwd`.
#[derive(Debug)]
pub struct ScriptFiles {
    pub scratch_dir: String,
    pub script_file: String,
    pub bin_file: String,
}

/// Runs code snippets of many languages through declarative command
/// templates.
pub struct DeclarativeScriptRunner;

/// The built-in command template and extension for a normalised name.
fn builtin_lookup(n: &str) -> (r: Option<(String, String)>)
    ensures
        match r {
            Some(p) => builtin_language(n@) == Some((p.0@, p.1@)),
            None => builtin_language(n@) is None,
        },
{
    let (cmd, ext) = if str_eq(n, "python") || str_eq(n, "py") {
        ("python \"{file}\"", "py")
    } else if str_eq(n, "javascript") || str_eq(n, "js") || str_eq(n, "node") {
        ("node \"{file}\"", "js")
    } else if str_eq(n, "typescript") || str_eq(n, "ts") {
        ("npx ts-node \"{file}\"", "ts")
    } else if str_eq(n, "powershell") || str_eq(n, "ps1") {
        ("powershell -File \"{file}\"", "ps1")
    } else if str_eq(n, "pwsh") {
        ("pwsh -File \"{file}\"", "ps1")
    } else if str_eq(n, "bash") || str_eq(n, "sh") {
        ("bash \"{file}\"", "sh")
    } else if str_eq(n, "rust") || str_eq(n, "rs") {
        ("rustc \"{file}\" -o \"{bin}\" && \"{bin}\"", "rs")
    } else if str_eq(n, "go") || str_eq(n, "golang") {
        ("go run \"{file}\"", "go")
    } else if str_eq(n, "c") {
        ("gcc \"{file}\" -o \"{bin}\" && \"{bin}\"", "c")
    } else if str_eq(n, "cpp") || str_eq(n, "c++") {
        ("g++ \"{file}\" -o \"{bin}\" && \"{bin}\"", "cpp")
    } else if str_eq(n, "java") {
        ("java \"{file}\"", "java")
    } else if str_eq(n, "php") {
        ("php \"{file}\"", "php")
    } else if str_eq(n, "ruby") || str_eq(n, "rb") {
        ("ruby \"{file}\"", "rb")
    } else if str_eq(n, "lua") {
        ("lua \"{file}\"", "lua")
    } else if str_eq(n, "r") {
        ("Rscript \"{file}\"", "r")
    } else {
        return None;
    };
    Some((String::from_str(cmd), String::from_str(ext)))
}

impl DeclarativeScriptRunner {
    /// Command template and file extension for a language: the manifest's
    /// declaration first, then the built-in multi-language table, then the
    /// language name used as the command.
    pub fn resolve_language_config(manifest: &ExecutionManifest, lang: &str) -> (r: (String, String))
        ensures
            (r.0@, r.1@) == language_config_spec(manifest.languages@, lang@),
    {
        let normalized = to_lowercase(trim(lang));
        if let Some(i) = find_key(&manifest.languages, normalized.as_str()) {
            proof {
                lemma_first_match_view(manifest.languages@, normalized@, i as int);
            }
            return (manifest.languages[i].1.cmd.clone(), manifest.languages[i].1.ext.clone());
        }
        match builtin_lookup(normalized.as_str()) {
            Some(p) => p,
            None => (concat(normalized.as_str(), " \"{file}\""), String::from_str("txt")),
        }
    }

    /// The script run a payload's text asks for: its JSON fields where
    /// serde_json reads a document from it, else the payload as code (see
    /// [`Self::script_request`]).
    pub fn script_request_from_payload(manifest: &ExecutionManifest, payload: &str) -> (r: ScriptRequest)
        ensures
            (r.language@, r.code@, r.timeout_secs) == script_request_spec(
                opt_view(manifest.default_language),
                payload@,
                json_document(payload@),
            ),
    {
        match parse_json(payload) {
            Some(v) => Self::script_request(manifest, payload, Some(&v)),
            None => Self::script_request(manifest, payload, None),
        }
    }

    /// The script run that a payload asks for; `parsed` is the payload
    /// parsed as JSON, where it parsed.
    pub fn script_request(manifest: &ExecutionManifest, payload: &str, parsed: Option<&Json>) -> (r: ScriptRequest)
        ensures
            (r.language@, r.code@, r.timeout_secs) == script_request_spec(
                opt_view(manifest.default_language),
                payload@,
                oview(parsed),
            ),
    {
        let fallback: &str = match &manifest.default_language {
            Some(d) => d.as_str(),
            None => "python",
        };
        match parsed {
            None => ScriptRequest { language: to_lowercase(fallback), code: String::from_str(payload), timeout_secs: 15 },
            Some(v) => {
                let lsrc = match v.get("language") {
                    Some(l) => Some(l),
                    None => v.get("lang"),
                };
                let language = match str_opt(lsrc) {
                    Some(l) => to_lowercase(l),
                    None => to_lowercase(fallback),
                };
                let csrc = match v.get("code") {
                    Some(c) => Some(c),
                    None => match v.get("script") {
                        Some(c) => Some(c),
                        None => v.get("input"),
                    },
                };
                let code = match str_opt(csrc) {
                    Some(c) => String::from_str(c),
                    None => String::from_str(payload),
                };
                let timeout_secs = match v.get("timeout") {
                    Some(t) => match t.as_u64() {
                        Some(n) => n,
                        None => 15,
                    },
                    None => 15,
                };
                ScriptRequest { language, code, timeout_secs }
            },
        }
    }

    /// The scratch folder (the manifest's, else `scratch`) under `cwd`, the
    /// script file `eval_<stamp>.<ext>` and the binary `eval_<stamp><suffix>`
    /// in it.
    pub fn script_files(manifest: &ExecutionManifest, cwd: &str, stamp_ms: u64, ext: &str, exe_suffix: &str) -> (r: ScriptFiles)
        ensures
            r.scratch_dir@ == join_seq(cwd@, or_default(opt_view(manifest.scratch_dir), "scratch"@)),
            r.script_file@ == join_seq(r.scratch_dir@, "eval_"@ + decimal_seq(stamp_ms as nat) + "."@ + ext@),
            r.bin_file@ == join_seq(r.scratch_dir@, "eval_"@ + decimal_seq(stamp_ms as nat) + exe_suffix@),
    {
        let scratch_name: &str = match &manifest.scratch_dir {
            Some(d) => d.as_str(),
            None => "scratch",
        };
        let scratch_dir = join(cwd, scratch_name);
        let stamp = u64_to_decimal(stamp_ms);
        let base = concat("eval_", stamp.as_str());
        let with_dot = concat(base.as_str(), ".");
        let script_name = concat(with_dot.as_str(), ext);
        let bin_name = concat(base.as_str(), exe_suffix);
        let script_file = join(scratch_dir.as_str(), script_name.as_str());
        let bin_file = join(scratch_dir.as_str(), bin_name.as_str());
        ScriptFiles { scratch_dir, script_file, bin_file }
    }

    /// The command line of a run: the template with `{file}` replaced by the
    /// script file, then `{bin}` by the binary.
    pub fn command_line(template: &str, script_file: &str, bin_file: &str) -> (r: String)
        ensures
            r@ == replace_seq(replace_seq(template@, "{file}"@, script_file@), "{bin}"@, bin_file@),
    {
        proof {
            reveal_strlit("{file}");
            reveal_strlit("{bin}");
        }
        let a = replace_all(template, "{file}", script_file);
        replace_all(a.as_str(), "{bin}", bin_file)
    }
}

} // verus!
