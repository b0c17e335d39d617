//! The environment handed to a child process: the host's variables, minus
//! secrets where the security mode asks, with a virtual environment put
//! first on `PATH`.
use vstd::prelude::*;
use crate::keyed::{find_key, lemma_first_match_view, str_map, str_map_insert};
use crate::paths::{join, join_seq};
use crate::text::{concat, contains, contains_seq, str_eq, str_views, to_uppercase, uppercase_seq};

verus! {

/// Environment prepared for a child process.
#[derive(Debug)]
pub struct ResolvedEnvironment {
    pub cwd: String,
    /// Variable name to value; a repeated name stands for its first
    /// occurrence.
    pub env_vars: Vec<(String, String)>,
}

/// Variables that always count as secrets.
pub open spec fn sensitive_names() -> Seq<Seq<char>> {
    seq![
        "OPENAI_API_KEY"@,
        "ANTHROPIC_API_KEY"@,
        "DEEPSEEK_API_KEY"@,
        "GEMINI_API_KEY"@,
        "AWS_ACCESS_KEY_ID"@,
        "AWS_SECRET_ACCESS_KEY"@,
        "GITHUB_TOKEN"@,
        "GH_TOKEN"@,
        "GITLAB_TOKEN"@,
        "STRIPE_API_KEY"@,
        "DATABASE_URL"@,
        "POSTGRES_PASSWORD"@,
        "REDIS_PASSWORD"@,
        "SECRET_KEY"@,
    ]
}

/// Does an upper-cased variable name look like a secret?
pub open spec fn is_sensitive_spec(upper: Seq<char>) -> bool {
    sensitive_names().contains(upper) || contains_seq(upper, "API_KEY"@) || contains_seq(upper, "SECRET"@)
        || contains_seq(upper, "TOKEN"@) || contains_seq(upper, "PASSWORD"@)
}

/// The host variables kept for the child, inserted in order (a later
/// value of a name replaces an earlier one).
pub open spec fn inherited_env(vars: Seq<(String, String)>, scrub: bool) -> Map<Seq<char>, Seq<char>>
    decreases vars.len(),
{
    if vars.len() == 0 {
        Map::empty()
    } else {
        let m = inherited_env(vars.drop_last(), scrub);
        let kv = vars.last();
        if scrub && is_sensitive_spec(uppercase_seq(kv.0@)) {
            m
        } else {
            m.insert(kv.0@, kv.1@)
        }
    }
}

/// The binary folder of a virtual environment.
pub open spec fn venv_bin_seq(venv: Seq<char>, windows: bool) -> Seq<char> {
    join_seq(venv, if windows { "Scripts"@ } else { "bin"@ })
}

/// The environment after a virtual environment whose binary folder exists
/// is activated: its folder goes first on `PATH`, and `VIRTUAL_ENV` names it.
pub open spec fn with_venv(m: Map<Seq<char>, Seq<char>>, venv: Seq<char>, windows: bool) -> Map<Seq<char>, Seq<char>> {
    let current = if m.contains_key("PATH"@) {
        m["PATH"@]
    } else if m.contains_key("Path"@) {
        m["Path"@]
    } else {
        Seq::empty()
    };
    let sep = if windows { ";"@ } else { ":"@ };
    m.insert("PATH"@, venv_bin_seq(venv, windows) + sep + current).insert("VIRTUAL_ENV"@, venv)
}

/// Prepares the environment of a command run.
pub struct EnvironmentResolver;

impl EnvironmentResolver {
    /// Names of the variables that always count as secrets.
    pub fn sensitive_vars() -> (r: Vec<&'static str>)
        ensures
            str_views(r@) == sensitive_names(),
    {
        let r: Vec<&'static str> = vec![
            "OPENAI_API_KEY",
            "ANTHROPIC_API_KEY",
            "DEEPSEEK_API_KEY",
            "GEMINI_API_KEY",
            "AWS_ACCESS_KEY_ID",
            "AWS_SECRET_ACCESS_KEY",
            "GITHUB_TOKEN",
            "GH_TOKEN",
            "GITLAB_TOKEN",
            "STRIPE_API_KEY",
            "DATABASE_URL",
            "POSTGRES_PASSWORD",
            "REDIS_PASSWORD",
            "SECRET_KEY",
        ];
        assert(str_views(r@) =~= sensitive_names());
        r
    }

    /// Does an upper-cased variable name match a known secret pattern?
    pub fn is_sensitive(var_name_upper: &str) -> (r: bool)
        ensures
            r == is_sensitive_spec(var_name_upper@),
    {
        let names = Self::sensitive_vars();
        let mut i: usize = 0;
        let mut listed = false;
        while i < names.len()
            invariant
                i <= names@.len(),
                str_views(names@) == sensitive_names(),
                listed == exists|j: int| 0 <= j < i && sensitive_names()[j] == var_name_upper@,
            decreases names@.len() - i,
        {
            if str_eq(names[i], var_name_upper) {
                listed = true;
            }
            assert(sensitive_names()[i as int] == names@[i as int]@);
            i = i + 1;
        }
        proof {
            if listed {
                let j = choose|j: int| 0 <= j < i && sensitive_names()[j] == var_name_upper@;
                assert(sensitive_names().contains(var_name_upper@));
            }
            if sensitive_names().contains(var_name_upper@) {
                let j = choose|j: int| 0 <= j < sensitive_names().len() && sensitive_names()[j] == var_name_upper@;
                assert(j < i);
            }
        }
        listed || contains(var_name_upper, "API_KEY") || contains(var_name_upper, "SECRET") || contains(
            var_name_upper,
            "TOKEN",
        ) || contains(var_name_upper, "PASSWORD")
    }

    /// The value of a variable, if set.
    fn get_var(env: &Vec<(String, String)>, key: &str) -> (r: Option<String>)
        ensures
            match r {
                Some(v) => str_map(env@).contains_key(key@) && v@ == str_map(env@)[key@],
                None => !str_map(env@).contains_key(key@),
            },
    {
        match find_key(env, key) {
            Some(i) => {
                proof {
                    lemma_first_match_view(env@, key@, i as int);
                }
                Some(env[i].1.clone())
            },
            None => None,
        }
    }

    /// Prepares the environment of a command run in `cwd`: the host
    /// variables `vars` (in the order the host lists them), without secrets
    /// when `scrub_secrets` holds, and with the virtual environment `venv_dir`
    /// activated when its binary folder exists (`venv_bin_exists`). The
    /// binary folder and the `PATH` separator follow the host kind
    /// (`windows`).
    pub fn resolve(
        cwd: &str,
        vars: &Vec<(String, String)>,
        venv_dir: Option<&str>,
        venv_bin_exists: bool,
        windows: bool,
        scrub_secrets: bool,
    ) -> (r: ResolvedEnvironment)
        ensures
            r.cwd@ == cwd@,
            str_map(r.env_vars@) == match venv_dir {
                Some(v) => if venv_bin_exists {
                    with_venv(inherited_env(vars@, scrub_secrets), v@, windows)
                } else {
                    inherited_env(vars@, scrub_secrets)
                },
                None => inherited_env(vars@, scrub_secrets),
            },
    {
        let mut env: Vec<(String, String)> = Vec::new();
        let mut i: usize = 0;
        assert(str_map(env@) =~= Map::<Seq<char>, Seq<char>>::empty());
        while i < vars.len()
            invariant
                i <= vars@.len(),
                str_map(env@) == inherited_env(vars@.subrange(0, i as int), scrub_secrets),
            decreases vars@.len() - i,
        {
            let key_upper = to_uppercase(vars[i].0.as_str());
            let skip = scrub_secrets && Self::is_sensitive(key_upper.as_str());
            proof {
                assert(vars@.subrange(0, i + 1).drop_last() =~= vars@.subrange(0, i as int));
                assert(vars@.subrange(0, i + 1).last() == vars@[i as int]);
            }
            if !skip {
                str_map_insert(&mut env, vars[i].0.clone(), vars[i].1.clone());
            }
            i = i + 1;
        }
        assert(vars@.subrange(0, vars@.len() as int) =~= vars@);
        if let Some(venv) = venv_dir {
            if venv_bin_exists {
                let venv_bin = join(venv, if windows { "Scripts" } else { "bin" });
                let separator = if windows { ";" } else { ":" };
                let current = match Self::get_var(&env, "PATH") {
                    Some(p) => p,
                    None => match Self::get_var(&env, "Path") {
                        Some(p) => p,
                        None => String::new(),
                    },
                };
                let head = concat(venv_bin.as_str(), separator);
                let new_path = concat(head.as_str(), current.as_str());
                str_map_insert(&mut env, String::from_str("PATH"), new_path);
                str_map_insert(&mut env, String::from_str("VIRTUAL_ENV"), String::from_str(venv));
            }
        }
        ResolvedEnvironment { cwd: String::from_str(cwd), env_vars: env }
    }
}

/// With scrubbing on, no kept variable has a name that looks like a secret.
pub proof fn lemma_scrubbed_env_has_no_secret(vars: Seq<(String, String)>, k: Seq<char>)
    requires
        inherited_env(vars, true).contains_key(k),
    ensures
        !is_sensitive_spec(uppercase_seq(k)),
    decreases vars.len(),
{
    if vars.len() > 0 {
        let kv = vars.last();
        if kv.0@ != k || is_sensitive_spec(uppercase_seq(kv.0@)) {
            lemma_scrubbed_env_has_no_secret(vars.drop_last(), k);
        }
    }
}

} // verus!
