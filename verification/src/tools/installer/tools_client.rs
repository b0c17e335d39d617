//! Installation of tools from the tools registry: where a component's
//! files come from, and where they go.
use vstd::prelude::*;
use crate::documents::{json_document, parse_json};
use crate::json::{jget, jobject, Json, JsonView, ostr, oview, str_opt};
use crate::paths::{join, join_seq};
use crate::text::{
    concat, contains, contains_seq, ends_with, ends_with_seq, join_parts, join_strings, replace_all, replace_seq,
    split_char, split_seq, str_eq, views, debug_strings, strings_debug,
};
use crate::tools::prompt_compiler::ToolDirs;

verus! {

/// The host operating system, for platform-specific downloads.
#[derive(Debug, Clone, Copy, PartialEq, Eq, Structural)]
pub enum HostOs {
    Windows,
    MacOs,
    Linux,
}

/// The download locations of a component version.
#[derive(Debug)]
pub struct PackageUrls {
    pub target_version: String,
    pub download_url: String,
    pub binary_download_url: String,
}

/// Is the component type one of the three known ones?
pub open spec fn known_type(t: Seq<char>) -> bool {
    t == "skill"@ || t == "plugin"@ || t == "mcp"@
}

/// The folder of a component type.
pub open spec fn type_dir(dirs: &ToolDirs, t: Seq<char>) -> Seq<char> {
    if t == "skill"@ {
        dirs.skills_dir@
    } else if t == "plugin"@ {
        dirs.plugins_dir@
    } else {
        dirs.mcp_dir@
    }
}

/// The base URL of a registry manifest URL: without `/registry.json`, or
/// without its last path segment.
pub open spec fn base_url_spec(url: Seq<char>) -> Seq<char> {
    if ends_with_seq(url, "/registry.json"@) {
        replace_seq(url, "/registry.json"@, Seq::empty())
    } else {
        join_parts(split_seq(url, '/').drop_last(), "/"@)
    }
}

/// The routing category of a component type.
pub open spec fn route_category_spec(t: Seq<char>) -> Seq<char> {
    if t == "mcp"@ {
        "mcp"@
    } else {
        t + "s"@
    }
}

/// The family path that the registry routes a category to.
pub open spec fn family_path_spec(registry: JsonView, route: Seq<char>) -> Option<Seq<char>> {
    match jget(registry, "routing"@) {
        Some(r) => if jobject(r) is Some {
            ostr(jget(r, route))
        } else {
            None
        },
        None => None,
    }
}

/// The package URL of a component listed in a family index.
pub open spec fn package_url_spec(base: Seq<char>, family_path: Seq<char>, family: JsonView, id: Seq<char>) -> Option<Seq<char>> {
    match jget(family, "items"@) {
        Some(items) => if jobject(items) is Some {
            match ostr(jget(items, id)) {
                Some(p) => Some(base + "/"@ + split_seq(family_path, '/')[0] + "/"@ + p),
                None => None,
            }
        } else {
            None
        },
        None => None,
    }
}

/// The key of the host in a package's `os` table.
pub open spec fn os_key(os: HostOs) -> Seq<char> {
    match os {
        HostOs::Windows => "windows"@,
        HostOs::MacOs => "macos"@,
        HostOs::Linux => "linux"@,
    }
}

/// Does an object view have member `k`?
pub open spec fn has_member(v: JsonView, k: Seq<char>) -> bool {
    jget(v, k) is Some
}

/// The keys of an object's members, in order.
pub open spec fn member_keys(m: Seq<(Seq<char>, JsonView)>) -> Seq<Seq<char>> {
    m.map_values(|p: (Seq<char>, JsonView)| p.0)
}

/// What a package description gives for a component: the version to
/// install (the requested one, else its `latest_version`, else `0.1.0`),
/// its bundle URL and its binary URL for the host (empty when absent); an
/// error when a requested version is not listed.
pub open spec fn package_urls_spec(data: JsonView, requested: Option<Seq<char>>, id: Seq<char>, os: HostOs) -> Result<(Seq<char>, Seq<char>, Seq<char>), Seq<char>> {
    let versions = match jget(data, "versions"@) {
        Some(v) => jobject(v),
        None => None,
    };
    match (requested, versions) {
        (Some(req), Some(m)) if !has_member(jget(data, "versions"@)->0, req) => Err(
            "Version '"@ + req + "' not found for '"@ + id + "'. Available versions in Cluaiz Tools: "@
                + strings_debug(member_keys(m)),
        ),
        _ => {
            let ver = match requested {
                Some(r) => r,
                None => match ostr(jget(data, "latest_version"@)) {
                    Some(l) => l,
                    None => "0.1.0"@,
                },
            };
            let vdata = match versions {
                Some(_) => match jget(jget(data, "versions"@)->0, ver) {
                    Some(x) => if jobject(x) is Some {
                        Some(x)
                    } else {
                        None
                    },
                    None => None,
                },
                None => None,
            };
            let dl = match vdata {
                Some(x) => match jget(x, "files"@) {
                    Some(f) => if jobject(f) is Some {
                        match ostr(jget(f, "file_directory"@)) {
                            Some(u) => u,
                            None => Seq::empty(),
                        }
                    } else {
                        Seq::empty()
                    },
                    None => Seq::empty(),
                },
                None => Seq::empty(),
            };
            let bin = match vdata {
                Some(x) => match jget(x, "os"@) {
                    Some(o) => if jobject(o) is Some {
                        match ostr(jget(o, os_key(os))) {
                            Some(u) => u,
                            None => Seq::empty(),
                        }
                    } else {
                        Seq::empty()
                    },
                    None => Seq::empty(),
                },
                None => Seq::empty(),
            };
            Ok((ver, dl, bin))
        },
    }
}

/// The release prefix of a component type.
pub open spec fn release_prefix(t: Seq<char>) -> Seq<char> {
    if known_type(t) {
        t
    } else {
        "ext"@
    }
}

/// The version used in fallback URLs.
pub open spec fn fallback_version(v: Seq<char>) -> Seq<char> {
    if v.len() == 0 {
        "1.0.0"@
    } else {
        v
    }
}

/// Platform name and library extension of the host's plugin binary.
pub open spec fn binary_platform(os: HostOs) -> (Seq<char>, Seq<char>) {
    match os {
        HostOs::Windows => ("windows_x64"@, "dll"@),
        HostOs::MacOs => ("macos_arm64"@, "dylib"@),
        HostOs::Linux => ("linux_x64"@, "so"@),
    }
}

/// The download locations after the deterministic release fallbacks, or
/// the error of a package without a bundle.
pub open spec fn finalized_urls_spec(t: Seq<char>, id: Seq<char>, ver: Seq<char>, dl: Seq<char>, bin: Seq<char>, os: HostOs) -> Result<(Seq<char>, Seq<char>, Seq<char>), Seq<char>> {
    let fv = fallback_version(ver);
    let dl2 = if dl.len() == 0 && id.len() > 0 {
        "https://github.com/cluaiz/cluaiz-tools/releases/download/"@ + release_prefix(t) + "-"@ + id + "-v"@ + fv
            + "/"@ + id + "-files.zip"@
    } else {
        dl
    };
    let bin2 = if bin.len() == 0 && id.len() > 0 && t == "plugin"@ {
        "https://github.com/cluaiz/cluaiz-tools/releases/download/plugin-"@ + id + "-v"@ + fv + "/"@ + id + "_"@
            + binary_platform(os).0 + "."@ + binary_platform(os).1
    } else {
        bin
    };
    if dl2.len() == 0 {
        Err("Package '"@ + id + "' (version '"@ + ver + "') does not specify a valid download bundle in Cluaiz Tools."@)
    } else {
        Ok((ver, dl2, bin2))
    }
}

/// The manifest URL that an engine configuration names: `web.tools` (or
/// `web.hub`) `.manifest_url`, else `tools` (or `hub`) `.manifest_url`.
pub open spec fn registry_url_spec(cfg: JsonView) -> Option<Seq<char>> {
    let web = match jget(cfg, "web"@) {
        Some(w) => match jget(w, "tools"@) {
            Some(x) => Some(x),
            None => jget(w, "hub"@),
        },
        None => None,
    };
    let from_web = match web {
        Some(h) => ostr(jget(h, "manifest_url"@)),
        None => None,
    };
    let top = match jget(cfg, "tools"@) {
        Some(x) => Some(x),
        None => jget(cfg, "hub"@),
    };
    let from_top = match top {
        Some(h) => ostr(jget(h, "manifest_url"@)),
        None => None,
    };
    match from_web {
        Some(u) => Some(u),
        None => from_top,
    }
}

/// The components a cache clearing removes: all, or those named `target`.
pub open spec fn cleared(items: Seq<Seq<char>>, target: Option<String>) -> Seq<Seq<char>> {
    match target {
        Some(t) => items.filter(|x: Seq<char>| x == t@),
        None => items,
    }
}

/// Installs, lists and removes tool components.
pub struct ToolsInstaller;

impl ToolsInstaller {
    /// Splits `id@version` into the id and the requested version.
    pub fn split_component_id(raw: &str) -> (r: (String, Option<String>))
        ensures
            contains_seq(raw@, "@"@) ==> r.0@ == split_seq(raw@, '@')[0] && crate::text::opt_view(r.1) == Some(
                split_seq(raw@, '@')[1],
            ),
            !contains_seq(raw@, "@"@) ==> r.0@ == raw@ && r.1 is None,
    {
        if contains(raw, "@") {
            let parts = split_char(raw, '@');
            proof {
                reveal_strlit("@");
                let i = choose|i: int| crate::text::occurs_at(raw@, "@"@, i);
                assert(raw@.subrange(i, i + 1)[0] == raw@[i]);
                crate::text::lemma_split_contains(raw@, '@');
            }
            (parts[0].clone(), Some(parts[1].clone()))
        } else {
            (String::from_str(raw), None)
        }
    }

    /// The folder of a component type; an error for an unknown type.
    pub fn component_base_dir(dirs: &ToolDirs, component_type: &str) -> (r: Result<String, String>)
        ensures
            known_type(component_type@) ==> (r matches Ok(d) && d@ == type_dir(dirs, component_type@)),
            !known_type(component_type@) ==> (r matches Err(e) && e@ == "Unknown tool component type: "@
                + component_type@),
    {
        if str_eq(component_type, "skill") {
            Ok(dirs.skills_dir.clone())
        } else if str_eq(component_type, "plugin") {
            Ok(dirs.plugins_dir.clone())
        } else if str_eq(component_type, "mcp") {
            Ok(dirs.mcp_dir.clone())
        } else {
            Err(concat("Unknown tool component type: ", component_type))
        }
    }

    /// The folder a component installs to; an error for an unknown type.
    pub fn component_dir(dirs: &ToolDirs, component_type: &str, component_id: &str) -> (r: Result<String, String>)
        ensures
            known_type(component_type@) ==> (r matches Ok(d) && d@ == join_seq(type_dir(dirs, component_type@), component_id@)),
            !known_type(component_type@) ==> (r matches Err(e) && e@ == "Unknown tool component type: "@
                + component_type@),
    {
        match Self::component_base_dir(dirs, component_type) {
            Ok(b) => Ok(join(b.as_str(), component_id)),
            Err(e) => Err(e),
        }
    }

    /// The base URL of a registry manifest URL.
    pub fn registry_base_url(url: &str) -> (r: String)
        ensures
            r@ == base_url_spec(url@),
    {
        if ends_with(url, "/registry.json") {
            proof {
                reveal_strlit("/registry.json");
                reveal_strlit("");
                assert(""@ =~= Seq::<char>::empty());
            }
            let r = replace_all(url, "/registry.json", "");
            assert(r@ == base_url_spec(url@));
            r
        } else {
            let mut parts = split_char(url, '/');
            proof {
                crate::text::lemma_split_nonempty(url@, '/');
            }
            let ghost all = views(parts@);
            parts.pop();
            assert(views(parts@) =~= all.drop_last());
            let r = join_strings(&parts, "/");
            assert(r@ == base_url_spec(url@));
            r
        }
    }

    /// The routing category of a component type (`mcp`, or the type with an
    /// `s`).
    pub fn route_category(component_type: &str) -> (r: String)
        ensures
            r@ == route_category_spec(component_type@),
    {
        if str_eq(component_type, "mcp") {
            String::from_str("mcp")
        } else {
            concat(component_type, "s")
        }
    }

    /// The family index path of a route in the text of a registry index;
    /// none where serde_json reads no document from it.
    pub fn family_path_text(registry_text: &str, route: &str) -> (r: Option<String>)
        ensures
            crate::text::opt_view(r) == match json_document(registry_text@) {
                Some(v) => family_path_spec(v, route@),
                None => None,
            },
    {
        match parse_json(registry_text) {
            Some(v) => Self::family_path(&v, route),
            None => None,
        }
    }

    /// The package URL of a component in the text of a family index; none
    /// where serde_json reads no document from it.
    pub fn package_url_text(base: &str, family_path: &str, family_text: &str, component_id: &str) -> (r: Option<String>)
        ensures
            crate::text::opt_view(r) == match json_document(family_text@) {
                Some(v) => package_url_spec(base@, family_path@, v, component_id@),
                None => None,
            },
    {
        match parse_json(family_text) {
            Some(v) => Self::package_url(base, family_path, &v, component_id),
            None => None,
        }
    }

    /// What the text of a package description gives for a component (see
    /// [`Self::resolve_package`]); none where serde_json reads no document
    /// from it.
    pub fn resolve_package_text(data_text: &str, requested: Option<&str>, component_id: &str, os: HostOs) -> (r: Option<Result<PackageUrls, String>>)
        ensures
            match json_document(data_text@) {
                None => r is None,
                Some(v) => match r {
                    Some(Ok(u)) => package_urls_spec(
                        v,
                        match requested {
                            Some(q) => Some(q@),
                            None => None,
                        },
                        component_id@,
                        os,
                    ) == Ok::<(Seq<char>, Seq<char>, Seq<char>), Seq<char>>((u.target_version@, u.download_url@, u.binary_download_url@)),
                    Some(Err(e)) => package_urls_spec(
                        v,
                        match requested {
                            Some(q) => Some(q@),
                            None => None,
                        },
                        component_id@,
                        os,
                    ) == Err::<(Seq<char>, Seq<char>, Seq<char>), Seq<char>>(e@),
                    None => false,
                },
            },
    {
        match parse_json(data_text) {
            Some(v) => Some(Self::resolve_package(&v, requested, component_id, os)),
            None => None,
        }
    }

    /// The manifest URL that the text of an engine configuration names;
    /// none where serde_json reads no document from it.
    pub fn registry_url_from_text(cfg_text: &str) -> (r: Option<String>)
        ensures
            crate::text::opt_view(r) == match json_document(cfg_text@) {
                Some(v) => registry_url_spec(v),
                None => None,
            },
    {
        match parse_json(cfg_text) {
            Some(v) => Self::registry_url_from(&v),
            None => None,
        }
    }

    /// The family path that the registry routes a category to.
    pub fn family_path(registry: &Json, route: &str) -> (r: Option<String>)
        ensures
            crate::text::opt_view(r) == family_path_spec(registry@, route@),
    {
        match registry.get("routing") {
            Some(rt) => if rt.as_object().is_some() {
                match str_opt(rt.get(route)) {
                    Some(s) => Some(String::from_str(s)),
                    None => None,
                }
            } else {
                None
            },
            None => None,
        }
    }

    /// The package URL of a component listed in a family index.
    pub fn package_url(base: &str, family_path: &str, family: &Json, component_id: &str) -> (r: Option<String>)
        ensures
            crate::text::opt_view(r) == package_url_spec(base@, family_path@, family@, component_id@),
    {
        match family.get("items") {
            Some(items) => if items.as_object().is_some() {
                match str_opt(items.get(component_id)) {
                    Some(p) => {
                        let parts = split_char(family_path, '/');
                        proof {
                            crate::text::lemma_split_nonempty(family_path@, '/');
                        }
                        let a = concat(base, "/");
                        let b = concat(a.as_str(), parts[0].as_str());
                        let c = concat(b.as_str(), "/");
                        Some(concat(c.as_str(), p))
                    },
                    None => None,
                }
            } else {
                None
            },
            None => None,
        }
    }

    /// The key of the host in a package's `os` table.
    pub fn os_key(os: HostOs) -> (r: &'static str)
        ensures
            r@ == os_key(os),
    {
        match os {
            HostOs::Windows => "windows",
            HostOs::MacOs => "macos",
            HostOs::Linux => "linux",
        }
    }

    /// The version to install and the download URLs that a package
    /// description gives; an error when a requested version is not listed.
    pub fn resolve_package(data: &Json, requested: Option<&str>, component_id: &str, os: HostOs) -> (r: Result<PackageUrls, String>)
        ensures
            match r {
                Ok(u) => package_urls_spec(
                    data@,
                    match requested {
                        Some(q) => Some(q@),
                        None => None,
                    },
                    component_id@,
                    os,
                ) == Ok::<(Seq<char>, Seq<char>, Seq<char>), Seq<char>>((u.target_version@, u.download_url@, u.binary_download_url@)),
                Err(e) => package_urls_spec(
                    data@,
                    match requested {
                        Some(q) => Some(q@),
                        None => None,
                    },
                    component_id@,
                    os,
                ) == Err::<(Seq<char>, Seq<char>, Seq<char>), Seq<char>>(e@),
            },
    {
        let versions = match data.get("versions") {
            Some(v) => match v.as_object() {
                Some(m) => Some((v, m)),
                None => None,
            },
            None => None,
        };
        if let Some(req) = requested {
            if let Some((v, m)) = versions {
                if v.get(req).is_none() {
                    let mut keys: Vec<String> = Vec::new();
                    let mut i: usize = 0;
                    while i < m.len()
                        invariant
                            i <= m@.len(),
                            keys@.len() == i,
                            forall|j: int| 0 <= j < i ==> (#[trigger] keys@[j])@ == m@[j].0@,
                        decreases m@.len() - i,
                    {
                        keys.push(m[i].0.clone());
                        i = i + 1;
                    }
                    assert(views(keys@) =~= member_keys(m@.map_values(|p: (String, Json)| (p.0@, p.1@))));
                    let a = concat("Version '", req);
                    let b = concat(a.as_str(), "' not found for '");
                    let c = concat(b.as_str(), component_id);
                    let d = concat(c.as_str(), "'. Available versions in Cluaiz Tools: ");
                    let k = debug_strings(&keys);
                    return Err(concat(d.as_str(), k.as_str()));
                }
            }
        }
        let ver = match requested {
            Some(r) => String::from_str(r),
            None => match str_opt(data.get("latest_version")) {
                Some(l) => String::from_str(l),
                None => String::from_str("0.1.0"),
            },
        };
        let mut dl = String::new();
        let mut bin = String::new();
        if let Some((v, _)) = versions {
            if let Some(x) = v.get(ver.as_str()) {
                if x.as_object().is_some() {
                    if let Some(f) = x.get("files") {
                        if f.as_object().is_some() {
                            if let Some(u) = str_opt(f.get("file_directory")) {
                                dl = String::from_str(u);
                            }
                        }
                    }
                    if let Some(o) = x.get("os") {
                        if o.as_object().is_some() {
                            if let Some(u) = str_opt(o.get(Self::os_key(os))) {
                                bin = String::from_str(u);
                            }
                        }
                    }
                }
            }
        }
        Ok(PackageUrls { target_version: ver, download_url: dl, binary_download_url: bin })
    }

    /// Applies the deterministic release fallbacks to the download URLs;
    /// an error when the package still has no bundle.
    pub fn finalize_urls(component_type: &str, component_id: &str, urls: PackageUrls, os: HostOs) -> (r: Result<PackageUrls, String>)
        ensures
            match r {
                Ok(u) => finalized_urls_spec(component_type@, component_id@, urls.target_version@, urls.download_url@, urls.binary_download_url@, os)
                    == Ok::<(Seq<char>, Seq<char>, Seq<char>), Seq<char>>((u.target_version@, u.download_url@, u.binary_download_url@)),
                Err(e) => finalized_urls_spec(component_type@, component_id@, urls.target_version@, urls.download_url@, urls.binary_download_url@, os)
                    == Err::<(Seq<char>, Seq<char>, Seq<char>), Seq<char>>(e@),
            },
    {
        let ver_is_empty = urls.target_version.unicode_len() == 0;
        let fv = if ver_is_empty { "1.0.0" } else { urls.target_version.as_str() };
        let has_id = component_id.unicode_len() > 0;
        let dl = if urls.download_url.unicode_len() == 0 && has_id {
            let prefix = if str_eq(component_type, "skill") || str_eq(component_type, "plugin") || str_eq(
                component_type,
                "mcp",
            ) {
                component_type
            } else {
                "ext"
            };
            let a = concat("https://github.com/cluaiz/cluaiz-tools/releases/download/", prefix);
            let b = concat(a.as_str(), "-");
            let c = concat(b.as_str(), component_id);
            let d = concat(c.as_str(), "-v");
            let e = concat(d.as_str(), fv);
            let f = concat(e.as_str(), "/");
            let g = concat(f.as_str(), component_id);
            concat(g.as_str(), "-files.zip")
        } else {
            urls.download_url.clone()
        };
        let bin = if urls.binary_download_url.unicode_len() == 0 && has_id && str_eq(component_type, "plugin") {
            let (os_name, ext) = match os {
                HostOs::Windows => ("windows_x64", "dll"),
                HostOs::MacOs => ("macos_arm64", "dylib"),
                HostOs::Linux => ("linux_x64", "so"),
            };
            let a = concat("https://github.com/cluaiz/cluaiz-tools/releases/download/plugin-", component_id);
            let b = concat(a.as_str(), "-v");
            let c = concat(b.as_str(), fv);
            let d = concat(c.as_str(), "/");
            let e = concat(d.as_str(), component_id);
            let f = concat(e.as_str(), "_");
            let g = concat(f.as_str(), os_name);
            let h = concat(g.as_str(), ".");
            concat(h.as_str(), ext)
        } else {
            urls.binary_download_url.clone()
        };
        if dl.unicode_len() == 0 {
            let a = concat("Package '", component_id);
            let b = concat(a.as_str(), "' (version '");
            let c = concat(b.as_str(), urls.target_version.as_str());
            return Err(concat(c.as_str(), "') does not specify a valid download bundle in Cluaiz Tools."));
        }
        Ok(PackageUrls { target_version: urls.target_version, download_url: dl, binary_download_url: bin })
    }

    /// The file name of a downloaded plugin binary on the host.
    pub fn binary_file_name(component_id: &str, os: HostOs) -> (r: String)
        ensures
            r@ == component_id@ + "."@ + binary_platform(os).1,
    {
        let ext = match os {
            HostOs::Windows => "dll",
            HostOs::MacOs => "dylib",
            HostOs::Linux => "so",
        };
        let a = concat(component_id, ".");
        concat(a.as_str(), ext)
    }

    /// The registry URL that an engine configuration names.
    pub fn registry_url_from(cfg: &Json) -> (r: Option<String>)
        ensures
            crate::text::opt_view(r) == registry_url_spec(cfg@),
    {
        let web = match cfg.get("web") {
            Some(w) => match w.get("tools") {
                Some(x) => Some(x),
                None => w.get("hub"),
            },
            None => None,
        };
        if let Some(h) = web {
            if let Some(u) = str_opt(h.get("manifest_url")) {
                return Some(String::from_str(u));
            }
        }
        let top = match cfg.get("tools") {
            Some(x) => Some(x),
            None => cfg.get("hub"),
        };
        match top {
            Some(h) => match str_opt(h.get("manifest_url")) {
                Some(u) => Some(String::from_str(u)),
                None => None,
            },
            None => None,
        }
    }

    /// The registry URL used when no configuration names one.
    pub fn default_registry_url() -> (r: String)
        ensures
            r@ == "https://raw.githubusercontent.com/cluaiz/cluaiz-tools/main/registry.json"@,
    {
        String::from_str("https://raw.githubusercontent.com/cluaiz/cluaiz-tools/main/registry.json")
    }

    /// A summary of the installed components of a type; an error for an
    /// unknown type.
    pub fn list_component_cache(component_type: &str, items: &Vec<String>) -> (r: Result<String, String>)
        ensures
            known_type(component_type@) ==> (r matches Ok(s) && s@ == "Cached "@ + component_type@ + " components: "@
                + strings_debug(views(items@))),
            !known_type(component_type@) ==> (r matches Err(e) && e@ == "Unknown tool component type: "@
                + component_type@),
    {
        if !(str_eq(component_type, "skill") || str_eq(component_type, "plugin") || str_eq(component_type, "mcp")) {
            return Err(concat("Unknown tool component type: ", component_type));
        }
        let a = concat("Cached ", component_type);
        let b = concat(a.as_str(), " components: ");
        let d = debug_strings(items);
        Ok(concat(b.as_str(), d.as_str()))
    }

    /// The installed components that a cache clearing removes: all, or the
    /// one named `target`.
    pub fn components_to_clear(items: &Vec<String>, target: Option<&str>) -> (r: Vec<String>)
        ensures
            views(r@) == match target {
                Some(t) => views(items@).filter(|x: Seq<char>| x == t@),
                None => views(items@),
            },
    {
        let ghost iv = views(items@);
        let mut out: Vec<String> = Vec::new();
        let mut i: usize = 0;
        assert(iv.subrange(0, 0).filter(|x: Seq<char>| x == target->0@) =~= Seq::<Seq<char>>::empty()) by {
            reveal(Seq::filter);
        }
        while i < items.len()
            invariant
                i <= items@.len(),
                iv == views(items@),
                views(out@) == match target {
                    Some(t) => iv.subrange(0, i as int).filter(|x: Seq<char>| x == t@),
                    None => iv.subrange(0, i as int),
                },
            decreases items@.len() - i,
        {
            proof {
                reveal(Seq::filter);
                assert(iv.subrange(0, i + 1).drop_last() =~= iv.subrange(0, i as int));
                assert(iv.subrange(0, i + 1).last() == items@[i as int]@);
            }
            let take = match target {
                Some(t) => str_eq(items[i].as_str(), t),
                None => true,
            };
            if take {
                let ghost before = views(out@);
                out.push(items[i].clone());
                assert(views(out@) =~= before.push(items@[i as int]@));
            }
            proof {
                if target is None {
                    assert(views(out@) =~= iv.subrange(0, i + 1));
                }
            }
            i = i + 1;
        }
        assert(iv.subrange(0, iv.len() as int) =~= iv);
        out
    }

    /// How many components a cache clearing removes; an error for an
    /// unknown type. The log and metadata switches select nothing more.
    pub fn clear_component_cache(component_type: &str, items: &Vec<String>, target: Option<String>, purge_logs: bool, purge_meta: bool) -> (r: Result<usize, String>)
        ensures
            known_type(component_type@) ==> (r matches Ok(n) && n == cleared(views(items@), target).len()),
            !known_type(component_type@) ==> (r matches Err(e) && e@ == "Unknown tool component type: "@
                + component_type@),
    {
        if !(str_eq(component_type, "skill") || str_eq(component_type, "plugin") || str_eq(component_type, "mcp")) {
            return Err(concat("Unknown tool component type: ", component_type));
        }
        let t = match &target {
            Some(s) => Some(s.as_str()),
            None => None,
        };
        let v = Self::components_to_clear(items, t);
        Ok(v.len())
    }
}

} // verus!
