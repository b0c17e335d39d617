//! `SKILL.md` files: a `---` frontmatter block of metadata, then the
//! Markdown instructions of the skill.
use vstd::prelude::*;
use crate::documents::{parse_yaml, yaml_document};
use crate::json::{collect_strings, get_opt, jarray, jget, Json, JsonView, oarray, oget, or_else, ostr, oview, str_opt, string_items};
use crate::text::{find_first, first_occ, replace_all, replace_seq, trim, trim_seq, views};

verus! {

/// Metadata of a skill, from its frontmatter.
#[derive(Debug)]
pub struct SkillMetadata {
    pub name: String,
    pub version: String,
    pub description: String,
    pub triggers: Vec<String>,
    pub permissions: Vec<String>,
    pub allowed_tools: Vec<String>,
}

/// Skill metadata with its texts as character sequences.
#[verifier::ext_equal]
pub ghost struct SkillMetadataView {
    pub name: Seq<char>,
    pub version: Seq<char>,
    pub description: Seq<char>,
    pub triggers: Seq<Seq<char>>,
    pub permissions: Seq<Seq<char>>,
    pub allowed_tools: Seq<Seq<char>>,
}

impl View for SkillMetadata {
    type V = SkillMetadataView;

    open spec fn view(&self) -> SkillMetadataView {
        SkillMetadataView {
            name: self.name@,
            version: self.version@,
            description: self.description@,
            triggers: views(self.triggers@),
            permissions: views(self.permissions@),
            allowed_tools: views(self.allowed_tools@),
        }
    }
}

/// Metadata with every field empty.
pub open spec fn empty_metadata() -> SkillMetadataView {
    SkillMetadataView {
        name: Seq::empty(),
        version: Seq::empty(),
        description: Seq::empty(),
        triggers: Seq::empty(),
        permissions: Seq::empty(),
        allowed_tools: Seq::empty(),
    }
}

impl Default for SkillMetadata {
    fn default() -> (r: Self)
        ensures
            r@ == empty_metadata(),
    {
        let r = SkillMetadata {
            name: String::new(),
            version: String::new(),
            description: String::new(),
            triggers: Vec::new(),
            permissions: Vec::new(),
            allowed_tools: Vec::new(),
        };
        assert(r@ =~= empty_metadata());
        r
    }
}

/// A parsed skill: metadata and instructions.
#[derive(Debug)]
pub struct ParsedSkill {
    pub metadata: SkillMetadata,
    pub prompt_instructions: String,
}

/// The strings of an optional array (empty when it is not an array).
pub open spec fn strings_of(a: Option<Seq<JsonView>>) -> Seq<Seq<char>> {
    match a {
        Some(v) => string_items(v),
        None => Seq::empty(),
    }
}

/// The text of a member, empty when it is not a string.
pub open spec fn text_of(j: Option<JsonView>) -> Seq<char> {
    match ostr(j) {
        Some(s) => s,
        None => Seq::empty(),
    }
}

/// The triggers of a frontmatter: its `triggers` list, or else the
/// `semantic_triggers` (or `semantic`) list of its `triggers` (or
/// `discovery`) object.
pub open spec fn triggers_of(v: JsonView) -> Seq<Seq<char>> {
    match oarray(jget(v, "triggers"@)) {
        Some(items) => string_items(items),
        None => match or_else(jget(v, "triggers"@), jget(v, "discovery"@)) {
            Some(t) => strings_of(oarray(or_else(jget(t, "semantic_triggers"@), jget(t, "semantic"@)))),
            None => Seq::empty(),
        },
    }
}

/// The metadata that a parsed frontmatter gives.
pub open spec fn metadata_of(v: JsonView) -> SkillMetadataView {
    SkillMetadataView {
        name: text_of(jget(v, "name"@)),
        version: text_of(or_else(jget(v, "version"@), jget(v, "latest_version"@))),
        description: text_of(jget(v, "description"@)),
        triggers: triggers_of(v),
        permissions: strings_of(oarray(jget(v, "permissions"@))),
        allowed_tools: strings_of(oarray(or_else(jget(v, "allowed-tools"@), jget(v, "allowed_tools"@)))),
    }
}

/// The frontmatter text and the instructions of a skill file whose line
/// endings are already `\n`: what lies between the first `---\n` and the
/// next `\n---`, and the trimmed rest after that.
pub open spec fn frontmatter_split(n: Seq<char>) -> Option<(Seq<char>, Seq<char>)> {
    match first_occ(n, "---\n"@, 0) {
        Some(s) => match first_occ(n, "\n---"@, s + 4) {
            Some(e) => Some((n.subrange(s + 4, e), trim_seq(n.subrange(e + 4, n.len() as int)))),
            None => None,
        },
        None => None,
    }
}

/// The file text with `\r\n` line endings made `\n`.
pub open spec fn normalized_content(content: Seq<char>) -> Seq<char> {
    replace_seq(content, "\r\n"@, "\n"@)
}

/// Reads `SKILL.md` files.
pub struct SkillParser;

impl SkillParser {
    /// Splits a skill file into its frontmatter text and its instructions;
    /// `None` when it has no frontmatter block.
    pub fn split_frontmatter(content: &str) -> (r: Option<(String, String)>)
        ensures
            match r {
                Some(p) => frontmatter_split(normalized_content(content@)) == Some((p.0@, p.1@)),
                None => frontmatter_split(normalized_content(content@)) is None,
            },
    {
        proof {
            reveal_strlit("\r\n");
        }
        let normalized = replace_all(content, "\r\n", "\n");
        let n = normalized.as_str();
        let len = n.unicode_len();
        proof {
            reveal_strlit("---\n");
            reveal_strlit("\n---");
        }
        match find_first(n, "---\n", 0) {
            Some(start) => match find_first(n, "\n---", start + 4) {
                Some(end) => {
                    let yaml = n.substring_char(start + 4, end);
                    let rest = n.substring_char(end + 4, len);
                    Some((String::from_str(yaml), String::from_str(trim(rest))))
                },
                None => None,
            },
            None => None,
        }
    }

    /// The metadata of a frontmatter that parsed (`Some`), or empty metadata
    /// when it did not.
    pub fn metadata_from_value(value: Option<&Json>) -> (r: SkillMetadata)
        ensures
            r@ == match oview(value) {
                Some(v) => metadata_of(v),
                None => empty_metadata(),
            },
    {
        match value {
            None => SkillMetadata::default(),
            Some(val) => {
                let name = match val.get("name") {
                    Some(v) => match v.as_str() {
                        Some(s) => String::from_str(s),
                        None => String::new(),
                    },
                    None => String::new(),
                };
                let vsrc = match val.get("version") {
                    Some(v) => Some(v),
                    None => val.get("latest_version"),
                };
                let version = match str_opt(vsrc) {
                    Some(s) => String::from_str(s),
                    None => String::new(),
                };
                let description = match str_opt(val.get("description")) {
                    Some(s) => String::from_str(s),
                    None => String::new(),
                };
                let triggers = match val.get("triggers") {
                    Some(t) if t.as_array().is_some() => {
                        let arr = t.as_array().unwrap();
                        collect_strings(arr)
                    },
                    _ => {
                        let tobj = match val.get("triggers") {
                            Some(t) => Some(t),
                            None => val.get("discovery"),
                        };
                        match tobj {
                            Some(t) => {
                                let s = match t.get("semantic_triggers") {
                                    Some(x) => Some(x),
                                    None => t.get("semantic"),
                                };
                                match s {
                                    Some(x) => match x.as_array() {
                                        Some(arr) => collect_strings(arr),
                                        None => Vec::new(),
                                    },
                                    None => Vec::new(),
                                }
                            },
                            None => Vec::new(),
                        }
                    },
                };
                let permissions = match val.get("permissions") {
                    Some(p) => match p.as_array() {
                        Some(arr) => collect_strings(arr),
                        None => Vec::new(),
                    },
                    None => Vec::new(),
                };
                let asrc = match val.get("allowed-tools") {
                    Some(a) => Some(a),
                    None => val.get("allowed_tools"),
                };
                let allowed_tools = match asrc {
                    Some(a) => match a.as_array() {
                        Some(arr) => collect_strings(arr),
                        None => Vec::new(),
                    },
                    None => Vec::new(),
                };
                let r = SkillMetadata { name, version, description, triggers, permissions, allowed_tools };
                assert(r@ =~= metadata_of(val@));
                r
            },
        }
    }

    /// Parses a skill file: the metadata from its frontmatter block as YAML
    /// (empty where the block is no YAML document, or where there is no
    /// block), and the Markdown after the block as instructions; without a
    /// block, the whole trimmed text is the instructions.
    pub fn parse_content(content: &str) -> (r: Option<ParsedSkill>)
        ensures
            r matches Some(p) && match frontmatter_split(normalized_content(content@)) {
                Some(parts) => p.metadata@ == (match yaml_document(parts.0) {
                    Some(v) => metadata_of(v),
                    None => empty_metadata(),
                }) && p.prompt_instructions@ == parts.1,
                None => p.metadata@ == empty_metadata() && p.prompt_instructions@ == trim_seq(content@),
            },
    {
        match Self::split_frontmatter(content) {
            Some((front, body)) => {
                let doc = parse_yaml(front.as_str());
                let metadata = match &doc {
                    Some(v) => Self::metadata_from_value(Some(v)),
                    None => Self::metadata_from_value(None),
                };
                Some(ParsedSkill { metadata, prompt_instructions: body })
            },
            None => Some(
                ParsedSkill {
                    metadata: SkillMetadata::default(),
                    prompt_instructions: String::from_str(trim(content)),
                },
            ),
        }
    }
}

} // verus!
