//! Keyword router from user queries to the skills whose triggers they name.
use vstd::prelude::*;
use crate::keyed::{distinct_keys, find_key, keyed_insert, keyed_view, lemma_first_match_view, str_map, str_map_insert};
use crate::text::{contains, contains_seq, lowercase_seq, str_eq, to_lowercase, trim, trim_seq, views};
use crate::tools::registry::index::ToolsRegistry;
use crate::tools::registry::types::ToolEntry;
use super::parser::ParsedSkill;

verus! {

/// Routes queries to skills by trigger keyword.
#[derive(Debug)]
pub struct SkillRouter {
    /// Lower-cased trigger to skill id.
    pub keyword_map: Vec<(String, String)>,
    /// Skill id to its parsed `SKILL.md`.
    pub parsed_cache: Vec<(String, ParsedSkill)>,
}

/// Is the entry an enabled skill?
pub open spec fn is_enabled_skill(e: ToolEntry) -> bool {
    e.category@ == "skill"@ && e.enabled
}

/// The trigger map after the triggers `ts` of skill `id` are added in order;
/// triggers are lower-cased and trimmed, and empty ones are skipped.
pub open spec fn with_triggers(m: Map<Seq<char>, Seq<char>>, ts: Seq<Seq<char>>, id: Seq<char>) -> Map<Seq<char>, Seq<char>>
    decreases ts.len(),
{
    if ts.len() == 0 {
        m
    } else {
        let m2 = with_triggers(m, ts.drop_last(), id);
        let n = trim_seq(lowercase_seq(ts.last()));
        if n.len() > 0 {
            m2.insert(n, id)
        } else {
            m2
        }
    }
}

/// The trigger map built from the enabled skills of the registry, in order.
pub open spec fn trigger_index(tools: Seq<(String, ToolEntry)>) -> Map<Seq<char>, Seq<char>>
    decreases tools.len(),
{
    if tools.len() == 0 {
        Map::empty()
    } else {
        let m = trigger_index(tools.drop_last());
        let p = tools.last();
        if is_enabled_skill(p.1) {
            with_triggers(m, views(p.1.semantic_triggers@), p.0@)
        } else {
            m
        }
    }
}

/// Ids of the enabled skills of the registry.
pub open spec fn enabled_skill_ids(tools: Seq<(String, ToolEntry)>) -> Set<Seq<char>> {
    Set::new(|k: Seq<char>| exists|i: int| 0 <= i < tools.len() && tools[i].0@ == k && is_enabled_skill(#[trigger] tools[i].1))
}

/// Skill ids whose trigger occurs in `q`, in map order, each once.
pub open spec fn matched_ids(entries: Seq<(String, String)>, q: Seq<char>) -> Seq<Seq<char>>
    decreases entries.len(),
{
    if entries.len() == 0 {
        Seq::empty()
    } else {
        let m = matched_ids(entries.drop_last(), q);
        let e = entries.last();
        if contains_seq(q, e.0@) && !m.contains(e.1@) {
            m.push(e.1@)
        } else {
            m
        }
    }
}

/// Adds the triggers of skill `id` to the map.
fn add_triggers(map: &mut Vec<(String, String)>, triggers: &Vec<String>, id: &str)
    ensures
        str_map(final(map)@) == with_triggers(str_map(old(map)@), views(triggers@), id@),
        distinct_keys(old(map)@) ==> distinct_keys(final(map)@),
{
    let ghost start = str_map(map@);
    let mut i: usize = 0;
    while i < triggers.len()
        invariant
            i <= triggers@.len(),
            start == str_map(old(map)@),
            str_map(map@) == with_triggers(start, views(triggers@).subrange(0, i as int), id@),
            distinct_keys(old(map)@) ==> distinct_keys(map@),
        decreases triggers@.len() - i,
    {
        proof {
            assert(views(triggers@).subrange(0, i + 1).drop_last() =~= views(triggers@).subrange(0, i as int));
            assert(views(triggers@).subrange(0, i + 1).last() == triggers@[i as int]@);
        }
        let lower = to_lowercase(triggers[i].as_str());
        let n = trim(lower.as_str());
        if n.unicode_len() > 0 {
            str_map_insert(map, String::from_str(n), String::from_str(id));
        }
        i = i + 1;
    }
    assert(views(triggers@).subrange(0, triggers@.len() as int) =~= views(triggers@));
}

impl Default for SkillRouter {
    fn default() -> (r: Self)
        ensures
            r.keyword_map@.len() == 0,
            r.parsed_cache@.len() == 0,
    {
        Self::new()
    }
}

impl SkillRouter {
    /// An empty router; `rebuild_index` fills it.
    pub fn new() -> (r: Self)
        ensures
            r.keyword_map@.len() == 0,
            r.parsed_cache@.len() == 0,
    {
        SkillRouter { keyword_map: Vec::new(), parsed_cache: Vec::new() }
    }

    /// Rebuilds the index from the registry: the triggers of every enabled
    /// skill, and the parsed `SKILL.md` (from `parsed_skills`, by skill id)
    /// of every enabled skill that has one.
    pub fn rebuild_index(&mut self, registry: &ToolsRegistry, parsed_skills: Vec<(String, ParsedSkill)>)
        ensures
            str_map(final(self).keyword_map@) == trigger_index(registry.installed_tools@),
            keyed_view(final(self).parsed_cache@) == keyed_view(parsed_skills@).restrict(
                enabled_skill_ids(registry.installed_tools@),
            ),
            distinct_keys(final(self).keyword_map@),
            distinct_keys(final(self).parsed_cache@),
    {
        let mut map: Vec<(String, String)> = Vec::new();
        let ghost tools = registry.installed_tools@;
        assert(str_map(map@) =~= Map::<Seq<char>, Seq<char>>::empty());
        let mut i: usize = 0;
        while i < registry.installed_tools.len()
            invariant
                i <= tools.len(),
                tools == registry.installed_tools@,
                str_map(map@) == trigger_index(tools.subrange(0, i as int)),
                distinct_keys(map@),
            decreases tools.len() - i,
        {
            proof {
                assert(tools.subrange(0, i + 1).drop_last() =~= tools.subrange(0, i as int));
                assert(tools.subrange(0, i + 1).last() == tools[i as int]);
            }
            let entry = &registry.installed_tools[i].1;
            if str_eq(entry.category.as_str(), "skill") && entry.enabled {
                add_triggers(&mut map, &entry.semantic_triggers, registry.installed_tools[i].0.as_str());
            }
            i = i + 1;
        }
        assert(tools.subrange(0, tools.len() as int) =~= tools);
        let ghost src = parsed_skills@;
        let ghost enabled = enabled_skill_ids(tools);
        let mut cache: Vec<(String, ParsedSkill)> = Vec::new();
        let mut rest = parsed_skills;
        assert(keyed_view(cache@) =~= Map::<Seq<char>, ParsedSkill>::empty());
        while rest.len() > 0
            invariant
                tools == registry.installed_tools@,
                enabled == enabled_skill_ids(tools),
                rest@.len() <= src.len(),
                rest@ == src.subrange(0, rest@.len() as int),
                keyed_view(cache@) == keyed_view(src.subrange(rest@.len() as int, src.len() as int)).restrict(enabled),
                distinct_keys(cache@),
            decreases rest@.len(),
        {
            let ghost k = rest@.len() - 1;
            let (id, parsed) = rest.pop().unwrap();
            assert(rest@ =~= src.subrange(0, k));
            let mut listed = false;
            let mut j: usize = 0;
            while j < registry.installed_tools.len()
                invariant
                    j <= tools.len(),
                    tools == registry.installed_tools@,
                    listed == exists|m: int| 0 <= m < j && tools[m].0@ == id@ && is_enabled_skill(#[trigger] tools[m].1),
                decreases tools.len() - j,
            {
                let e = &registry.installed_tools[j];
                if str_eq(e.0.as_str(), id.as_str()) && str_eq(e.1.category.as_str(), "skill") && e.1.enabled {
                    listed = true;
                }
                j = j + 1;
            }
            let ghost tail = src.subrange(k + 1, src.len() as int);
            let ghost whole = src.subrange(k, src.len() as int);
            proof {
                assert(whole =~= seq![(id, parsed)] + tail);
                assert(whole[0] == (id, parsed));
                assert forall|m: int| 0 <= m < tail.len() implies #[trigger] tail[m] == whole[m + 1] by {}
                lemma_prepend_view(id, parsed, tail);
                assert(listed == enabled.contains(id@));
            }
            if listed {
                keyed_insert(&mut cache, id, parsed);
                proof {
                    assert(keyed_view(cache@) =~= keyed_view(whole).restrict(enabled));
                }
            } else {
                proof {
                    assert(keyed_view(cache@) =~= keyed_view(whole).restrict(enabled));
                }
            }
        }
        assert(src.subrange(0, src.len() as int) =~= src);
        self.keyword_map = map;
        self.parsed_cache = cache;
    }

    /// Ids of the skills one of whose triggers occurs in the lower-cased
    /// query, each once.
    pub fn match_query(&self, user_query: &str) -> (r: Vec<String>)
        ensures
            views(r@) == matched_ids(self.keyword_map@, lowercase_seq(user_query@)),
    {
        let q = to_lowercase(user_query);
        let ghost entries = self.keyword_map@;
        let mut matched: Vec<String> = Vec::new();
        let mut i: usize = 0;
        while i < self.keyword_map.len()
            invariant
                i <= entries.len(),
                entries == self.keyword_map@,
                q@ == lowercase_seq(user_query@),
                views(matched@) == matched_ids(entries.subrange(0, i as int), q@),
            decreases entries.len() - i,
        {
            proof {
                assert(entries.subrange(0, i + 1).drop_last() =~= entries.subrange(0, i as int));
                assert(entries.subrange(0, i + 1).last() == entries[i as int]);
            }
            let t = &self.keyword_map[i].0;
            let sid = &self.keyword_map[i].1;
            if contains(q.as_str(), t.as_str()) {
                let mut seen = false;
                let mut k: usize = 0;
                while k < matched.len()
                    invariant
                        k <= matched@.len(),
                        seen == exists|m: int| 0 <= m < k && matched@[m]@ == sid@,
                    decreases matched@.len() - k,
                {
                    if str_eq(matched[k].as_str(), sid.as_str()) {
                        seen = true;
                    }
                    k = k + 1;
                }
                proof {
                    if seen {
                        let m = choose|m: int| 0 <= m < k && matched@[m]@ == sid@;
                        assert(views(matched@)[m] == sid@);
                    }
                    if views(matched@).contains(sid@) {
                        let m = choose|m: int| 0 <= m < views(matched@).len() && views(matched@)[m] == sid@;
                        assert(matched@[m]@ == sid@);
                    }
                }
                if !seen {
                    let ghost before = matched@;
                    matched.push(sid.clone());
                    assert(views(matched@) =~= views(before).push(sid@));
                }
            }
            i = i + 1;
        }
        assert(entries.subrange(0, entries.len() as int) =~= entries);
        matched
    }

    /// The instructions of a skill, when it has a parsed `SKILL.md`.
    pub fn get_instructions(&self, skill_id: &str) -> (r: Option<&str>)
        ensures
            match r {
                Some(s) => keyed_view(self.parsed_cache@).contains_key(skill_id@) && s@ == keyed_view(
                    self.parsed_cache@,
                )[skill_id@].prompt_instructions@,
                None => !keyed_view(self.parsed_cache@).contains_key(skill_id@),
            },
    {
        match find_key(&self.parsed_cache, skill_id) {
            Some(i) => {
                proof {
                    lemma_first_match_view(self.parsed_cache@, skill_id@, i as int);
                }
                Some(self.parsed_cache[i].1.prompt_instructions.as_str())
            },
            None => None,
        }
    }

    /// The tools a skill restricts itself to, when it names any.
    pub fn get_allowed_tools(&self, skill_id: &str) -> (r: Option<&Vec<String>>)
        ensures
            match r {
                Some(v) => keyed_view(self.parsed_cache@).contains_key(skill_id@) && v@.len() > 0 && views(v@)
                    == keyed_view(self.parsed_cache@)[skill_id@].metadata@.allowed_tools,
                None => !keyed_view(self.parsed_cache@).contains_key(skill_id@) || keyed_view(
                    self.parsed_cache@,
                )[skill_id@].metadata.allowed_tools@.len() == 0,
            },
    {
        match find_key(&self.parsed_cache, skill_id) {
            Some(i) => {
                proof {
                    lemma_first_match_view(self.parsed_cache@, skill_id@, i as int);
                }
                if self.parsed_cache[i].1.metadata.allowed_tools.len() == 0 {
                    None
                } else {
                    Some(&self.parsed_cache[i].1.metadata.allowed_tools)
                }
            },
            None => None,
        }
    }
}

/// The map of a vector with one pair put in front: that pair's key gets its
/// value, and the rest as before.
pub proof fn lemma_prepend_view<V>(key: String, v: V, tail: Seq<(String, V)>)
    ensures
        keyed_view(seq![(key, v)] + tail) == keyed_view(tail).insert(key@, v),
{
    let s = seq![(key, v)] + tail;
    assert(s[0] == (key, v));
    assert(crate::keyed::first_match(s, key@, 0));
    lemma_first_match_view(s, key@, 0);
    assert forall|m: int| 0 <= m < tail.len() implies #[trigger] s[m + 1] == tail[m] by {}
    assert forall|k2: Seq<char>| #[trigger] keyed_view(s).contains_key(k2) <==> keyed_view(tail).insert(key@, v).contains_key(k2) by {
        if crate::keyed::has_key(s, k2) && k2 != key@ {
            let j = choose|j: int| 0 <= j < s.len() && s[j].0@ == k2;
            assert(j > 0);
            assert(tail[j - 1].0@ == k2);
        }
        if crate::keyed::has_key(tail, k2) {
            let j = choose|j: int| 0 <= j < tail.len() && tail[j].0@ == k2;
            assert(s[j + 1].0@ == k2);
        }
    }
    assert forall|k2: Seq<char>| keyed_view(s).contains_key(k2) && k2 != key@ implies #[trigger] keyed_view(s)[k2] == keyed_view(tail)[k2] by {
        let j0 = choose|j: int| 0 <= j < tail.len() && tail[j].0@ == k2;
        crate::keyed::lemma_first_match_exists(tail, k2, j0);
        let j = choose|j: int| crate::keyed::first_match(tail, k2, j);
        assert(crate::keyed::first_match(s, k2, j + 1)) by {
            assert forall|m: int| 0 <= m < j + 1 implies s[m].0@ != k2 by {
                if m > 0 {
                    assert(s[m] == tail[m - 1]);
                }
            }
        }
        lemma_first_match_view(tail, k2, j);
        lemma_first_match_view(s, k2, j + 1);
    }
    assert(keyed_view(s) =~= keyed_view(tail).insert(key@, v));
}

/// A query's matches hold each skill id once, and only ids whose trigger
/// the query holds.
pub proof fn lemma_matches_distinct_and_triggered(entries: Seq<(String, String)>, q: Seq<char>)
    ensures
        matched_ids(entries, q).no_duplicates(),
        forall|i: int|
            0 <= i < matched_ids(entries, q).len() ==> exists|j: int|
                0 <= j < entries.len() && entries[j].1@ == #[trigger] matched_ids(entries, q)[i] && contains_seq(
                    q,
                    entries[j].0@,
                ),
    decreases entries.len(),
{
    if entries.len() > 0 {
        let pre = entries.drop_last();
        lemma_matches_distinct_and_triggered(pre, q);
        let m = matched_ids(pre, q);
        assert forall|i: int| 0 <= i < matched_ids(entries, q).len() implies exists|j: int|
            0 <= j < entries.len() && entries[j].1@ == #[trigger] matched_ids(entries, q)[i] && contains_seq(
                q,
                entries[j].0@,
            ) by {
            if i < m.len() {
                let j = choose|j: int| 0 <= j < pre.len() && pre[j].1@ == #[trigger] m[i] && contains_seq(q, pre[j].0@);
                assert(entries[j] == pre[j]);
            } else {
                assert(entries[entries.len() - 1] == entries.last());
            }
        }
    }
}

} // verus!
