//! The neural foundry: engine-wide permissions, and which skills are held
//! loaded for a prompt.
pub mod security;

use vstd::prelude::*;
use crate::paths::{join, join_seq};
use crate::text::{replace_char, views};

verus! {

/// Which skills are held loaded, oldest first.
pub struct CoreFoundry {
    active_skill_ids: Vec<String>,
}

/// The skills held after activating `id` when `fit` skills fit in memory:
/// while the skills held, with the new one, would not fit, the oldest
/// leaves; then `id` moves to (or joins at) the back.
pub open spec fn activated(a: Seq<Seq<char>>, id: Seq<char>, fit: nat) -> Seq<Seq<char>> {
    let n = a.len();
    let evicted = if n >= fit {
        if fit == 0 {
            n
        } else {
            (n - fit + 1) as nat
        }
    } else {
        0
    };
    a.skip(evicted as int).filter(|x: Seq<char>| x != id).push(id)
}

impl CoreFoundry {
    /// The skills held, oldest first.
    pub closed spec fn active(&self) -> Seq<Seq<char>> {
        views(self.active_skill_ids@)
    }

    /// A foundry holding no skill.
    pub fn new() -> (r: Self)
        ensures
            r.active() == Seq::<Seq<char>>::empty(),
    {
        let r = CoreFoundry { active_skill_ids: Vec::new() };
        assert(r.active() =~= Seq::<Seq<char>>::empty());
        r
    }

    /// The skills held, oldest first.
    pub fn active_skill_ids(&self) -> (r: &Vec<String>)
        ensures
            views(r@) == self.active(),
    {
        &self.active_skill_ids
    }

    /// Activates `skill_id` when `fit_count` skills fit in memory (the
    /// caller's estimate of the memory left, in skills).
    pub fn activate_skill(&mut self, skill_id: &str, fit_count: usize)
        ensures
            final(self).active() == activated(old(self).active(), skill_id@, fit_count as nat),
    {
        let ghost a = self.active();
        let ghost mut k: int = 0;
        while self.active_skill_ids.len() >= fit_count && self.active_skill_ids.len() > 0
            invariant
                0 <= k <= a.len(),
                views(self.active_skill_ids@) == a.skip(k),
                fit_count >= 1 ==> k <= (if a.len() >= fit_count { a.len() - fit_count + 1 } else { 0 }),
            decreases self.active_skill_ids@.len(),
        {
            let ghost before = self.active_skill_ids@;
            assert(views(before).len() > 0);
            self.active_skill_ids.remove(0);
            proof {
                assert(self.active_skill_ids@ =~= before.subrange(1, before.len() as int));
                assert forall|j: int| 0 <= j < a.skip(k + 1).len() implies views(self.active_skill_ids@)[j] == a.skip(k + 1)[j] by {
                    assert(views(before)[j + 1] == a.skip(k)[j + 1]);
                }
                assert(views(self.active_skill_ids@) =~= a.skip(k + 1));
                k = k + 1;
            }
        }
        proof {
            let n = a.len();
            if fit_count == 0 {
                assert(k == n);
            } else if n >= fit_count {
                assert(k == n - fit_count + 1);
            } else {
                assert(k == 0);
            }
        }
        let ghost kept = views(self.active_skill_ids@);
        let mut out: Vec<String> = Vec::new();
        let mut i: usize = 0;
        while i < self.active_skill_ids.len()
            invariant
                kept == views(self.active_skill_ids@),
                i <= kept.len(),
                views(out@) == kept.take(i as int).filter(|x: Seq<char>| x != skill_id@),
            decreases kept.len() - i,
        {
            proof {
                assert(kept.take(i as int + 1) =~= kept.take(i as int).push(kept[i as int]));
                kept.take(i as int).lemma_filter_push(kept[i as int], |x: Seq<char>| x != skill_id@);
            }
            if !crate::text::str_eq(self.active_skill_ids[i].as_str(), skill_id) {
                let s = self.active_skill_ids[i].clone();
                let ghost ov = views(out@);
                out.push(s);
                assert(views(out@) =~= ov.push(kept[i as int]));
            }
            i = i + 1;
        }
        assert(kept.take(kept.len() as int) =~= kept);
        let ghost ov = views(out@);
        out.push(String::from_str(skill_id));
        assert(views(out@) =~= ov.push(skill_id@));
        self.active_skill_ids = out;
    }
}

impl Default for CoreFoundry {
    fn default() -> (r: Self)
        ensures
            r.active() == Seq::<Seq<char>>::empty(),
    {
        CoreFoundry::new()
    }
}

/// How a skill is brought into a prompt.
#[derive(Debug, Clone, PartialEq, Eq)]
pub enum SkillLoad {
    /// No chat model is assigned: the skill is skipped.
    NoModel,
    /// The key/value cache is disabled: the skill's text goes in the prompt.
    TextPayload,
    /// The skill's precomputed key/value cache for the chat model, at this
    /// path, is injected if it exists, else flagged for compilation.
    Cache(String),
}

/// Where a skill keeps its key/value cache for a chat model: in the skill's
/// `.cache` folder, named after the model with `:` made `-`.
pub open spec fn kv_cache_path(skill_dir: Seq<char>, model: Seq<char>) -> Seq<char> {
    join_seq(join_seq(skill_dir, ".cache"@), crate::text::replace_seq(model, ":"@, "-"@) + ".kvcache.safetensors"@)
}

/// How to bring a skill stored in `skill_dir` into a prompt, given the chat
/// model assigned (if any) and whether key/value caches are enabled.
pub fn plan_skill_load(chat_model: Option<&str>, enable_kvcache: bool, skill_dir: &str) -> (r: SkillLoad)
    ensures
        match chat_model {
            None => r == SkillLoad::NoModel,
            Some(m) => if !enable_kvcache {
                r == SkillLoad::TextPayload
            } else {
                r matches SkillLoad::Cache(p) && p@ == kv_cache_path(skill_dir@, m@)
            },
        },
{
    match chat_model {
        None => SkillLoad::NoModel,
        Some(m) => {
            if !enable_kvcache {
                return SkillLoad::TextPayload;
            }
            proof {
                reveal_strlit(":");
            }
            let safe = crate::text::replace_all(m, ":", "-");
            let dir = join(skill_dir, ".cache");
            let mut file = safe;
            file.append(".kvcache.safetensors");
            SkillLoad::Cache(join(dir.as_str(), file.as_str()))
        },
    }
}

} // verus!
