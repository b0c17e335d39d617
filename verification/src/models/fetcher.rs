//! Where downloaded models are kept, and how a cached model is found again.
use vstd::prelude::*;
use crate::paths::{join, join_seq};
use crate::text::{replace_all, replace_seq, split_char, split_seq, str_eq, views};
use crate::tools::registry::sync::{extension_of, find_last_dot_ext};

verus! {

/// The components of a path as `Path::components` yields them (Unix), the
/// root and `.` components left out.
pub open spec fn path_parts(p: Seq<char>) -> Seq<Seq<char>> {
    split_seq(p, '/').filter(|c: Seq<char>| c.len() > 0 && c != "."@)
}

/// The file name of a path, as `Path::file_name` gives it: its last
/// component, unless there is none or it is `..`.
pub open spec fn path_file_name(p: Seq<char>) -> Option<Seq<char>> {
    let c = path_parts(p);
    if c.len() == 0 || c.last() == ".."@ {
        None
    } else {
        Some(c.last())
    }
}

/// The file name of a path (see [`path_file_name`]).
pub fn file_name(p: &str) -> (r: Option<String>)
    ensures
        crate::text::opt_view(r) == path_file_name(p@),
{
    let pieces = split_char(p, '/');
    let ghost ps = split_seq(p@, '/');
    let ghost keep = |c: Seq<char>| c.len() > 0 && c != "."@;
    let mut last: Option<String> = None;
    let mut i: usize = 0;
    while i < pieces.len()
        invariant
            ps == split_seq(p@, '/'),
            views(pieces@) == ps,
            keep == (|c: Seq<char>| c.len() > 0 && c != "."@),
            i <= pieces@.len(),
            match last {
                Some(l) => ps.take(i as int).filter(keep).len() > 0 && l@ == ps.take(i as int).filter(keep).last(),
                None => ps.take(i as int).filter(keep).len() == 0,
            },
        decreases pieces@.len() - i,
    {
        proof {
            assert(ps.take(i as int + 1) =~= ps.take(i as int).push(ps[i as int]));
            ps.take(i as int).lemma_filter_push(ps[i as int], keep);
            assert(ps[i as int] == pieces@[i as int]@);
        }
        let piece = pieces[i].as_str();
        if piece.unicode_len() > 0 && !str_eq(piece, ".") {
            last = Some(String::from_str(piece));
        }
        i = i + 1;
    }
    assert(ps.take(ps.len() as int) =~= ps);
    match last {
        Some(l) => {
            if str_eq(l.as_str(), "..") {
                None
            } else {
                Some(l)
            }
        },
        None => None,
    }
}

/// The last `/`-separated piece of a repository id (`org/model` gives
/// `model`).
pub open spec fn repo_model_name(repo_id: Seq<char>) -> Seq<char> {
    split_seq(repo_id, '/').last()
}

fn model_name(repo_id: &str) -> (r: String)
    ensures
        r@ == repo_model_name(repo_id@),
{
    let parts = split_char(repo_id, '/');
    proof {
        crate::text::lemma_split_nonempty(repo_id@, '/');
    }
    let n = parts.len();
    assert(views(parts@)[n - 1] == parts@[n - 1]@);
    parts[n - 1].clone()
}

/// Fetches and keeps models.
pub struct ModelDownloader;

impl ModelDownloader {
    /// The folder a model is downloaded to: its category folder, then the
    /// last piece of its repository id.
    pub fn model_dir(models_dir: &str, category: &str, repo_id: &str) -> (r: String)
        ensures
            r@ == join_seq(join_seq(models_dir@, category@), repo_model_name(repo_id@)),
    {
        let c = join(models_dir, category);
        let m = model_name(repo_id);
        join(c.as_str(), m.as_str())
    }

    /// The folder a cached model is looked up in: like `model_dir`, with
    /// `:` in the model name made `-`.
    pub fn cache_dir(models_dir: &str, category: &str, repo_id: &str) -> (r: String)
        ensures
            r@ == join_seq(join_seq(models_dir@, category@), replace_seq(repo_model_name(repo_id@), ":"@, "-"@)),
    {
        let c = join(models_dir, category);
        let m = model_name(repo_id);
        proof {
            reveal_strlit(":");
        }
        let safe = replace_all(m.as_str(), ":", "-");
        join(c.as_str(), safe.as_str())
    }

    /// Where a model's weight file is expected in the cache: the file name
    /// of `filename` (or `filename` itself when it has none) in the cache
    /// folder.
    pub fn cached_weight_path(models_dir: &str, category: &str, repo_id: &str, filename: &str) -> (r: String)
        ensures
            r@ == join_seq(
                join_seq(join_seq(models_dir@, category@), replace_seq(repo_model_name(repo_id@), ":"@, "-"@)),
                match path_file_name(filename@) {
                    Some(f) => f,
                    None => filename@,
                },
            ),
    {
        let dir = Self::cache_dir(models_dir, category, repo_id);
        let base = match file_name(filename) {
            Some(f) => f,
            None => String::from_str(filename),
        };
        join(dir.as_str(), base.as_str())
    }

    /// The cached weight file of a model: the expected one when it exists
    /// (`weight_exists`), else the first entry of the cache folder (its
    /// listing `entries`, in order) with a `gguf` or `onnx` extension.
    pub fn get_cached_path(
        models_dir: &str,
        category: &str,
        repo_id: &str,
        filename: &str,
        weight_exists: bool,
        entries: &Vec<String>,
    ) -> (r: Option<String>)
        ensures
            weight_exists ==> r is Some && r->0@ == join_seq(
                join_seq(join_seq(models_dir@, category@), replace_seq(repo_model_name(repo_id@), ":"@, "-"@)),
                match path_file_name(filename@) {
                    Some(f) => f,
                    None => filename@,
                },
            ),
            !weight_exists ==> match r {
                Some(p) => exists|i: int|
                    0 <= i < entries@.len() && weight_extension(#[trigger] entries@[i]@) && p@ == join_seq(
                        join_seq(join_seq(models_dir@, category@), replace_seq(repo_model_name(repo_id@), ":"@, "-"@)),
                        entries@[i]@,
                    ) && forall|j: int| 0 <= j < i ==> !weight_extension(entries@[j]@),
                None => forall|j: int| 0 <= j < entries@.len() ==> !weight_extension(#[trigger] entries@[j]@),
            },
    {
        if weight_exists {
            return Some(Self::cached_weight_path(models_dir, category, repo_id, filename));
        }
        let dir = Self::cache_dir(models_dir, category, repo_id);
        let mut i: usize = 0;
        while i < entries.len()
            invariant
                !weight_exists,
                dir@ == join_seq(join_seq(models_dir@, category@), replace_seq(repo_model_name(repo_id@), ":"@, "-"@)),
                i <= entries@.len(),
                forall|j: int| 0 <= j < i ==> !weight_extension(#[trigger] entries@[j]@),
            decreases entries@.len() - i,
        {
            let e = find_last_dot_ext(entries[i].as_str());
            let hit = match &e {
                Some(x) => str_eq(x.as_str(), "gguf") || str_eq(x.as_str(), "onnx"),
                None => false,
            };
            if hit {
                assert(weight_extension(entries@[i as int]@));
                return Some(join(dir.as_str(), entries[i].as_str()));
            }
            i = i + 1;
        }
        None
    }

    /// Is the model in the cache (see [`ModelDownloader::get_cached_path`])?
    pub fn is_model_cached(
        models_dir: &str,
        category: &str,
        repo_id: &str,
        filename: &str,
        weight_exists: bool,
        entries: &Vec<String>,
    ) -> (r: bool)
        ensures
            r == (weight_exists || exists|i: int| 0 <= i < entries@.len() && #[trigger] weight_extension(entries@[i]@)),
    {
        let p = Self::get_cached_path(models_dir, category, repo_id, filename, weight_exists, entries);
        p.is_some()
    }

    /// Is an entry of a download's blob folder a leftover of an interrupted
    /// download (a `part` or `lock` file)?
    pub fn is_partial_download(name: &str) -> (r: bool)
        ensures
            r == (extension_of(name@) == Some("part"@) || extension_of(name@) == Some("lock"@)),
    {
        match find_last_dot_ext(name) {
            Some(x) => str_eq(x.as_str(), "part") || str_eq(x.as_str(), "lock"),
            None => false,
        }
    }
}

/// A file extension of model weights: `gguf` or `onnx`.
pub open spec fn weight_extension(name: Seq<char>) -> bool {
    extension_of(name) == Some("gguf"@) || extension_of(name) == Some("onnx"@)
}

} // verus!
