//! File-system paths held as text, joined with `/` as on Unix hosts.
use vstd::prelude::*;
use crate::text::{concat, ends_with, ends_with_seq, starts_with, starts_with_seq};

verus! {

/// `a` joined with `b` as `Path::join` does on Unix: an absolute `b`
/// replaces `a`; otherwise a `/` goes between them unless `a` is empty or
/// already ends with one.
pub open spec fn join_seq(a: Seq<char>, b: Seq<char>) -> Seq<char> {
    if starts_with_seq(b, "/"@) {
        b
    } else if a.len() == 0 || ends_with_seq(a, "/"@) {
        a + b
    } else {
        a + "/"@ + b
    }
}

/// Joins two paths; see [`join_seq`].
pub fn join(a: &str, b: &str) -> (r: String)
    ensures
        r@ == join_seq(a@, b@),
{
    if starts_with(b, "/") {
        String::from_str(b)
    } else if a.unicode_len() == 0 || ends_with(a, "/") {
        concat(a, b)
    } else {
        let t = concat(a, "/");
        concat(t.as_str(), b)
    }
}

/// Debug rendering of a path, as `{:?}` prints it.
pub uninterp spec fn path_debug(p: Seq<char>) -> Seq<char>;

/// Renders a path as `{:?}` does (`std::path::Path`'s `Debug`). Claimed:
/// the result is a function of the path text alone, named `path_debug`;
/// nothing more is stated of the quoting and escaping it applies.
#[verifier::external_body]
pub(crate) fn debug_path(p: &str) -> (r: String)
    ensures
        r@ == path_debug(p@),
{
    format!("{:?}", std::path::Path::new(p))
}

} // verus!
