//! Character-sequence helpers shared by the whole library.
use vstd::prelude::*;
use vstd::utf8::{encode_utf8, is_ascii_chars};

verus! {

/// `needle` occurs in `hay` starting at position `i`.
pub open spec fn occurs_at(hay: Seq<char>, needle: Seq<char>, i: int) -> bool {
    0 <= i && i + needle.len() <= hay.len() && hay.subrange(i, i + needle.len()) == needle
}

/// `needle` occurs somewhere in `hay`.
pub open spec fn contains_seq(hay: Seq<char>, needle: Seq<char>) -> bool {
    exists|i: int| occurs_at(hay, needle, i)
}

/// `p` is a prefix of `s`.
pub open spec fn starts_with_seq(s: Seq<char>, p: Seq<char>) -> bool {
    occurs_at(s, p, 0)
}

/// `p` is a suffix of `s`.
pub open spec fn ends_with_seq(s: Seq<char>, p: Seq<char>) -> bool {
    p.len() <= s.len() && occurs_at(s, p, s.len() - p.len())
}

/// Unicode `White_Space` property, the set that `str::trim` strips.
pub open spec fn is_ws(c: char) -> bool {
    ||| ('\u{9}' <= c && c <= '\u{d}')
    ||| c == ' '
    ||| c == '\u{85}'
    ||| c == '\u{a0}'
    ||| c == '\u{1680}'
    ||| ('\u{2000}' <= c && c <= '\u{200a}')
    ||| c == '\u{2028}'
    ||| c == '\u{2029}'
    ||| c == '\u{202f}'
    ||| c == '\u{205f}'
    ||| c == '\u{3000}'
}

/// `s` without its leading white space.
pub open spec fn trim_start_seq(s: Seq<char>) -> Seq<char>
    decreases s.len(),
{
    if s.len() > 0 && is_ws(s[0]) {
        trim_start_seq(s.subrange(1, s.len() as int))
    } else {
        s
    }
}

/// `s` without its trailing white space.
pub open spec fn trim_end_seq(s: Seq<char>) -> Seq<char>
    decreases s.len(),
{
    if s.len() > 0 && is_ws(s[s.len() - 1]) {
        trim_end_seq(s.subrange(0, s.len() - 1))
    } else {
        s
    }
}

/// `s` without leading and trailing white space.
pub open spec fn trim_seq(s: Seq<char>) -> Seq<char> {
    trim_end_seq(trim_start_seq(s))
}

/// ASCII lowercase of one character.
pub open spec fn ascii_lower_char(c: char) -> char {
    if 'A' <= c && c <= 'Z' {
        ((c as u32) + 32) as char
    } else {
        c
    }
}

/// ASCII uppercase of one character.
pub open spec fn ascii_upper_char(c: char) -> char {
    if 'a' <= c && c <= 'z' {
        ((c as u32) - 32) as char
    } else {
        c
    }
}

/// Unicode lowercase mapping of a string holding some non-ASCII character,
/// as computed by `str::to_lowercase`.
pub uninterp spec fn unicode_lowercase(s: Seq<char>) -> Seq<char>;

/// Unicode uppercase mapping of a string holding some non-ASCII character,
/// as computed by `str::to_uppercase`.
pub uninterp spec fn unicode_uppercase(s: Seq<char>) -> Seq<char>;

/// What `str::to_lowercase` yields: on an all-ASCII string exactly the
/// letters `A`..`Z` become `a`..`z`; other strings go by the Unicode tables.
pub open spec fn lowercase_seq(s: Seq<char>) -> Seq<char> {
    if is_ascii_chars(s) {
        s.map_values(|c: char| ascii_lower_char(c))
    } else {
        unicode_lowercase(s)
    }
}

/// What `str::to_uppercase` yields: on an all-ASCII string exactly the
/// letters `a`..`z` become `A`..`Z`; other strings go by the Unicode tables.
pub open spec fn uppercase_seq(s: Seq<char>) -> Seq<char> {
    if is_ascii_chars(s) {
        s.map_values(|c: char| ascii_upper_char(c))
    } else {
        unicode_uppercase(s)
    }
}

/// Calls `str::to_lowercase`. Claimed: on an all-ASCII string the result
/// maps exactly `A`..`Z` to `a`..`z` and keeps every other character;
/// otherwise it is the (named, unstated) Unicode lowercase mapping of `s`.
#[verifier::external_body]
pub(crate) fn to_lowercase(s: &str) -> (r: String)
    ensures
        is_ascii_chars(s@) ==> r@ == s@.map_values(|c: char| ascii_lower_char(c)),
        !is_ascii_chars(s@) ==> r@ == unicode_lowercase(s@),
{
    s.to_lowercase()
}

/// Calls `str::to_uppercase`. Claimed: on an all-ASCII string the result
/// maps exactly `a`..`z` to `A`..`Z` and keeps every other character;
/// otherwise it is the (named, unstated) Unicode uppercase mapping of `s`.
#[verifier::external_body]
pub(crate) fn to_uppercase(s: &str) -> (r: String)
    ensures
        is_ascii_chars(s@) ==> r@ == s@.map_values(|c: char| ascii_upper_char(c)),
        !is_ascii_chars(s@) ==> r@ == unicode_uppercase(s@),
{
    s.to_uppercase()
}

/// Character-wise equality of two strings.
pub fn str_eq(a: &str, b: &str) -> (r: bool)
    ensures
        r == (a@ == b@),
{
    let n = a.unicode_len();
    let m = b.unicode_len();
    if n != m {
        return false;
    }
    let mut i: usize = 0;
    while i < n
        invariant
            n == a@.len(),
            m == b@.len(),
            n == m,
            i <= n,
            forall|j: int| 0 <= j < i ==> a@[j] == b@[j],
        decreases n - i,
    {
        if a.get_char(i) != b.get_char(i) {
            return false;
        }
        i = i + 1;
    }
    assert(a@ =~= b@);
    true
}

/// Does `needle` occur in `hay` at position `i`?
pub fn matches_at(hay: &str, needle: &str, i: usize) -> (r: bool)
    ensures
        r == occurs_at(hay@, needle@, i as int),
{
    let n = hay.unicode_len();
    let m = needle.unicode_len();
    if i > n || m > n - i {
        return false;
    }
    let mut k: usize = 0;
    while k < m
        invariant
            n == hay@.len(),
            m == needle@.len(),
            i + m <= n,
            k <= m,
            forall|j: int| 0 <= j < k ==> hay@[i + j] == needle@[j],
        decreases m - k,
    {
        if hay.get_char(i + k) != needle.get_char(k) {
            assert(hay@.subrange(i as int, i + m)[k as int] != needle@[k as int]);
            return false;
        }
        k = k + 1;
    }
    assert(hay@.subrange(i as int, i + m) =~= needle@);
    true
}

/// First position at or after `start` where `needle` occurs in `hay`.
pub fn find_from(hay: &str, needle: &str, start: usize) -> (r: Option<usize>)
    ensures
        match r {
            Some(i) => start <= i && occurs_at(hay@, needle@, i as int) && forall|j: int|
                start <= j < i ==> !occurs_at(hay@, needle@, j),
            None => forall|j: int| start <= j ==> !occurs_at(hay@, needle@, j),
        },
{
    let n = hay.unicode_len();
    let m = needle.unicode_len();
    if m > n {
        return None;
    }
    let mut i: usize = start;
    while i <= n - m
        invariant
            n == hay@.len(),
            m == needle@.len(),
            m <= n,
            start <= i,
            forall|j: int| start <= j < i ==> !occurs_at(hay@, needle@, j),
        decreases n - m + 1 - i,
    {
        if matches_at(hay, needle, i) {
            return Some(i);
        }
        if i == n - m {
            return None;
        }
        i = i + 1;
    }
    None
}

/// Does `hay` contain `needle`?
pub fn contains(hay: &str, needle: &str) -> (r: bool)
    ensures
        r == contains_seq(hay@, needle@),
{
    match find_from(hay, needle, 0) {
        Some(i) => true,
        None => {
            assert forall|j: int| !occurs_at(hay@, needle@, j) by {
                if j >= 0 {
                }
            }
            false
        },
    }
}

/// Does `s` start with `p`?
pub fn starts_with(s: &str, p: &str) -> (r: bool)
    ensures
        r == starts_with_seq(s@, p@),
{
    matches_at(s, p, 0)
}

/// Does `s` end with `p`?
pub fn ends_with(s: &str, p: &str) -> (r: bool)
    ensures
        r == ends_with_seq(s@, p@),
{
    let n = s.unicode_len();
    let m = p.unicode_len();
    if m > n {
        return false;
    }
    matches_at(s, p, n - m)
}

/// Is `c` a white-space character in the sense of `char::is_whitespace`?
pub fn char_is_ws(c: char) -> (r: bool)
    ensures
        r == is_ws(c),
{
    ('\u{9}' <= c && c <= '\u{d}') || c == ' ' || c == '\u{85}' || c == '\u{a0}' || c
        == '\u{1680}' || ('\u{2000}' <= c && c <= '\u{200a}') || c == '\u{2028}' || c
        == '\u{2029}' || c == '\u{202f}' || c == '\u{205f}' || c == '\u{3000}'
}

/// `s` with leading and trailing white space removed, as `str::trim` does.
pub fn trim<'a>(s: &'a str) -> (r: &'a str)
    ensures
        r@ == trim_seq(s@),
{
    let n = s.unicode_len();
    let mut i: usize = 0;
    assert(s@.subrange(0, n as int) =~= s@);
    while i < n && char_is_ws(s.get_char(i))
        invariant
            n == s@.len(),
            i <= n,
            trim_start_seq(s@) == trim_start_seq(s@.subrange(i as int, n as int)),
        decreases n - i,
    {
        proof {
            let t = s@.subrange(i as int, n as int);
            assert(t.subrange(1, t.len() as int) =~= s@.subrange(i + 1, n as int));
        }
        i = i + 1;
    }
    proof {
        assert(trim_start_seq(s@) == s@.subrange(i as int, n as int));
    }
    let mut j: usize = n;
    while j > i && char_is_ws(s.get_char(j - 1))
        invariant
            n == s@.len(),
            i <= j <= n,
            trim_seq(s@) == trim_end_seq(s@.subrange(i as int, j as int)),
        decreases j,
    {
        proof {
            let t = s@.subrange(i as int, j as int);
            assert(t.subrange(0, t.len() - 1) =~= s@.subrange(i as int, j - 1));
        }
        j = j - 1;
    }
    s.substring_char(i, j)
}

/// Number of bytes in the UTF-8 encoding of `s`.
pub fn byte_len(s: &str) -> (r: usize)
    ensures
        r as int == encode_utf8(s@).len(),
{
    s.as_bytes().len()
}

/// A new `String` holding the characters of `a` followed by those of `b`.
pub fn concat(a: &str, b: &str) -> (r: String)
    ensures
        r@ == a@ + b@,
{
    let mut r = String::from_str(a);
    r.append(b);
    r
}


/// The decimal digit character for `d` in `0..10`.
pub open spec fn digit_char(d: int) -> char {
    (('0' as int) + d) as char
}

/// Decimal notation of `n`, without sign or leading zeros.
pub open spec fn decimal_seq(n: nat) -> Seq<char>
    decreases n,
{
    if n < 10 {
        seq![digit_char(n as int)]
    } else {
        decimal_seq(n / 10) + seq![digit_char((n % 10) as int)]
    }
}

/// Is `c` one of `0`..`9`?
pub open spec fn is_digit(c: char) -> bool {
    '0' <= c && c <= '9'
}

/// Value of a run of decimal digits.
pub open spec fn digits_value(s: Seq<char>) -> int
    decreases s.len(),
{
    if s.len() == 0 {
        0
    } else {
        digits_value(s.drop_last()) * 10 + ((s.last() as int) - ('0' as int))
    }
}

/// The characters of `s` after an optional leading `+`.
pub open spec fn unsigned_body(s: Seq<char>) -> Seq<char> {
    if s.len() > 0 && s[0] == '+' {
        s.drop_first()
    } else {
        s
    }
}

/// What `str::parse::<usize>` yields: an optional `+`, then at least one
/// decimal digit and nothing else, with a value that fits in `usize`.
pub open spec fn parse_usize_seq(s: Seq<char>) -> Option<int> {
    let b = unsigned_body(s);
    if b.len() > 0 && (forall|i: int| 0 <= i < b.len() ==> is_digit(#[trigger] b[i])) && digits_value(b)
        <= usize::MAX {
        Some(digits_value(b))
    } else {
        None
    }
}

/// Pieces of `s` between occurrences of `c`, as `str::split(c)` yields them.
pub open spec fn split_seq(s: Seq<char>, c: char) -> Seq<Seq<char>>
    decreases s.len(),
{
    if s.len() == 0 {
        seq![Seq::empty()]
    } else {
        let parts = split_seq(s.drop_last(), c);
        if s.last() == c {
            parts.push(Seq::empty())
        } else {
            parts.update(parts.len() - 1, parts.last().push(s.last()))
        }
    }
}

/// `split_seq` always yields at least one piece.
pub proof fn lemma_split_nonempty(s: Seq<char>, c: char)
    ensures
        split_seq(s, c).len() >= 1,
    decreases s.len(),
{
    if s.len() > 0 {
        lemma_split_nonempty(s.drop_last(), c);
    }
}

/// Views of a vector of strings.
pub open spec fn views(v: Seq<String>) -> Seq<Seq<char>> {
    v.map_values(|x: String| x@)
}

/// The one-character string holding decimal digit `d`.
pub fn digit_str(d: u64) -> (r: &'static str)
    requires
        d < 10,
    ensures
        r@ == seq![digit_char(d as int)],
{
    if d == 0 {
        proof { reveal_strlit("0"); }
        "0"
    } else if d == 1 {
        proof { reveal_strlit("1"); }
        "1"
    } else if d == 2 {
        proof { reveal_strlit("2"); }
        "2"
    } else if d == 3 {
        proof { reveal_strlit("3"); }
        "3"
    } else if d == 4 {
        proof { reveal_strlit("4"); }
        "4"
    } else if d == 5 {
        proof { reveal_strlit("5"); }
        "5"
    } else if d == 6 {
        proof { reveal_strlit("6"); }
        "6"
    } else if d == 7 {
        proof { reveal_strlit("7"); }
        "7"
    } else if d == 8 {
        proof { reveal_strlit("8"); }
        "8"
    } else {
        proof { reveal_strlit("9"); }
        "9"
    }
}

/// Decimal rendering of `n`, as `n.to_string()` gives it.
pub fn u64_to_decimal(n: u64) -> (r: String)
    ensures
        r@ == decimal_seq(n as nat),
    decreases n,
{
    if n < 10 {
        String::from_str(digit_str(n))
    } else {
        let mut r = u64_to_decimal(n / 10);
        r.append(digit_str(n % 10));
        r
    }
}

/// Parses `s` as `str::parse::<usize>` does.
pub fn parse_usize(s: &str) -> (r: Option<usize>)
    ensures
        match r {
            Some(v) => parse_usize_seq(s@) == Some(v as int),
            None => parse_usize_seq(s@) is None,
        },
{
    let n = s.unicode_len();
    let mut start: usize = 0;
    if n > 0 && s.get_char(0) == '+' {
        start = 1;
    }
    let ghost b = unsigned_body(s@);
    assert(b =~= s@.subrange(start as int, n as int));
    if start >= n {
        assert(b.len() == 0);
        assert(parse_usize_seq(s@) is None);
        return None;
    }
    let mut acc: usize = 0;
    let mut over = false;
    let mut i: usize = start;
    assert(b.subrange(0, 0) =~= Seq::<char>::empty());
    while i < n
        invariant
            n == s@.len(),
            start <= i <= n,
            b == s@.subrange(start as int, n as int),
            b == unsigned_body(s@),
            forall|k: int| 0 <= k < i - start ==> is_digit(#[trigger] b[k]),
            over ==> digits_value(b.subrange(0, i - start)) > usize::MAX,
            !over ==> digits_value(b.subrange(0, i - start)) == acc,
            digits_value(b.subrange(0, i - start)) >= 0,
        decreases n - i,
    {
        let c = s.get_char(i);
        if !('0' <= c && c <= '9') {
            assert(!is_digit(b[i - start]));
            return None;
        }
        let d = (c as u32 - '0' as u32) as usize;
        let ghost prev = digits_value(b.subrange(0, i - start));
        proof {
            assert(b.subrange(0, i + 1 - start).drop_last() =~= b.subrange(0, i - start));
            assert(b.subrange(0, i + 1 - start).last() == c);
        }
        let ghost next = digits_value(b.subrange(0, i + 1 - start));
        assert(next == prev * 10 + d);
        if !over {
            if acc > (usize::MAX - d) / 10 {
                over = true;
                assert(prev * 10 + d > usize::MAX) by (nonlinear_arith)
                    requires
                        prev == acc,
                        acc > (usize::MAX - d) / 10,
                        0 <= d < 10,
                ;
            } else {
                assert(acc * 10 + d <= usize::MAX) by (nonlinear_arith)
                    requires
                        acc <= (usize::MAX - d) / 10,
                        0 <= d < 10,
                ;
                acc = acc * 10 + d;
            }
        } else {
            assert(prev * 10 + d > usize::MAX) by (nonlinear_arith)
                requires
                    prev > usize::MAX,
                    0 <= d,
            ;
        }
        i = i + 1;
    }
    assert(b.subrange(0, n - start) =~= b);
    if over {
        None
    } else {
        Some(acc)
    }
}

/// Splits `s` at every occurrence of `c`, as `str::split(c)` does.
pub fn split_char(s: &str, c: char) -> (r: Vec<String>)
    ensures
        views(r@) == split_seq(s@, c),
{
    let n = s.unicode_len();
    let mut parts: Vec<String> = Vec::new();
    let mut cur = String::new();
    let mut i: usize = 0;
    assert(s@.subrange(0, 0) =~= Seq::<char>::empty());
    assert(views(parts@).push(cur@) =~= seq![Seq::<char>::empty()]);
    while i < n
        invariant
            n == s@.len(),
            i <= n,
            split_seq(s@.subrange(0, i as int), c) == views(parts@).push(cur@),
        decreases n - i,
    {
        let ghost old_parts = views(parts@);
        let ghost old_cur = cur@;
        let x = s.get_char(i);
        proof {
            let t = s@.subrange(0, i + 1);
            assert(t.drop_last() =~= s@.subrange(0, i as int));
            assert(t.last() == x);
        }
        if x == c {
            parts.push(cur);
            cur = String::new();
            assert(views(parts@) =~= old_parts.push(old_cur));
            assert(views(parts@).push(cur@) =~= old_parts.push(old_cur).push(Seq::empty()));
        } else {
            let piece = s.substring_char(i, i + 1);
            cur.append(piece);
            assert(piece@ =~= seq![x]);
            assert(cur@ =~= old_cur.push(x));
            assert(views(parts@).push(cur@) =~= old_parts.push(old_cur).update(
                old_parts.len() as int,
                old_cur.push(x),
            ));
        }
        i = i + 1;
    }
    assert(s@.subrange(0, n as int) =~= s@);
    parts.push(cur);
    assert(views(parts@) =~= split_seq(s@, c));
    parts
}

/// `s` with every `from` replaced by the single character of `to`.
pub fn replace_char(s: &str, from: char, to: &str) -> (r: String)
    requires
        to@.len() == 1,
    ensures
        r@ == s@.map_values(|x: char| if x == from { to@[0] } else { x }),
{
    let n = s.unicode_len();
    let mut r = String::new();
    let mut i: usize = 0;
    while i < n
        invariant
            n == s@.len(),
            i <= n,
            to@.len() == 1,
            r@ == s@.subrange(0, i as int).map_values(|x: char| if x == from { to@[0] } else { x }),
        decreases n - i,
    {
        let x = s.get_char(i);
        let ghost old_r = r@;
        if x == from {
            r.append(to);
        } else {
            r.append(s.substring_char(i, i + 1));
        }
        assert(r@ =~= s@.subrange(0, i + 1).map_values(
            |x: char| if x == from { to@[0] } else { x },
        ));
        i = i + 1;
    }
    assert(s@.subrange(0, n as int) =~= s@);
    r
}


/// A copy of a vector of strings.
pub fn clone_strings(v: &Vec<String>) -> (r: Vec<String>)
    ensures
        views(r@) == views(v@),
{
    let mut r: Vec<String> = Vec::new();
    let mut i: usize = 0;
    while i < v.len()
        invariant
            i <= v@.len(),
            views(r@) == views(v@.subrange(0, i as int)),
        decreases v@.len() - i,
    {
        let ghost old_r = r@;
        let c = v[i].clone();
        assert(c@ == v@[i as int]@);
        r.push(c);
        assert(r@ == old_r.push(c));
        assert(views(v@.subrange(0, i + 1)) =~= views(v@.subrange(0, i as int)).push(v@[i as int]@));
        assert(views(r@) =~= views(old_r).push(c@));
        i = i + 1;
    }
    assert(v@.subrange(0, v@.len() as int) =~= v@);
    r
}

/// A copy of an optional string.
pub fn clone_opt_string(v: &Option<String>) -> (r: Option<String>)
    ensures
        r == *v,
{
    match v {
        Some(s) => Some(s.clone()),
        None => None,
    }
}

/// Views of an optional string.
pub open spec fn opt_view(v: Option<String>) -> Option<Seq<char>> {
    match v {
        Some(s) => Some(s@),
        None => None,
    }
}

/// Views of a sequence of string slices.
pub open spec fn str_views(v: Seq<&str>) -> Seq<Seq<char>> {
    v.map_values(|p: &str| p@)
}

/// Index of the first pattern of `pats` that occurs in `hay`.
pub open spec fn first_hit(hay: Seq<char>, pats: Seq<Seq<char>>) -> Option<int>
    decreases pats.len(),
{
    if pats.len() == 0 {
        None
    } else if contains_seq(hay, pats[0]) {
        Some(0)
    } else {
        match first_hit(hay, pats.drop_first()) {
            Some(i) => Some(i + 1),
            None => None,
        }
    }
}

/// `first_hit` finds the first pattern that occurs, and only when one does.
pub proof fn lemma_first_hit(hay: Seq<char>, pats: Seq<Seq<char>>)
    ensures
        match first_hit(hay, pats) {
            Some(i) => 0 <= i < pats.len() && contains_seq(hay, pats[i]) && forall|j: int|
                0 <= j < i ==> !contains_seq(hay, #[trigger] pats[j]),
            None => forall|j: int| 0 <= j < pats.len() ==> !contains_seq(hay, #[trigger] pats[j]),
        },
    decreases pats.len(),
{
    if pats.len() > 0 {
        let rest = pats.drop_first();
        lemma_first_hit(hay, rest);
        if !contains_seq(hay, pats[0]) {
            assert forall|j: int| 1 <= j < pats.len() implies #[trigger] pats[j] == rest[j - 1] by {}
            match first_hit(hay, rest) {
                Some(i) => {
                    assert forall|j: int| 0 <= j < i + 1 implies !contains_seq(hay, #[trigger] pats[j]) by {
                        if j > 0 {
                            assert(pats[j] == rest[j - 1]);
                        }
                    }
                },
                None => {
                    assert forall|j: int| 0 <= j < pats.len() implies !contains_seq(hay, #[trigger] pats[j]) by {
                        if j > 0 {
                            assert(pats[j] == rest[j - 1]);
                        }
                    }
                },
            }
        }
    }
}

/// Position of the first pattern of `pats` that occurs in `hay`.
pub fn first_contained(hay: &str, pats: &Vec<&str>) -> (r: Option<usize>)
    ensures
        match r {
            Some(i) => i < pats@.len() && first_hit(hay@, str_views(pats@)) == Some(i as int),
            None => first_hit(hay@, str_views(pats@)) == None::<int>,
        },
{
    let ghost pv = str_views(pats@);
    proof {
        lemma_first_hit(hay@, pv);
    }
    let mut i: usize = 0;
    while i < pats.len()
        invariant
            i <= pats@.len(),
            pv == str_views(pats@),
            forall|j: int| 0 <= j < i ==> !contains_seq(hay@, #[trigger] pv[j]),
            match first_hit(hay@, pv) {
                Some(k) => 0 <= k < pv.len() && contains_seq(hay@, pv[k]) && forall|j: int|
                    0 <= j < k ==> !contains_seq(hay@, #[trigger] pv[j]),
                None => forall|j: int| 0 <= j < pv.len() ==> !contains_seq(hay@, #[trigger] pv[j]),
            },
        decreases pats@.len() - i,
    {
        if contains(hay, pats[i]) {
            proof {
                assert(pv[i as int] == pats@[i as int]@);
                match first_hit(hay@, pv) {
                    Some(k) => {
                        if k > i {
                            assert(!contains_seq(hay@, pv[i as int]));
                        }
                    },
                    None => {
                        assert(!contains_seq(hay@, pv[i as int]));
                    },
                }
            }
            return Some(i);
        }
        assert(pv[i as int] == pats@[i as int]@);
        i = i + 1;
    }
    proof {
        match first_hit(hay@, pv) {
            Some(k) => {
                assert(!contains_seq(hay@, pv[k]));
            },
            None => {},
        }
    }
    None
}

/// Does `s` start with one of `prefixes`?
pub fn starts_with_any(s: &str, prefixes: &Vec<&str>) -> (r: bool)
    ensures
        r == exists|i: int| 0 <= i < prefixes@.len() && starts_with_seq(s@, #[trigger] prefixes@[i]@),
{
    let mut i: usize = 0;
    while i < prefixes.len()
        invariant
            i <= prefixes@.len(),
            forall|j: int| 0 <= j < i ==> !starts_with_seq(s@, #[trigger] prefixes@[j]@),
        decreases prefixes@.len() - i,
    {
        if starts_with(s, prefixes[i]) {
            return true;
        }
        i = i + 1;
    }
    false
}

/// Index of the first element of `v` that satisfies `p`.
pub open spec fn first_where(v: Seq<Seq<char>>, p: spec_fn(Seq<char>) -> bool) -> Option<int>
    decreases v.len(),
{
    if v.len() == 0 {
        None
    } else if p(v[0]) {
        Some(0)
    } else {
        match first_where(v.drop_first(), p) {
            Some(i) => Some(i + 1),
            None => None,
        }
    }
}

/// `first_where` finds the first element that satisfies the predicate, and
/// only when one does.
pub proof fn lemma_first_where(v: Seq<Seq<char>>, p: spec_fn(Seq<char>) -> bool)
    ensures
        match first_where(v, p) {
            Some(i) => 0 <= i < v.len() && p(v[i]) && forall|j: int| 0 <= j < i ==> !p(#[trigger] v[j]),
            None => forall|j: int| 0 <= j < v.len() ==> !p(#[trigger] v[j]),
        },
    decreases v.len(),
{
    if v.len() > 0 {
        let rest = v.drop_first();
        lemma_first_where(rest, p);
        if !p(v[0]) {
            assert forall|j: int| 1 <= j < v.len() implies #[trigger] v[j] == rest[j - 1] by {}
            match first_where(rest, p) {
                Some(i) => {
                    assert forall|j: int| 0 <= j < i + 1 implies !p(#[trigger] v[j]) by {
                        if j > 0 {
                            assert(v[j] == rest[j - 1]);
                        }
                    }
                },
                None => {
                    assert forall|j: int| 0 <= j < v.len() implies !p(#[trigger] v[j]) by {
                        if j > 0 {
                            assert(v[j] == rest[j - 1]);
                        }
                    }
                },
            }
        }
    }
}

/// `first_where` is determined by a first satisfying index.
pub proof fn lemma_first_where_is(v: Seq<Seq<char>>, p: spec_fn(Seq<char>) -> bool, i: int)
    requires
        0 <= i < v.len(),
        p(v[i]),
        forall|j: int| 0 <= j < i ==> !p(#[trigger] v[j]),
    ensures
        first_where(v, p) == Some(i),
{
    lemma_first_where(v, p);
    match first_where(v, p) {
        Some(k) => {
            if k < i {
                assert(!p(v[k]));
            } else if k > i {
                assert(!p(v[i]));
            }
        },
        None => {
            assert(!p(v[i]));
        },
    }
}

/// `first_where` is `None` when nothing satisfies the predicate.
pub proof fn lemma_first_where_none(v: Seq<Seq<char>>, p: spec_fn(Seq<char>) -> bool)
    requires
        forall|j: int| 0 <= j < v.len() ==> !p(#[trigger] v[j]),
    ensures
        first_where(v, p) is None,
{
    lemma_first_where(v, p);
    match first_where(v, p) {
        Some(k) => {
            assert(!p(v[k]));
        },
        None => {},
    }
}

/// `a` and `b` are equal when ASCII letters are compared without case.
pub open spec fn eq_ignore_ascii_case_seq(a: Seq<char>, b: Seq<char>) -> bool {
    a.len() == b.len() && forall|i: int| 0 <= i < a.len() ==> ascii_lower_char(#[trigger] a[i]) == ascii_lower_char(b[i])
}

/// ASCII lowercase of one character.
pub fn ascii_lower(c: char) -> (r: char)
    ensures
        r == ascii_lower_char(c),
{
    if 'A' <= c && c <= 'Z' {
        let b: u8 = (c as u8) + 32;
        b as char
    } else {
        c
    }
}

/// Compares two strings without regard to ASCII case, as
/// `str::eq_ignore_ascii_case` does.
pub fn eq_ignore_ascii_case(a: &str, b: &str) -> (r: bool)
    ensures
        r == eq_ignore_ascii_case_seq(a@, b@),
{
    let n = a.unicode_len();
    if n != b.unicode_len() {
        return false;
    }
    let mut i: usize = 0;
    while i < n
        invariant
            n == a@.len(),
            n == b@.len(),
            i <= n,
            forall|j: int| 0 <= j < i ==> ascii_lower_char(#[trigger] a@[j]) == ascii_lower_char(b@[j]),
        decreases n - i,
    {
        if ascii_lower(a.get_char(i)) != ascii_lower(b.get_char(i)) {
            return false;
        }
        i = i + 1;
    }
    true
}

/// Position `j` is the first occurrence of `needle` in `hay` at or after `start`.
pub open spec fn is_first_occ(hay: Seq<char>, needle: Seq<char>, start: int, j: int) -> bool {
    start <= j && occurs_at(hay, needle, j) && forall|k: int| start <= k < j ==> !occurs_at(hay, needle, k)
}

/// The first occurrence of `needle` in `hay` at or after `start`.
pub open spec fn first_occ(hay: Seq<char>, needle: Seq<char>, start: int) -> Option<int> {
    if exists|j: int| is_first_occ(hay, needle, start, j) {
        Some(choose|j: int| is_first_occ(hay, needle, start, j))
    } else {
        None
    }
}

/// Position of the first occurrence of `needle` at or after `start`.
pub fn find_first(hay: &str, needle: &str, start: usize) -> (r: Option<usize>)
    ensures
        match r {
            Some(i) => first_occ(hay@, needle@, start as int) == Some(i as int) && i + needle@.len()
                <= hay@.len(),
            None => first_occ(hay@, needle@, start as int) is None,
        },
{
    match find_from(hay, needle, start) {
        Some(i) => {
            proof {
                assert(is_first_occ(hay@, needle@, start as int, i as int));
                let c = choose|j: int| is_first_occ(hay@, needle@, start as int, j);
                if c < i {
                    assert(!occurs_at(hay@, needle@, c));
                } else if c > i {
                    assert(!occurs_at(hay@, needle@, i as int));
                }
            }
            Some(i)
        },
        None => None,
    }
}

/// `s` with every occurrence of `pat` (a non-empty pattern) replaced by
/// `with`, scanning from the left as `str::replace` does.
pub open spec fn replace_seq(s: Seq<char>, pat: Seq<char>, with: Seq<char>) -> Seq<char>
    decreases s.len(),
{
    if s.len() == 0 || pat.len() == 0 {
        s
    } else if starts_with_seq(s, pat) {
        with + replace_seq(s.subrange(pat.len() as int, s.len() as int), pat, with)
    } else {
        seq![s[0]] + replace_seq(s.drop_first(), pat, with)
    }
}

/// `s` with every occurrence of the non-empty `pat` replaced by `with`.
pub fn replace_all(s: &str, pat: &str, with: &str) -> (r: String)
    requires
        pat@.len() > 0,
    ensures
        r@ == replace_seq(s@, pat@, with@),
{
    let n = s.unicode_len();
    let m = pat.unicode_len();
    let mut r = String::new();
    let mut i: usize = 0;
    assert(s@.subrange(0, n as int) =~= s@);
    assert(r@ + replace_seq(s@, pat@, with@) =~= replace_seq(s@, pat@, with@));
    while i < n
        invariant
            n == s@.len(),
            m == pat@.len(),
            m > 0,
            i <= n,
            r@ + replace_seq(s@.subrange(i as int, n as int), pat@, with@) == replace_seq(s@, pat@, with@),
        decreases n - i,
    {
        let ghost rest = s@.subrange(i as int, n as int);
        if matches_at(s, pat, i) {
            proof {
                assert(rest.subrange(0, m as int) =~= s@.subrange(i as int, i + m));
                assert(rest.subrange(m as int, rest.len() as int) =~= s@.subrange(i + m, n as int));
            }
            let ghost before = r@;
            r.append(with);
            assert(r@ + replace_seq(s@.subrange(i + m, n as int), pat@, with@) =~= before + replace_seq(
                rest,
                pat@,
                with@,
            ));
            i = i + m;
        } else {
            proof {
                if rest.len() >= m {
                    assert(rest.subrange(0, m as int) =~= s@.subrange(i as int, i + m));
                }
                assert(rest.drop_first() =~= s@.subrange(i + 1, n as int));
                assert(rest[0] == s@[i as int]);
            }
            let ghost before = r@;
            r.append(s.substring_char(i, i + 1));
            assert(r@ + replace_seq(s@.subrange(i + 1, n as int), pat@, with@) =~= before + replace_seq(
                rest,
                pat@,
                with@,
            ));
            i = i + 1;
        }
    }
    assert(replace_seq(s@.subrange(n as int, n as int), pat@, with@) =~= Seq::<char>::empty());
    assert(r@ + Seq::<char>::empty() =~= r@);
    r
}

/// Does `v` hold the text `s`?
pub fn contains_str(v: &Vec<String>, s: &str) -> (r: bool)
    ensures
        r == views(v@).contains(s@),
{
    let mut i: usize = 0;
    while i < v.len()
        invariant
            i <= v@.len(),
            forall|j: int| 0 <= j < i ==> v@[j]@ != s@,
        decreases v@.len() - i,
    {
        if str_eq(v[i].as_str(), s) {
            assert(views(v@)[i as int] == s@);
            return true;
        }
        i = i + 1;
    }
    proof {
        if views(v@).contains(s@) {
            let j = choose|j: int| 0 <= j < views(v@).len() && views(v@)[j] == s@;
            assert(v@[j]@ == s@);
        }
    }
    false
}

/// Do two lists of strings hold the same texts?
pub fn strings_eq(a: &Vec<String>, b: &Vec<String>) -> (r: bool)
    ensures
        r == (views(a@) == views(b@)),
{
    if a.len() != b.len() {
        assert(views(a@).len() != views(b@).len());
        return false;
    }
    let mut i: usize = 0;
    while i < a.len()
        invariant
            i <= a@.len(),
            a@.len() == b@.len(),
            forall|j: int| 0 <= j < i ==> a@[j]@ == b@[j]@,
        decreases a@.len() - i,
    {
        if !str_eq(a[i].as_str(), b[i].as_str()) {
            assert(views(a@)[i as int] != views(b@)[i as int]);
            return false;
        }
        i = i + 1;
    }
    assert(views(a@) =~= views(b@));
    true
}

/// Do two optional strings hold the same text?
pub fn opt_str_eq(a: &Option<String>, b: &Option<String>) -> (r: bool)
    ensures
        r == (opt_view(*a) == opt_view(*b)),
{
    match (a, b) {
        (Some(x), Some(y)) => str_eq(x.as_str(), y.as_str()),
        (None, None) => true,
        _ => false,
    }
}

/// The parts joined with `sep` between them, as `[String]::join` does.
pub open spec fn join_parts(parts: Seq<Seq<char>>, sep: Seq<char>) -> Seq<char>
    decreases parts.len(),
{
    if parts.len() == 0 {
        Seq::empty()
    } else if parts.len() == 1 {
        parts[0]
    } else {
        join_parts(parts.drop_last(), sep) + sep + parts.last()
    }
}

/// Joins strings with a separator.
pub fn join_strings(parts: &Vec<String>, sep: &str) -> (r: String)
    ensures
        r@ == join_parts(views(parts@), sep@),
{
    let mut r = String::new();
    let mut i: usize = 0;
    while i < parts.len()
        invariant
            i <= parts@.len(),
            r@ == join_parts(views(parts@).subrange(0, i as int), sep@),
        decreases parts@.len() - i,
    {
        proof {
            assert(views(parts@).subrange(0, i + 1).drop_last() =~= views(parts@).subrange(0, i as int));
            assert(views(parts@).subrange(0, i + 1).last() == parts@[i as int]@);
        }
        if i > 0 {
            r.append(sep);
        }
        r.append(parts[i].as_str());
        proof {
            if i == 0 {
                assert(views(parts@).subrange(0, 1)[0] == parts@[0]@);
                assert(r@ =~= parts@[0]@);
            }
        }
        i = i + 1;
    }
    assert(views(parts@).subrange(0, parts@.len() as int) =~= views(parts@));
    r
}

/// Splitting at a character that occurs gives at least two pieces.
pub proof fn lemma_split_contains(s: Seq<char>, c: char)
    requires
        exists|i: int| 0 <= i < s.len() && s[i] == c,
    ensures
        split_seq(s, c).len() >= 2,
    decreases s.len(),
{
    if s.last() == c {
        lemma_split_nonempty(s.drop_last(), c);
    } else {
        let i = choose|i: int| 0 <= i < s.len() && s[i] == c;
        assert(s.drop_last()[i] == c);
        lemma_split_contains(s.drop_last(), c);
    }
}

/// Debug rendering of a list of strings, as `{:?}` prints it.
pub uninterp spec fn strings_debug(v: Seq<Seq<char>>) -> Seq<char>;

/// Renders a list of strings as `{:?}` does (`Vec<String>`'s `Debug`).
/// Claimed: the result is a function of the texts alone, named
/// `strings_debug`; nothing more is stated of its quoting.
#[verifier::external_body]
pub(crate) fn debug_strings(v: &Vec<String>) -> (r: String)
    ensures
        r@ == strings_debug(views(v@)),
{
    format!("{:?}", v)
}

/// Does `hay` contain one of `pats`?
pub fn contains_any(hay: &str, pats: &Vec<&str>) -> (r: bool)
    ensures
        r == exists|i: int| 0 <= i < pats@.len() && contains_seq(hay@, #[trigger] pats@[i]@),
{
    let mut i: usize = 0;
    while i < pats.len()
        invariant
            i <= pats@.len(),
            forall|j: int| 0 <= j < i ==> !contains_seq(hay@, #[trigger] pats@[j]@),
        decreases pats@.len() - i,
    {
        if contains(hay, pats[i]) {
            return true;
        }
        i = i + 1;
    }
    false
}

/// The white-space separated words of `s`, as `str::split_whitespace`
/// yields them.
pub open spec fn words_seq(s: Seq<char>) -> Seq<Seq<char>>
    decreases s.len(),
{
    if s.len() == 0 {
        Seq::empty()
    } else {
        let w = words_seq(s.drop_last());
        let c = s.last();
        if is_ws(c) {
            w
        } else if s.len() >= 2 && !is_ws(s[s.len() - 2]) {
            w.update(w.len() - 1, w.last().push(c))
        } else {
            w.push(seq![c])
        }
    }
}

/// The words of `prefix` split so far: the finished ones, then the one
/// being read, if any.
pub open spec fn words_so_far(done: Seq<Seq<char>>, cur: Seq<char>) -> Seq<Seq<char>> {
    if cur.len() > 0 {
        done.push(cur)
    } else {
        done
    }
}

/// Splits `s` at white space, dropping empty pieces.
pub fn split_whitespace(s: &str) -> (r: Vec<String>)
    ensures
        views(r@) == words_seq(s@),
{
    let n = s.unicode_len();
    let mut done: Vec<String> = Vec::new();
    let mut cur = String::new();
    let mut i: usize = 0;
    while i < n
        invariant
            n == s@.len(),
            i <= n,
            words_seq(s@.take(i as int)) == words_so_far(views(done@), cur@),
            cur@.len() > 0 <==> (i > 0 && !is_ws(s@[i - 1])),
        decreases n - i,
    {
        let c = s.get_char(i);
        let ghost t = s@.take(i as int + 1);
        assert(t.drop_last() =~= s@.take(i as int));
        assert(t.last() == c);
        if char_is_ws(c) {
            if cur.unicode_len() > 0 {
                let ghost dv = views(done@);
                let word = cur;
                cur = String::new();
                let ghost wv = word@;
                done.push(word);
                assert(views(done@) =~= dv.push(wv));
            }
        } else {
            let ghost dv = views(done@);
            let ghost cv = cur@;
            if cur.unicode_len() > 0 {
                assert(t[t.len() - 2] == s@[i - 1]);
            }
            let piece = s.substring_char(i, i + 1);
            cur.append(piece);
            assert(piece@ =~= seq![c]);
            assert(cur@ =~= cv.push(c));
            assert(words_seq(t) =~= words_so_far(dv, cur@));
        }
        i = i + 1;
    }
    assert(s@.take(n as int) =~= s@);
    if cur.unicode_len() > 0 {
        let ghost dv = views(done@);
        let ghost cv = cur@;
        done.push(cur);
        assert(views(done@) =~= dv.push(cv));
    }
    done
}

/// Decodes UTF-8 bytes (`std::str::from_utf8`). Claimed, as the standard
/// library documents: the bytes decode exactly when they are valid UTF-8,
/// to the characters they encode.
#[verifier::external_body]
pub(crate) fn utf8_text(b: &[u8]) -> (r: Option<String>)
    ensures
        r is Some <==> vstd::utf8::valid_utf8(b@),
        r matches Some(t) ==> t@ == vstd::utf8::decode_utf8(b@),
{
    match std::str::from_utf8(b) {
        Ok(t) => Some(t.to_string()),
        Err(_) => None,
    }
}

/// Without `c`, splitting at `c` yields the whole string.
pub proof fn lemma_split_absent(s: Seq<char>, c: char)
    requires
        !s.contains(c),
    ensures
        split_seq(s, c) == seq![s],
    decreases s.len(),
{
    if s.len() == 0 {
        assert(s =~= Seq::<char>::empty());
        assert(split_seq(s, c) =~= seq![s]);
    } else {
        assert(!s.drop_last().contains(c)) by {
            if s.drop_last().contains(c) {
                let i = choose|i: int| 0 <= i < s.drop_last().len() && s.drop_last()[i] == c;
                assert(s[i] == c);
            }
        }
        lemma_split_absent(s.drop_last(), c);
        assert(s.last() != c) by {
            assert(s[s.len() - 1] == s.last());
        }
        assert(s.drop_last().push(s.last()) =~= s);
        assert(split_seq(s, c) =~= seq![s]);
    }
}

} // verus!
