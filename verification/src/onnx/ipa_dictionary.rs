//! The pronunciation lexicon of text-to-speech models: a text file of
//! `word<TAB>ipa` lines, and the binary file compiled from it (a 32-bit
//! entry count, then for each entry the word and its pronunciation, each a
//! 32-bit byte length and UTF-8 bytes, all little-endian).
use vstd::prelude::*;
use vstd::utf8::{decode_utf8, encode_utf8, encode_utf8_decode_utf8, encode_utf8_valid_utf8, valid_utf8};
use crate::bytes::{has_bytes, le_u32, read_u32};
use crate::keyed::{keyed_insert, keyed_view, lemma_insert_mapped, table};
use crate::text::{
    join_parts, join_strings, lowercase_seq, split_char, split_seq, split_whitespace, to_lowercase, trim, trim_seq,
    utf8_text, views, words_seq,
};

verus! {

/// The line of a lexicon file as an entry, if it is one: after trimming, a
/// blank line or a `#` comment is none; otherwise the word (lowercased) and
/// its pronunciation are the first two tab-separated fields, or, without a
/// tab, the first word and the remaining words joined by single spaces.
pub open spec fn lexicon_line(line: Seq<char>) -> Option<(Seq<char>, Seq<char>)> {
    let l = trim_seq(line);
    if l.len() == 0 || l[0] == '#' {
        None
    } else if split_seq(l, '\t').len() >= 2 {
        Some((lowercase_seq(split_seq(l, '\t')[0]), split_seq(l, '\t')[1]))
    } else if words_seq(l).len() >= 2 {
        Some((lowercase_seq(words_seq(l)[0]), join_parts(words_seq(l).skip(1), " "@)))
    } else {
        None
    }
}

/// A line as read when falling back to the text file: like `lexicon_line`,
/// but fields are always split at white space.
pub open spec fn fallback_line(line: Seq<char>) -> Option<(Seq<char>, Seq<char>)> {
    let l = trim_seq(line);
    if l.len() == 0 || l[0] == '#' {
        None
    } else if words_seq(l).len() >= 2 {
        Some((lowercase_seq(words_seq(l)[0]), join_parts(words_seq(l).skip(1), " "@)))
    } else {
        None
    }
}

/// The entries of `lines`, in order, each line read with `tabs` choosing
/// `lexicon_line` or `fallback_line`.
pub open spec fn entries_of(lines: Seq<Seq<char>>, tabs: bool) -> Seq<(Seq<char>, Seq<char>)>
    decreases lines.len(),
{
    if lines.len() == 0 {
        Seq::empty()
    } else {
        let e = entries_of(lines.drop_last(), tabs);
        match if tabs { lexicon_line(lines.last()) } else { fallback_line(lines.last()) } {
            Some(x) => e.push(x),
            None => e,
        }
    }
}

/// The entries of a lexicon text, in order. Lines are cut at `\n`; a
/// carriage return before it is white space and trimmed away.
pub open spec fn lexicon_text(content: Seq<char>, tabs: bool) -> Seq<(Seq<char>, Seq<char>)> {
    entries_of(split_seq(content, '\n'), tabs)
}

/// The entries as data.
pub open spec fn pairs_view(v: Seq<(String, String)>) -> Seq<(Seq<char>, Seq<char>)> {
    v.map_values(|e: (String, String)| (e.0@, e.1@))
}

fn read_line(line: &str, tabs: bool) -> (r: Option<(String, String)>)
    ensures
        match r {
            Some(e) => (if tabs { lexicon_line(line@) } else { fallback_line(line@) }) == Some((e.0@, e.1@)),
            None => (if tabs { lexicon_line(line@) } else { fallback_line(line@) }) is None,
        },
{
    let l = trim(line);
    if l.unicode_len() == 0 || l.get_char(0) == '#' {
        return None;
    }
    if tabs {
        let fields = split_char(l, '\t');
        if fields.len() >= 2 {
            assert(split_seq(l@, '\t')[0] == fields@[0]@);
            assert(split_seq(l@, '\t')[1] == fields@[1]@);
            return Some((to_lowercase(fields[0].as_str()), fields[1].clone()));
        }
    }
    let words = split_whitespace(l);
    if words.len() >= 2 {
        assert(words_seq(l@)[0] == words@[0]@);
        let mut rest: Vec<String> = Vec::new();
        let mut i: usize = 1;
        while i < words.len()
            invariant
                1 <= i <= words@.len(),
                views(rest@) == views(words@).subrange(1, i as int),
            decreases words@.len() - i,
        {
            let ghost rv = views(rest@);
            let w = words[i].clone();
            assert(w@ == views(words@)[i as int]);
            rest.push(w);
            assert(views(rest@) =~= rv.push(w@));
            assert(views(rest@) =~= views(words@).subrange(1, i as int + 1));
            i = i + 1;
        }
        assert(views(words@).subrange(1, words@.len() as int) =~= words_seq(l@).skip(1));
        return Some((to_lowercase(words[0].as_str()), join_strings(&rest, " ")));
    }
    None
}

/// The entries of a lexicon text, in order, with tab-separated fields
/// (`tabs`) or white-space separated ones only.
pub fn parse_lexicon_text(content: &str, tabs: bool) -> (r: Vec<(String, String)>)
    ensures
        pairs_view(r@) == lexicon_text(content@, tabs),
{
    let lines = split_char(content, '\n');
    let ghost ls = split_seq(content@, '\n');
    let mut out: Vec<(String, String)> = Vec::new();
    let mut i: usize = 0;
    while i < lines.len()
        invariant
            ls == split_seq(content@, '\n'),
            views(lines@) == ls,
            i <= lines@.len(),
            pairs_view(out@) == entries_of(ls.take(i as int), tabs),
        decreases lines@.len() - i,
    {
        assert(ls.take(i as int + 1).drop_last() =~= ls.take(i as int));
        assert(ls[i as int] == lines@[i as int]@);
        match read_line(lines[i].as_str(), tabs) {
            Some(e) => {
                let ghost ov = pairs_view(out@);
                let ghost ev = (e.0@, e.1@);
                out.push(e);
                assert(pairs_view(out@) =~= ov.push(ev));
            },
            None => {},
        }
        i = i + 1;
    }
    assert(ls.take(ls.len() as int) =~= ls);
    out
}

/// The little-endian bytes of `n`.
pub open spec fn le32_bytes(n: u32) -> Seq<u8> {
    seq![(n % 256) as u8, ((n / 256) % 256) as u8, ((n / 65536) % 256) as u8, (n / 16777216) as u8]
}

/// A text as stored in the binary lexicon: its byte length, then its UTF-8
/// bytes.
#[verifier::opaque]
pub open spec fn field_bytes(t: Seq<char>) -> Seq<u8> {
    le32_bytes(encode_utf8(t).len() as u32) + encode_utf8(t)
}

/// The stored entries, word then pronunciation, one after another.
pub open spec fn entries_bytes(e: Seq<(Seq<char>, Seq<char>)>) -> Seq<u8>
    decreases e.len(),
{
    if e.len() == 0 {
        Seq::empty()
    } else {
        entries_bytes(e.drop_last()) + field_bytes(e.last().0) + field_bytes(e.last().1)
    }
}

/// The binary lexicon of entries `e`: the entry count, then the entries.
pub open spec fn lexicon_bin(e: Seq<(Seq<char>, Seq<char>)>) -> Seq<u8> {
    le32_bytes(e.len() as u32) + entries_bytes(e)
}

fn push_u32(out: &mut Vec<u8>, n: u32)
    ensures
        final(out)@ == old(out)@ + le32_bytes(n),
{
    out.push((n % 256) as u8);
    out.push(((n / 256) % 256) as u8);
    out.push(((n / 65536) % 256) as u8);
    out.push((n / 16777216) as u8);
    assert(out@ =~= old(out)@ + le32_bytes(n));
}

fn push_field(out: &mut Vec<u8>, t: &str)
    ensures
        final(out)@ == old(out)@ + field_bytes(t@),
{
    reveal(field_bytes);
    let b = t.as_bytes();
    assert(b@ == encode_utf8(t@));
    push_u32(out, b.len() as u32);
    let ghost start = out@;
    let mut i: usize = 0;
    while i < b.len()
        invariant
            i <= b@.len(),
            out@ == start + b@.take(i as int),
        decreases b@.len() - i,
    {
        out.push(b[i]);
        assert(out@ =~= start + b@.take(i as int + 1));
        i = i + 1;
    }
    assert(b@.take(b@.len() as int) =~= b@);
    assert(out@ =~= old(out)@ + field_bytes(t@));
}

/// Compiles entries into the binary lexicon. Counts and lengths are stored
/// in 32 bits.
pub fn encode_lexicon(entries: &Vec<(String, String)>) -> (r: Vec<u8>)
    ensures
        r@ == lexicon_bin(pairs_view(entries@)),
{
    let mut out: Vec<u8> = Vec::new();
    push_u32(&mut out, entries.len() as u32);
    let ghost head = out@;
    let ghost ev = pairs_view(entries@);
    let mut i: usize = 0;
    while i < entries.len()
        invariant
            i <= entries@.len(),
            ev == pairs_view(entries@),
            out@ == head + entries_bytes(ev.take(i as int)),
        decreases entries@.len() - i,
    {
        assert(ev.take(i as int + 1).drop_last() =~= ev.take(i as int));
        push_field(&mut out, entries[i].0.as_str());
        push_field(&mut out, entries[i].1.as_str());
        assert(out@ =~= head + entries_bytes(ev.take(i as int + 1)));
        i = i + 1;
    }
    assert(ev.take(ev.len() as int) =~= ev);
    assert(ev.len() == entries@.len());
    out
}

/// Why a binary lexicon could not be read.
#[derive(Debug, Clone, Copy, PartialEq, Eq, Structural)]
pub enum LexiconError {
    /// Fewer than four bytes: not even an entry count.
    TooShort,
    /// A word or pronunciation that is not UTF-8.
    InvalidUtf8,
}

/// A stored text read at a position.
pub ghost enum FieldRead {
    /// The text and the position after it.
    Text(Seq<char>, int),
    /// The bytes end before the text does.
    End,
    /// The bytes are not UTF-8.
    Invalid,
}

/// The stored text at `p`.
#[verifier::opaque]
pub open spec fn field_at(s: Seq<u8>, p: int) -> FieldRead {
    if !has_bytes(s, p, 4) || !has_bytes(s, p + 4, le_u32(s, p)) {
        FieldRead::End
    } else if valid_utf8(s.subrange(p + 4, p + 4 + le_u32(s, p))) {
        FieldRead::Text(decode_utf8(s.subrange(p + 4, p + 4 + le_u32(s, p))), p + 4 + le_u32(s, p))
    } else {
        FieldRead::Invalid
    }
}

/// The entries stored from `p` for a count of `n`: reading stops, keeping
/// what was read, where the bytes end; a text that is not UTF-8 makes the
/// whole lexicon unreadable (none).
pub open spec fn bin_entries(s: Seq<u8>, p: int, n: nat) -> Option<Seq<(Seq<char>, Seq<char>)>>
    decreases n,
{
    if n == 0 {
        Some(Seq::empty())
    } else {
        match field_at(s, p) {
            FieldRead::End => Some(Seq::empty()),
            FieldRead::Invalid => None,
            FieldRead::Text(w, q) => match field_at(s, q) {
                FieldRead::End => Some(Seq::empty()),
                FieldRead::Invalid => None,
                FieldRead::Text(ipa, e) => match bin_entries(s, e, (n - 1) as nat) {
                    Some(rest) => Some(seq![(w, ipa)] + rest),
                    None => None,
                },
            },
        }
    }
}

/// The entries of a binary lexicon.
pub open spec fn read_lexicon_bin(s: Seq<u8>) -> Result<Seq<(Seq<char>, Seq<char>)>, LexiconError> {
    if s.len() < 4 {
        Err(LexiconError::TooShort)
    } else {
        match bin_entries(s, 4, le_u32(s, 0) as nat) {
            Some(e) => Ok(e),
            None => Err(LexiconError::InvalidUtf8),
        }
    }
}

/// The lexicon as a table from word to pronunciation.
pub open spec fn lexicon_table(v: Seq<(String, String)>) -> Map<Seq<char>, Seq<char>> {
    keyed_view(v).map_values(|x: String| x@)
}

enum Field {
    Text(String, usize),
    End,
    Invalid,
}

fn read_field(b: &[u8], p: usize) -> (r: Field)
    ensures
        match r {
            Field::Text(t, e) => field_at(b@, p as int) == FieldRead::Text(t@, e as int),
            Field::End => field_at(b@, p as int) == FieldRead::End,
            Field::Invalid => field_at(b@, p as int) == FieldRead::Invalid,
        },
{
    reveal(field_at);
    assert(b@.len() == b.len());
    let n = match read_u32(b, p) {
        Some(n) => n,
        None => return Field::End,
    };
    let start = p + 4;
    if (b.len() - start) < n as usize {
        return Field::End;
    }
    let end = start + n as usize;
    match utf8_text(&b[start..end]) {
        Some(t) => Field::Text(t, end),
        None => Field::Invalid,
    }
}

/// Reads a binary lexicon into a table from word to pronunciation, a later
/// entry for a word replacing an earlier one.
pub fn decode_lexicon(b: &[u8]) -> (r: Result<Vec<(String, String)>, LexiconError>)
    ensures
        match r {
            Ok(v) => read_lexicon_bin(b@) matches Ok(e) && lexicon_table(v@) == table(e),
            Err(err) => read_lexicon_bin(b@) == Err::<Seq<(Seq<char>, Seq<char>)>, LexiconError>(err),
        },
{
    assert(b@.len() == b.len());
    if b.len() < 4 {
        return Err(LexiconError::TooShort);
    }
    let count = read_u32(b, 0).unwrap();
    let ghost total = bin_entries(b@, 4, count as nat);
    let mut dict: Vec<(String, String)> = Vec::new();
    let ghost mut done: Seq<(Seq<char>, Seq<char>)> = Seq::empty();
    let mut pos: usize = 4;
    let mut i: u32 = 0;
    proof {
        assert(lexicon_table(dict@) =~= table(done));
    }
    while i < count
        invariant_except_break
            i <= count,
            total == match bin_entries(b@, pos as int, (count - i) as nat) {
                Some(rest) => Some(done + rest),
                None => None,
            },
        invariant
            total == bin_entries(b@, 4, count as nat),
            count == le_u32(b@, 0),
            b@.len() >= 4,
            lexicon_table(dict@) == table(done),
        ensures
            total == Some(done),
        decreases count - i,
    {
        let ghost m = (count - i) as nat;
        match read_field(b, pos) {
            Field::Text(word, q) => match read_field(b, q) {
                Field::Text(ipa, e) => {
                    let ghost kv = (word@, ipa@);
                    let ghost old_d = dict@;
                    proof {
                        match bin_entries(b@, e as int, (m - 1) as nat) {
                            Some(rest) => {
                                assert(done + (seq![kv] + rest) =~= done.push(kv) + rest);
                            },
                            None => {},
                        }
                        assert(done.push(kv).drop_last() =~= done);
                    }
                    keyed_insert(&mut dict, word, ipa);
                    proof {
                        lemma_insert_mapped(old_d, dict@, kv.0, ipa, |x: String| x@);
                        done = done.push(kv);
                    }
                    pos = e;
                },
                Field::End => {
                    assert(done + Seq::<(Seq<char>, Seq<char>)>::empty() =~= done);
                    break;
                },
                Field::Invalid => {
                    return Err(LexiconError::InvalidUtf8);
                },
            },
            Field::End => {
                assert(done + Seq::<(Seq<char>, Seq<char>)>::empty() =~= done);
                break;
            },
            Field::Invalid => {
                return Err(LexiconError::InvalidUtf8);
            },
        }
        i = i + 1;
    }
    proof {
        if i >= count {
            assert(done + Seq::<(Seq<char>, Seq<char>)>::empty() =~= done);
        }
    }
    Ok(dict)
}

proof fn lemma_le32(n: u32)
    ensures
        ((n % 256) as u8) + 256 * (((n / 256) % 256) as u8 + 256 * (((n / 65536) % 256) as u8 + 256 * ((n
            / 16777216) as u8))) == n,
{
    assert(((n % 256) as u8) + 256 * (((n / 256) % 256) as u8 + 256 * (((n / 65536) % 256) as u8 + 256 * ((n
        / 16777216) as u8))) == n) by (bit_vector);
}

/// A stored text reads back as itself.
proof fn lemma_field_read(s: Seq<u8>, p: int, t: Seq<char>)
    requires
        0 <= p,
        p + field_bytes(t).len() <= s.len(),
        s.subrange(p, p + field_bytes(t).len()) == field_bytes(t),
        encode_utf8(t).len() < 0x1_0000_0000,
    ensures
        field_at(s, p) == FieldRead::Text(t, p + field_bytes(t).len()),
{
    reveal(field_bytes);
    reveal(field_at);
    let b = encode_utf8(t);
    let n = b.len() as u32;
    let fb = field_bytes(t);
    assert(fb.len() == 4 + b.len());
    assert forall|j: int| 0 <= j < fb.len() implies s[p + j] == fb[j] by {
        assert(s.subrange(p, p + fb.len())[j] == s[p + j]);
    }
    assert(s[p] == fb[0] && s[p + 1] == fb[1] && s[p + 2] == fb[2] && s[p + 3] == fb[3]);
    lemma_le32(n);
    assert(le_u32(s, p) == n);
    assert(s.subrange(p + 4, p + 4 + n) =~= b) by {
        assert forall|j: int| 0 <= j < b.len() implies s.subrange(p + 4, p + 4 + n)[j] == b[j] by {
            assert(fb[4 + j] == b[j]);
            assert(s[p + 4 + j] == fb[4 + j]);
        }
    }
    encode_utf8_valid_utf8(t);
    encode_utf8_decode_utf8(t);
}

/// The entries stored before the `k`-th start the stored entries.
proof fn lemma_entries_prefix(e: Seq<(Seq<char>, Seq<char>)>, k: int)
    requires
        0 <= k <= e.len(),
    ensures
        entries_bytes(e.take(k)).len() <= entries_bytes(e).len(),
        entries_bytes(e).subrange(0, entries_bytes(e.take(k)).len() as int) == entries_bytes(e.take(k)),
    decreases e.len(),
{
    if k == e.len() {
        assert(e.take(k) =~= e);
        assert(entries_bytes(e).subrange(0, entries_bytes(e).len() as int) =~= entries_bytes(e));
    } else {
        let d = e.drop_last();
        assert(e.take(k) =~= d.take(k));
        lemma_entries_prefix(d, k);
        let pre = entries_bytes(e.take(k));
        assert(entries_bytes(e) == entries_bytes(d) + field_bytes(e.last().0) + field_bytes(e.last().1));
        assert(entries_bytes(e).subrange(0, pre.len() as int) =~= entries_bytes(d).subrange(0, pre.len() as int));
    }
}

/// Every word and pronunciation, and the entry count, fit in 32 bits.
pub open spec fn fits_lexicon(e: Seq<(Seq<char>, Seq<char>)>) -> bool {
    &&& e.len() < 0x1_0000_0000
    &&& forall|i: int|
        0 <= i < e.len() ==> encode_utf8(#[trigger] e[i].0).len() < 0x1_0000_0000 && encode_utf8(e[i].1).len()
            < 0x1_0000_0000
}

/// A window of a window of `s` is a window of `s`.
proof fn lemma_window(s: Seq<u8>, base: int, t: Seq<u8>, off: int, piece: Seq<u8>)
    requires
        0 <= base,
        base + t.len() <= s.len(),
        s.subrange(base, base + t.len()) == t,
        0 <= off,
        off + piece.len() <= t.len(),
        t.subrange(off, off + piece.len()) == piece,
    ensures
        s.subrange(base + off, base + off + piece.len()) == piece,
{
    assert forall|j: int| 0 <= j < piece.len() implies s.subrange(base + off, base + off + piece.len())[j]
        == piece[j] by {
        assert(s.subrange(base, base + t.len())[off + j] == s[base + off + j]);
        assert(t.subrange(off, off + piece.len())[j] == t[off + j]);
    }
    assert(s.subrange(base + off, base + off + piece.len()) =~= piece);
}

/// One entry read, then the rest.
proof fn lemma_bin_step(s: Seq<u8>, p: int, q: int, e: int, n: nat, w: Seq<char>, ipa: Seq<char>, rest: Seq<(Seq<char>, Seq<char>)>)
    requires
        n > 0,
        field_at(s, p) == FieldRead::Text(w, q),
        field_at(s, q) == FieldRead::Text(ipa, e),
        bin_entries(s, e, (n - 1) as nat) == Some(rest),
    ensures
        bin_entries(s, p, n) == Some(seq![(w, ipa)] + rest),
{
}

/// Where the `k`-th entry sits in a compiled lexicon.
proof fn lemma_entry_layout(e: Seq<(Seq<char>, Seq<char>)>, k: int)
    requires
        0 <= k < e.len(),
    ensures
        ({
            let s = lexicon_bin(e);
            let p: int = 4 + entries_bytes(e.take(k)).len() as int;
            let q: int = p + field_bytes(e[k].0).len() as int;
            &&& s.subrange(p, p + field_bytes(e[k].0).len() as int) == field_bytes(e[k].0)
            &&& s.subrange(q, q + field_bytes(e[k].1).len() as int) == field_bytes(e[k].1)
            &&& 4 + entries_bytes(e.take(k + 1)).len() == q + field_bytes(e[k].1).len()
            &&& q + field_bytes(e[k].1).len() <= s.len()
        }),
{
    let s = lexicon_bin(e);
    let pre = entries_bytes(e.take(k));
    let f0 = field_bytes(e[k].0);
    let f1 = field_bytes(e[k].1);
    assert(e.take(k + 1).drop_last() =~= e.take(k));
    let t = entries_bytes(e.take(k + 1));
    assert(t == pre + f0 + f1);
    let all = entries_bytes(e);
    lemma_entries_prefix(e, k + 1);
    assert(s.len() == 4 + all.len());
    assert(s.subrange(4, 4 + t.len() as int) == t) by {
        assert(s.subrange(4, 4 + all.len() as int) =~= all);
        lemma_window(s, 4, all, 0, t);
    }
    assert(t.subrange(pre.len() as int, (pre.len() + f0.len()) as int) =~= f0);
    lemma_window(s, 4, t, pre.len() as int, f0);
    assert(t.subrange((pre.len() + f0.len()) as int, (pre.len() + f0.len() + f1.len()) as int) =~= f1);
    lemma_window(s, 4, t, (pre.len() + f0.len()) as int, f1);
}

proof fn lemma_entries_read_from(e: Seq<(Seq<char>, Seq<char>)>, k: int)
    requires
        fits_lexicon(e),
        0 <= k <= e.len(),
    ensures
        bin_entries(lexicon_bin(e), 4 + entries_bytes(e.take(k)).len() as int, (e.len() - k) as nat) == Some(e.skip(k)),
    decreases e.len() - k,
{
    if k == e.len() {
        assert(e.skip(k) =~= Seq::<(Seq<char>, Seq<char>)>::empty());
    } else {
        let s = lexicon_bin(e);
        let p: int = 4 + entries_bytes(e.take(k)).len() as int;
        let q: int = p + field_bytes(e[k].0).len();
        let end: int = q + field_bytes(e[k].1).len();
        lemma_entry_layout(e, k);
        assert(encode_utf8(e[k].0).len() < 0x1_0000_0000 && encode_utf8(e[k].1).len() < 0x1_0000_0000);
        lemma_field_read(s, p, e[k].0);
        lemma_field_read(s, q, e[k].1);
        lemma_entries_read_from(e, k + 1);
        lemma_bin_step(s, p, q, end, (e.len() - k) as nat, e[k].0, e[k].1, e.skip(k + 1));
        assert(e.skip(k) =~= seq![(e[k].0, e[k].1)] + e.skip(k + 1));
    }
}

/// A compiled lexicon reads back as the entries it was compiled from, in
/// order, when the entry count and every text length fit in 32 bits.
pub proof fn lemma_lexicon_round_trip(e: Seq<(Seq<char>, Seq<char>)>)
    requires
        fits_lexicon(e),
    ensures
        read_lexicon_bin(lexicon_bin(e)) == Ok::<Seq<(Seq<char>, Seq<char>)>, LexiconError>(e),
{
    let s = lexicon_bin(e);
    let n = e.len() as u32;
    lemma_le32(n);
    assert(s[0] == le32_bytes(n)[0] && s[1] == le32_bytes(n)[1] && s[2] == le32_bytes(n)[2] && s[3] == le32_bytes(n)[3]);
    assert(le_u32(s, 0) == e.len());
    assert(e.take(0) =~= Seq::<(Seq<char>, Seq<char>)>::empty());
    lemma_entries_read_from(e, 0);
    assert(e.skip(0) =~= e);
}

/// A lexicon compiled from a text lexicon loads back as the entries that
/// the text's lines give, in line order, when their count and every text
/// length fit in 32 bits.
pub proof fn lemma_compiled_text_reads_back(content: Seq<char>)
    requires
        fits_lexicon(lexicon_text(content, true)),
    ensures
        read_lexicon_bin(lexicon_bin(lexicon_text(content, true))) == Ok::<Seq<(Seq<char>, Seq<char>)>, LexiconError>(
            lexicon_text(content, true),
        ),
{
    lemma_lexicon_round_trip(lexicon_text(content, true));
}

/// The languages whose lexicon may serve `lang`: the language itself,
/// then, for a regional tag such as `hi-in`, its base language `hi`.
pub open spec fn lexicon_languages(lang: Seq<char>) -> Seq<Seq<char>> {
    if lang.contains('-') {
        seq![lang, split_seq(lang, '-')[0]]
    } else {
        seq![lang]
    }
}

/// The languages whose lexicon may serve `lang`, in the order to try them.
pub fn lexicon_candidates(lang: &str) -> (r: Vec<String>)
    ensures
        views(r@) == lexicon_languages(lang@),
{
    let mut r: Vec<String> = Vec::new();
    r.push(String::from_str(lang));
    let parts = split_char(lang, '-');
    if parts.len() >= 2 {
        let base = parts[0].clone();
        let ghost first = r@[0]@;
        r.push(base);
        proof {
            if !lang@.contains('-') {
                crate::text::lemma_split_absent(lang@, '-');
            }
            assert(views(r@) =~= seq![first, split_seq(lang@, '-')[0]]);
        }
    } else {
        proof {
            if lang@.contains('-') {
                let i = choose|i: int| 0 <= i < lang@.len() && lang@[i] == '-';
                crate::text::lemma_split_contains(lang@, '-');
            }
            assert(views(r@) =~= seq![lang@]);
        }
    }
    r
}

/// Where the published lexicon of a language is downloaded from.
pub fn lexicon_url(lang: &str) -> (r: String)
    ensures
        r@ == "https://raw.githubusercontent.com/cluaiz/cluaiz/main/assets/ipa_dictionary/"@ + lang@ + ".txt"@,
{
    let mut r = String::from_str("https://raw.githubusercontent.com/cluaiz/cluaiz/main/assets/ipa_dictionary/");
    r.append(lang);
    r.append(".txt");
    r
}

/// Must the binary lexicon be (re)compiled from the text one? When the
/// text exists and either the binary is missing or the text was modified
/// after it (`text_newer`, when both times could be read).
pub fn needs_compile(text_exists: bool, bin_exists: bool, text_newer: Option<bool>) -> (r: bool)
    ensures
        r == (text_exists && (!bin_exists || text_newer == Some(true))),
{
    if text_exists && bin_exists {
        match text_newer {
            Some(newer) => newer,
            None => false,
        }
    } else {
        text_exists && !bin_exists
    }
}

} // verus!
