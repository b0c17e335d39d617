//! GGUF headers: the metadata table and the tensor index at the start of a
//! model file, read from its bytes.
//!
//! A GGUF file starts with the magic `GGUF`, a 32-bit version, the 64-bit
//! tensor count and the 64-bit metadata count, all little-endian. Each
//! metadata entry is a string key, a 32-bit value type and the value; each
//! tensor entry is a string name, a 32-bit dimension count, that many 64-bit
//! dimensions, a 32-bit element type and a 64-bit data offset. A string is a
//! 64-bit byte length followed by the bytes.
use vstd::prelude::*;
use vstd::utf8::{decode_utf8, valid_utf8};
use crate::bytes::{has_bytes, le_u16, le_u32, le_u64, read_u16, read_u32, read_u64};
use crate::json::or_else;
use crate::keyed::{keyed_insert, keyed_view, lemma_insert_mapped, str_map, str_map_get, table};
use crate::text::{
    contains, contains_any, contains_seq, debug_strings, decimal_seq, ends_with, ends_with_seq, lowercase_seq,
    opt_view, str_eq, str_views, strings_debug, to_lowercase, u64_to_decimal, views,
};

verus! {

/// The text that `String::from_utf8_lossy` makes of `b`.
pub uninterp spec fn utf8_lossy(b: Seq<u8>) -> Seq<char>;

/// Decodes bytes as UTF-8, each invalid sequence replaced by U+FFFD
/// (`String::from_utf8_lossy`). Claimed: the result is a function of the
/// bytes, named `utf8_lossy`, and is their decoding when they are valid UTF-8,
/// as the standard library documents.
#[verifier::external_body]
fn lossy_text(b: &[u8]) -> (r: String)
    ensures
        r@ == utf8_lossy(b@),
        valid_utf8(b@) ==> r@ == decode_utf8(b@),
{
    String::from_utf8_lossy(b).into_owned()
}

/// The string at `p` and the position after it.
pub open spec fn string_at(s: Seq<u8>, p: int) -> Option<(Seq<char>, int)> {
    if has_bytes(s, p, 8) && has_bytes(s, p + 8, le_u64(s, p)) {
        let e = p + 8 + le_u64(s, p);
        Some((utf8_lossy(s.subrange(p + 8, e)), e))
    } else {
        None
    }
}

/// The position after the string at `p`, its bytes skipped.
pub open spec fn string_end(s: Seq<u8>, p: int) -> Option<int> {
    if has_bytes(s, p, 8) && has_bytes(s, p + 8, le_u64(s, p)) {
        Some(p + 8 + le_u64(s, p))
    } else {
        None
    }
}

/// Reads the string at `p`: its text, and the position after it.
pub fn read_string(b: &[u8], p: usize) -> (r: Option<(String, usize)>)
    ensures
        match r {
            Some((t, e)) => string_at(b@, p as int) == Some((t@, e as int)),
            None => string_at(b@, p as int) is None,
        },
{
    let n = match read_u64(b, p) {
        Some(n) => n,
        None => return None,
    };
    if p >= b.len() || b.len() - p < 8 {
        return None;
    }
    let start = p + 8;
    if (b.len() - start) as u64 <= n && (b.len() - start) as u64 != n {
        return None;
    }
    let end = start + n as usize;
    let t = lossy_text(&b[start..end]);
    Some((t, end))
}

fn skip_string(b: &[u8], p: usize) -> (r: Option<usize>)
    ensures
        match r {
            Some(e) => string_end(b@, p as int) == Some(e as int),
            None => string_end(b@, p as int) is None,
        },
{
    let n = match read_u64(b, p) {
        Some(n) => n,
        None => return None,
    };
    if p >= b.len() || b.len() - p < 8 {
        return None;
    }
    let start = p + 8;
    if (b.len() - start) as u64 <= n && (b.len() - start) as u64 != n {
        return None;
    }
    Some(start + n as usize)
}

/// Why a GGUF header could not be read.
#[derive(Debug, Clone, Copy, PartialEq, Eq, Structural)]
pub enum GgufError {
    /// The bytes ended before a value that had to be read.
    UnexpectedEof,
    /// The bytes do not start with the magic `GGUF`.
    NotGguf,
    /// A metadata value of a type the format does not define.
    UnknownValueType(u32),
    /// An array announcing more than a million items.
    ArrayTooLarge(u64),
    /// An array whose items are neither strings nor fixed-size scalars.
    UnsupportedArrayItem(u32),
}

impl GgufError {
    /// The error's message.
    pub fn message(&self) -> (r: String)
        ensures
            r@ == error_text(*self),
    {
        match self {
            GgufError::UnexpectedEof => String::from_str("failed to fill whole buffer"),
            GgufError::NotGguf => String::from_str("Not a valid GGUF binary"),
            GgufError::UnknownValueType(t) => {
                let mut r = String::from_str("Unknown GGUF value type: ");
                r.append(u64_to_decimal(*t as u64).as_str());
                r
            },
            GgufError::ArrayTooLarge(n) => {
                let mut r = String::from_str("Array length too large: ");
                r.append(u64_to_decimal(*n).as_str());
                r
            },
            GgufError::UnsupportedArrayItem(t) => {
                let mut r = String::from_str("Unsupported array item type: ");
                r.append(u64_to_decimal(*t as u64).as_str());
                r
            },
        }
    }
}

/// Decimal text of a non-negative number.
pub open spec fn dec(n: int) -> Seq<char> {
    decimal_seq(n as nat)
}

/// The message of each error.
pub open spec fn error_text(e: GgufError) -> Seq<char> {
    match e {
        GgufError::UnexpectedEof => "failed to fill whole buffer"@,
        GgufError::NotGguf => "Not a valid GGUF binary"@,
        GgufError::UnknownValueType(t) => "Unknown GGUF value type: "@ + dec(t as int),
        GgufError::ArrayTooLarge(n) => "Array length too large: "@ + dec(n as int),
        GgufError::UnsupportedArrayItem(t) => "Unsupported array item type: "@ + dec(t as int),
    }
}

/// A metadata value: its text, or the bits of a floating-point number,
/// whose rendering is left to the caller.
#[derive(Debug)]
pub enum GgufValue {
    Text(String),
    Float32(u32),
    Float64(u64),
}

/// A metadata value as mathematical data.
pub ghost enum ValueView {
    Text(Seq<char>),
    Float32(u32),
    Float64(u64),
}

impl View for GgufValue {
    type V = ValueView;

    open spec fn view(&self) -> ValueView {
        match self {
            GgufValue::Text(t) => ValueView::Text(t@),
            GgufValue::Float32(b) => ValueView::Float32(*b),
            GgufValue::Float64(b) => ValueView::Float64(*b),
        }
    }
}

/// The size in bytes of one array item of scalar type `t`; 0 for a type
/// that has no fixed size.
pub open spec fn item_width(t: int) -> int {
    if t == 0 || t == 1 || t == 7 {
        1
    } else if t == 2 || t == 3 {
        2
    } else if t == 4 || t == 5 || t == 6 {
        4
    } else if t == 10 || t == 11 || t == 12 {
        8
    } else {
        0
    }
}

/// `k` consecutive strings from `p`, and the position after them.
pub open spec fn strings_at(s: Seq<u8>, p: int, k: nat) -> Option<(Seq<Seq<char>>, int)>
    decreases k,
{
    if k == 0 {
        Some((Seq::empty(), p))
    } else {
        match string_at(s, p) {
            Some((t, q)) => match strings_at(s, q, (k - 1) as nat) {
                Some((rest, e)) => Some((seq![t] + rest, e)),
                None => None,
            },
            None => None,
        }
    }
}

/// The position after `m` consecutive strings from `p`, their bytes skipped.
pub open spec fn strings_end(s: Seq<u8>, p: int, m: nat) -> Option<int>
    decreases m,
{
    if m == 0 {
        Some(p)
    } else {
        match string_end(s, p) {
            Some(q) => strings_end(s, q, (m - 1) as nat),
            None => None,
        }
    }
}

/// The array value at `p` (item type, item count, items), summarised as
/// text, and the position after it. A string array shows its length and its
/// first ten strings; a scalar array shows its length and item type, and its
/// items are skipped, never past the end of the bytes.
pub open spec fn array_at(s: Seq<u8>, p: int) -> Result<(ValueView, int), GgufError> {
    if !has_bytes(s, p, 12) {
        Err(GgufError::UnexpectedEof)
    } else {
        let item = le_u32(s, p);
        let n = le_u64(s, p + 4);
        if n > 1_000_000 {
            Err(GgufError::ArrayTooLarge(n as u64))
        } else if item == 8 {
            let k = if n < 10 { n } else { 10 };
            match strings_at(s, p + 12, k as nat) {
                Some((firsts, q)) => match strings_end(s, q, (n - k) as nat) {
                    Some(e) => Ok((
                        ValueView::Text(
                            "[StringArray: len="@ + dec(n) + ", first_few="@ + strings_debug(firsts) + "]"@,
                        ),
                        e,
                    )),
                    None => Err(GgufError::UnexpectedEof),
                },
                None => Err(GgufError::UnexpectedEof),
            }
        } else if item_width(item) == 0 {
            Err(GgufError::UnsupportedArrayItem(item as u32))
        } else {
            let e = p + 12 + item_width(item) * n;
            Ok((
                ValueView::Text("[PrimitiveArray: len="@ + dec(n) + ", type="@ + dec(item) + "]"@),
                if e <= s.len() { e } else { s.len() as int },
            ))
        }
    }
}

/// The metadata value of type `t` at `p`, and the position after it.
/// Integers and booleans are given as decimal text and `true`/`false`
/// (signed types read as their unsigned bits); floats are given as bits.
pub open spec fn value_at(s: Seq<u8>, p: int, t: u32) -> Result<(ValueView, int), GgufError> {
    if t == 0 || t == 1 || t == 7 {
        if !has_bytes(s, p, 1) {
            Err(GgufError::UnexpectedEof)
        } else if t == 7 {
            Ok((ValueView::Text(if s[p] == 0 { "false"@ } else { "true"@ }), p + 1))
        } else {
            Ok((ValueView::Text(dec(s[p] as int)), p + 1))
        }
    } else if t == 2 || t == 3 {
        if !has_bytes(s, p, 2) {
            Err(GgufError::UnexpectedEof)
        } else {
            Ok((ValueView::Text(dec(le_u16(s, p))), p + 2))
        }
    } else if t == 4 || t == 5 || t == 6 {
        if !has_bytes(s, p, 4) {
            Err(GgufError::UnexpectedEof)
        } else if t == 6 {
            Ok((ValueView::Float32(le_u32(s, p) as u32), p + 4))
        } else {
            Ok((ValueView::Text(dec(le_u32(s, p))), p + 4))
        }
    } else if t == 10 || t == 11 || t == 12 {
        if !has_bytes(s, p, 8) {
            Err(GgufError::UnexpectedEof)
        } else if t == 12 {
            Ok((ValueView::Float64(le_u64(s, p) as u64), p + 8))
        } else {
            Ok((ValueView::Text(dec(le_u64(s, p))), p + 8))
        }
    } else if t == 8 {
        match string_at(s, p) {
            Some((x, e)) => Ok((ValueView::Text(x), e)),
            None => Err(GgufError::UnexpectedEof),
        }
    } else if t == 9 {
        array_at(s, p)
    } else {
        Err(GgufError::UnknownValueType(t))
    }
}

fn read_strings(b: &[u8], p: usize, k: u64) -> (r: Option<(Vec<String>, usize)>)
    ensures
        match r {
            Some((v, e)) => strings_at(b@, p as int, k as nat) == Some((views(v@), e as int)),
            None => strings_at(b@, p as int, k as nat) is None,
        },
{
    let mut v: Vec<String> = Vec::new();
    let mut q = p;
    let mut i: u64 = 0;
    while i < k
        invariant
            i <= k,
            strings_at(b@, p as int, k as nat) == match strings_at(b@, q as int, (k - i) as nat) {
                Some((rest, e)) => Some((views(v@) + rest, e)),
                None => None,
            },
        decreases k - i,
    {
        match read_string(b, q) {
            Some((t, e)) => {
                proof {
                    assert(views(v@.push(t)) =~= views(v@) + seq![t@]);
                    let ghost m = (k - i) as nat;
                    assert(strings_at(b@, q as int, m) == match strings_at(b@, e as int, (m - 1) as nat) {
                        Some((rest, e2)) => Some((seq![t@] + rest, e2)),
                        None => None,
                    });
                    match strings_at(b@, e as int, (m - 1) as nat) {
                        Some((rest, e2)) => {
                            assert(views(v@) + (seq![t@] + rest) =~= views(v@.push(t)) + rest);
                        },
                        None => {},
                    }
                }
                v.push(t);
                q = e;
            },
            None => return None,
        }
        i = i + 1;
    }
    proof {
        assert(views(v@) + Seq::<Seq<char>>::empty() =~= views(v@));
    }
    Some((v, q))
}

fn skip_strings(b: &[u8], p: usize, m: u64) -> (r: Option<usize>)
    ensures
        match r {
            Some(e) => strings_end(b@, p as int, m as nat) == Some(e as int),
            None => strings_end(b@, p as int, m as nat) is None,
        },
{
    let mut q = p;
    let mut i: u64 = 0;
    while i < m
        invariant
            i <= m,
            strings_end(b@, p as int, m as nat) == strings_end(b@, q as int, (m - i) as nat),
        decreases m - i,
    {
        match skip_string(b, q) {
            Some(e) => {
                q = e;
            },
            None => return None,
        }
        i = i + 1;
    }
    Some(q)
}

fn read_array(b: &[u8], p: usize) -> (r: Result<(GgufValue, usize), GgufError>)
    ensures
        match r {
            Ok((v, e)) => array_at(b@, p as int) == Ok::<(ValueView, int), GgufError>((v@, e as int)),
            Err(err) => array_at(b@, p as int) == Err::<(ValueView, int), GgufError>(err),
        },
{
    if p >= b.len() || b.len() - p < 12 {
        return Err(GgufError::UnexpectedEof);
    }
    let item = match read_u32(b, p) {
        Some(t) => t,
        None => return Err(GgufError::UnexpectedEof),
    };
    let n = match read_u64(b, p + 4) {
        Some(n) => n,
        None => return Err(GgufError::UnexpectedEof),
    };
    let q = p + 12;
    if n > 1_000_000 {
        return Err(GgufError::ArrayTooLarge(n));
    }
    let nd = u64_to_decimal(n);
    if item == 8 {
        let k: u64 = if n < 10 { n } else { 10 };
        let (firsts, q2) = match read_strings(b, q, k) {
            Some(x) => x,
            None => return Err(GgufError::UnexpectedEof),
        };
        let e = match skip_strings(b, q2, n - k) {
            Some(e) => e,
            None => return Err(GgufError::UnexpectedEof),
        };
        let fd = debug_strings(&firsts);
        let mut t = String::from_str("[StringArray: len=");
        t.append(nd.as_str());
        t.append(", first_few=");
        t.append(fd.as_str());
        t.append("]");
        return Ok((GgufValue::Text(t), e));
    }
    let w: u64 = if item == 0 || item == 1 || item == 7 {
        1
    } else if item == 2 || item == 3 {
        2
    } else if item == 4 || item == 5 || item == 6 {
        4
    } else if item == 10 || item == 11 || item == 12 {
        8
    } else {
        0
    };
    if w == 0 {
        return Err(GgufError::UnsupportedArrayItem(item));
    }
    assert(w * n <= 8_000_000) by (nonlinear_arith)
        requires
            w <= 8,
            n <= 1_000_000,
    ;
    let skip = w * n;
    let e = if skip <= (b.len() - q) as u64 { q + skip as usize } else { b.len() };
    let id = u64_to_decimal(item as u64);
    let mut t = String::from_str("[PrimitiveArray: len=");
    t.append(nd.as_str());
    t.append(", type=");
    t.append(id.as_str());
    t.append("]");
    Ok((GgufValue::Text(t), e))
}

/// Where a reader stands after the value at `p` failed to read with `e`:
/// at the end of the bytes if they ran out, else just after the part of the
/// value it had read.
pub open spec fn stop_after(s: Seq<u8>, p: int, e: GgufError) -> int {
    match e {
        GgufError::UnexpectedEof => s.len() as int,
        GgufError::ArrayTooLarge(_) => p + 12,
        GgufError::UnsupportedArrayItem(_) => p + 12,
        _ => p,
    }
}

/// The metadata entry at `p` (key, value type, value) and the position
/// after it; or, where it cannot be read, the position where reading stopped.
pub open spec fn entry_at(s: Seq<u8>, p: int) -> Result<((Seq<char>, ValueView), int), int> {
    match string_at(s, p) {
        None => Err(s.len() as int),
        Some((k, p1)) => if !has_bytes(s, p1, 4) {
            Err(s.len() as int)
        } else {
            match value_at(s, p1 + 4, le_u32(s, p1) as u32) {
                Ok((v, p2)) => Ok(((k, v), p2)),
                Err(e) => Err(stop_after(s, p1 + 4, e)),
            }
        },
    }
}

/// The metadata entries read from `p` for a count of `n`, reading stopping at
/// the first entry that cannot be read, and the position where reading ended.
pub open spec fn entries_from(s: Seq<u8>, p: int, n: nat) -> (Seq<(Seq<char>, ValueView)>, int)
    decreases n,
{
    if n == 0 {
        (Seq::empty(), p)
    } else {
        match entry_at(s, p) {
            Ok((kv, q)) => {
                let (rest, e) = entries_from(s, q, (n - 1) as nat);
                (seq![kv] + rest, e)
            },
            Err(e) => (Seq::empty(), e),
        }
    }
}

/// `n` consecutive 64-bit dimensions from `p`, and the position after them.
pub open spec fn dims_at(s: Seq<u8>, p: int, n: nat) -> Option<(Seq<usize>, int)>
    decreases n,
{
    if n == 0 {
        Some((Seq::empty(), p))
    } else if !has_bytes(s, p, 8) {
        None
    } else {
        match dims_at(s, p + 8, (n - 1) as nat) {
            Some((rest, e)) => Some((seq![le_u64(s, p) as usize] + rest, e)),
            None => None,
        }
    }
}

/// The tensor entry at `p` (name, dimension count, dimensions, element type,
/// data offset): its name and dimensions, and the position after it.
pub open spec fn tensor_at(s: Seq<u8>, p: int) -> Option<((Seq<char>, Seq<usize>), int)> {
    match string_at(s, p) {
        None => None,
        Some((name, p1)) => if !has_bytes(s, p1, 4) {
            None
        } else {
            match dims_at(s, p1 + 4, le_u32(s, p1) as nat) {
                Some((d, p2)) => if has_bytes(s, p2, 12) {
                    Some(((name, d), p2 + 12))
                } else {
                    None
                },
                None => None,
            }
        },
    }
}

/// The tensor entries read from `p` for a count of `n`, reading stopping at
/// the first entry that cannot be read.
pub open spec fn tensors_from(s: Seq<u8>, p: int, n: nat) -> Seq<(Seq<char>, Seq<usize>)>
    decreases n,
{
    if n == 0 {
        Seq::empty()
    } else {
        match tensor_at(s, p) {
            Some((t, q)) => seq![t] + tensors_from(s, q, (n - 1) as nat),
            None => Seq::empty(),
        }
    }
}

/// Why the fixed part of a header (magic, version, counts) cannot be read,
/// if it cannot.
pub open spec fn header_error(s: Seq<u8>) -> Option<GgufError> {
    if s.len() < 4 {
        Some(GgufError::UnexpectedEof)
    } else if !(s[0] == 71 && s[1] == 71 && s[2] == 85 && s[3] == 70) {
        Some(GgufError::NotGguf)
    } else if s.len() < 24 {
        Some(GgufError::UnexpectedEof)
    } else {
        None
    }
}

/// The tensor count that a header announces.
pub open spec fn tensor_count(s: Seq<u8>) -> int {
    le_u64(s, 8)
}

/// The metadata entries of a header, and where reading them ended.
pub open spec fn header_entries(s: Seq<u8>) -> (Seq<(Seq<char>, ValueView)>, int) {
    entries_from(s, 24, le_u64(s, 16) as nat)
}

/// The tensor entries of a header, read from where the metadata ended.
pub open spec fn header_tensors(s: Seq<u8>) -> Seq<(Seq<char>, Seq<usize>)> {
    tensors_from(s, header_entries(s).1, tensor_count(s) as nat)
}

/// The metadata of a header as a table from key to value.
pub open spec fn metadata_view(v: Seq<(String, GgufValue)>) -> Map<Seq<char>, ValueView> {
    keyed_view(v).map_values(|x: GgufValue| x@)
}

/// The tensor index of a header as a table from name to dimensions.
pub open spec fn tensors_view(v: Seq<(String, Vec<usize>)>) -> Map<Seq<char>, Seq<usize>> {
    keyed_view(v).map_values(|x: Vec<usize>| x@)
}

/// What a GGUF header holds.
#[derive(Debug)]
pub struct GgufHeader {
    /// Metadata, one entry per key.
    pub metadata: Vec<(String, GgufValue)>,
    /// Tensor dimensions by tensor name, one entry per name.
    pub tensor_infos: Vec<(String, Vec<usize>)>,
    /// The tensor count the header announces.
    pub tensor_count: usize,
}

/// Reads GGUF headers.
pub struct GgufProber;

impl GgufProber {
    /// Reads the metadata value of type `value_type` at `pos`: the value and
    /// the position after it.
    pub fn read_value(b: &[u8], pos: usize, value_type: u32) -> (r: Result<(GgufValue, usize), GgufError>)
        ensures
            match r {
                Ok((v, e)) => value_at(b@, pos as int, value_type) == Ok::<(ValueView, int), GgufError>(
                    (v@, e as int),
                ),
                Err(err) => value_at(b@, pos as int, value_type) == Err::<(ValueView, int), GgufError>(err),
            },
    {
        assert(b@.len() == b.len());
        let t = value_type;
        if t == 0 || t == 1 || t == 7 {
            if pos >= b.len() {
                return Err(GgufError::UnexpectedEof);
            }
            let x = b[pos];
            if t == 7 {
                let s = if x == 0 { String::from_str("false") } else { String::from_str("true") };
                Ok((GgufValue::Text(s), pos + 1))
            } else {
                Ok((GgufValue::Text(u64_to_decimal(x as u64)), pos + 1))
            }
        } else if t == 2 || t == 3 {
            match read_u16(b, pos) {
                Some(x) => Ok((GgufValue::Text(u64_to_decimal(x as u64)), pos + 2)),
                None => Err(GgufError::UnexpectedEof),
            }
        } else if t == 4 || t == 5 || t == 6 {
            match read_u32(b, pos) {
                Some(x) => if t == 6 {
                    Ok((GgufValue::Float32(x), pos + 4))
                } else {
                    Ok((GgufValue::Text(u64_to_decimal(x as u64)), pos + 4))
                },
                None => Err(GgufError::UnexpectedEof),
            }
        } else if t == 10 || t == 11 || t == 12 {
            match read_u64(b, pos) {
                Some(x) => if t == 12 {
                    Ok((GgufValue::Float64(x), pos + 8))
                } else {
                    Ok((GgufValue::Text(u64_to_decimal(x)), pos + 8))
                },
                None => Err(GgufError::UnexpectedEof),
            }
        } else if t == 8 {
            match read_string(b, pos) {
                Some((x, e)) => Ok((GgufValue::Text(x), e)),
                None => Err(GgufError::UnexpectedEof),
            }
        } else if t == 9 {
            read_array(b, pos)
        } else {
            Err(GgufError::UnknownValueType(t))
        }
    }
}

fn read_entry(b: &[u8], p: usize) -> (r: Result<(String, GgufValue, usize), usize>)
    ensures
        match r {
            Ok((k, v, e)) => entry_at(b@, p as int) == Ok::<((Seq<char>, ValueView), int), int>(
                ((k@, v@), e as int),
            ),
            Err(e) => entry_at(b@, p as int) == Err::<((Seq<char>, ValueView), int), int>(e as int),
        },
{
    assert(b@.len() == b.len());
    let (k, p1) = match read_string(b, p) {
        Some(x) => x,
        None => return Err(b.len()),
    };
    let t = match read_u32(b, p1) {
        Some(t) => t,
        None => return Err(b.len()),
    };
    match GgufProber::read_value(b, p1 + 4, t) {
        Ok((v, e)) => Ok((k, v, e)),
        Err(err) => match err {
            GgufError::UnexpectedEof => Err(b.len()),
            GgufError::ArrayTooLarge(_) => Err(p1 + 16),
            GgufError::UnsupportedArrayItem(_) => Err(p1 + 16),
            _ => Err(p1 + 4),
        },
    }
}

fn read_dims(b: &[u8], p: usize, n: u32) -> (r: Option<(Vec<usize>, usize)>)
    ensures
        match r {
            Some((d, e)) => dims_at(b@, p as int, n as nat) == Some((d@, e as int)),
            None => dims_at(b@, p as int, n as nat) is None,
        },
{
    let mut d: Vec<usize> = Vec::new();
    let mut q = p;
    let mut i: u32 = 0;
    while i < n
        invariant
            i <= n,
            dims_at(b@, p as int, n as nat) == match dims_at(b@, q as int, (n - i) as nat) {
                Some((rest, e)) => Some((d@ + rest, e)),
                None => None,
            },
        decreases n - i,
    {
        assert(b@.len() == b.len());
        match read_u64(b, q) {
            Some(x) => {
                proof {
                    let ghost m = (n - i) as nat;
                    match dims_at(b@, q + 8, (m - 1) as nat) {
                        Some((rest, e)) => {
                            assert(d@ + (seq![x as usize] + rest) =~= d@.push(x as usize) + rest);
                        },
                        None => {},
                    }
                }
                d.push(x as usize);
                q = q + 8;
            },
            None => return None,
        }
        i = i + 1;
    }
    assert(d@ + Seq::<usize>::empty() =~= d@);
    Some((d, q))
}

fn read_tensor(b: &[u8], p: usize) -> (r: Option<(String, Vec<usize>, usize)>)
    ensures
        match r {
            Some((name, d, e)) => tensor_at(b@, p as int) == Some(((name@, d@), e as int)),
            None => tensor_at(b@, p as int) is None,
        },
{
    assert(b@.len() == b.len());
    let (name, p1) = match read_string(b, p) {
        Some(x) => x,
        None => return None,
    };
    let n = match read_u32(b, p1) {
        Some(n) => n,
        None => return None,
    };
    let (d, p2) = match read_dims(b, p1 + 4, n) {
        Some(x) => x,
        None => return None,
    };
    if p2 >= b.len() || b.len() - p2 < 12 {
        return None;
    }
    Some((name, d, p2 + 12))
}

impl GgufProber {
    /// Reads the header at the start of `b`: the metadata entries, then the
    /// tensor entries from where the metadata ended. Reading either list
    /// stops at the first entry that cannot be read; the entries read up to
    /// there are kept.
    pub fn probe(b: &[u8]) -> (r: Result<GgufHeader, GgufError>)
        ensures
            match r {
                Ok(h) => {
                    &&& header_error(b@) is None
                    &&& metadata_view(h.metadata@) == table(header_entries(b@).0)
                    &&& tensors_view(h.tensor_infos@) == table(header_tensors(b@))
                    &&& h.tensor_count == tensor_count(b@) as usize
                },
                Err(e) => header_error(b@) == Some(e),
            },
    {
        assert(b@.len() == b.len());
        if b.len() < 4 {
            return Err(GgufError::UnexpectedEof);
        }
        if !(b[0] == 71 && b[1] == 71 && b[2] == 85 && b[3] == 70) {
            return Err(GgufError::NotGguf);
        }
        if b.len() < 24 {
            return Err(GgufError::UnexpectedEof);
        }
        let count = read_u64(b, 8).unwrap();
        let kv_count = read_u64(b, 16).unwrap();
        let mut metadata: Vec<(String, GgufValue)> = Vec::new();
        let mut pos: usize = 24;
        let mut i: u64 = 0;
        let ghost mut done: Seq<(Seq<char>, ValueView)> = Seq::empty();
        let ghost all = header_entries(b@);
        proof {
            assert(metadata_view(metadata@) =~= table(done));
        }
        while i < kv_count
            invariant_except_break
                i <= kv_count,
                all == (done + entries_from(b@, pos as int, (kv_count - i) as nat).0,
                    entries_from(b@, pos as int, (kv_count - i) as nat).1),
            invariant
                all == header_entries(b@),
                kv_count == le_u64(b@, 16),
                metadata_view(metadata@) == table(done),
            ensures
                all == (done, pos as int),
            decreases kv_count - i,
        {
            match read_entry(b, pos) {
                Ok((k, v, e)) => {
                    let ghost kv = (k@, v@);
                    let ghost old_m = metadata@;
                    proof {
                        let ghost m = (kv_count - i) as nat;
                        let ghost rest = entries_from(b@, e as int, (m - 1) as nat);
                        assert(done + (seq![kv] + rest.0) =~= done.push(kv) + rest.0);
                        assert(done.push(kv).drop_last() =~= done);
                    }
                    keyed_insert(&mut metadata, k, v);
                    proof {
                        lemma_insert_mapped(old_m, metadata@, kv.0, v, |x: GgufValue| x@);
                        done = done.push(kv);
                    }
                    pos = e;
                },
                Err(e) => {
                    proof {
                        assert(done + Seq::<(Seq<char>, ValueView)>::empty() =~= done);
                    }
                    pos = e;
                    break;
                },
            }
            i = i + 1;
        }
        proof {
            if i >= kv_count {
                assert(done + Seq::<(Seq<char>, ValueView)>::empty() =~= done);
            }
        }
        let mut tensor_infos: Vec<(String, Vec<usize>)> = Vec::new();
        let mut j: u64 = 0;
        let ghost mut got: Seq<(Seq<char>, Seq<usize>)> = Seq::empty();
        let ghost tall = header_tensors(b@);
        proof {
            assert(tensors_view(tensor_infos@) =~= table(got));
        }
        while j < count
            invariant_except_break
                j <= count,
                tall == got + tensors_from(b@, pos as int, (count - j) as nat),
            invariant
                tall == header_tensors(b@),
                count == le_u64(b@, 8),
                tensors_view(tensor_infos@) == table(got),
            ensures
                tall == got,
            decreases count - j,
        {
            match read_tensor(b, pos) {
                Some((name, d, e)) => {
                    let ghost t = (name@, d@);
                    let ghost old_t = tensor_infos@;
                    proof {
                        let ghost m = (count - j) as nat;
                        let ghost rest = tensors_from(b@, e as int, (m - 1) as nat);
                        assert(got + (seq![t] + rest) =~= got.push(t) + rest);
                        assert(got.push(t).drop_last() =~= got);
                    }
                    keyed_insert(&mut tensor_infos, name, d);
                    proof {
                        lemma_insert_mapped(old_t, tensor_infos@, t.0, d, |x: Vec<usize>| x@);
                        got = got.push(t);
                    }
                    pos = e;
                },
                None => {
                    proof {
                        assert(got + Seq::<(Seq<char>, Seq<usize>)>::empty() =~= got);
                    }
                    break;
                },
            }
            j = j + 1;
        }
        proof {
            if j >= count {
                assert(got + Seq::<(Seq<char>, Seq<usize>)>::empty() =~= got);
            }
        }
        Ok(GgufHeader { metadata, tensor_infos, tensor_count: count as usize })
    }
}

/// Does `s` contain one of `pats`?
pub open spec fn mentions_any(s: Seq<char>, pats: Seq<Seq<char>>) -> bool {
    exists|i: int| 0 <= i < pats.len() && contains_seq(s, #[trigger] pats[i])
}

/// A key as it is searched: lowercased first when `lower`.
pub open spec fn key_form(k: Seq<char>, lower: bool) -> Seq<char> {
    if lower {
        lowercase_seq(k)
    } else {
        k
    }
}

/// Does some key of `v`, lowercased first when `lower`, contain one of
/// `pats`?
pub open spec fn key_mentions<V>(v: Seq<(String, V)>, pats: Seq<Seq<char>>, lower: bool) -> bool {
    exists|i: int| 0 <= i < v.len() && #[trigger] mentions_any(key_form(v[i].0@, lower), pats)
}

/// Does some tensor name mark a multi-token-prediction head?
pub open spec fn has_mtp_tensor(t: Seq<(String, Vec<usize>)>) -> bool {
    exists|i: int| 0 <= i < t.len() && #[trigger] mtp_name(t[i].0@)
}

/// Architectures whose layers are recurrent or state-space.
pub open spec fn recurrent_archs() -> Seq<Seq<char>> {
    seq!["mamba"@, "rwkv"@, "ssm"@, "falcon_mamba"@, "jamba"@, "zamba"@]
}

/// Metadata key fragments that announce hybrid recurrent layers.
pub open spec fn hybrid_signals() -> Seq<Seq<char>> {
    seq!["layer_types"@, "ssm_state_size"@, "d_state"@, "conv_kernel"@, "time_mix_extra_dim"@]
}

/// Tensor name fragments of state-space or recurrent layers.
pub open spec fn ssm_tensor_patterns() -> Seq<Seq<char>> {
    seq![".ssm"@, "ssm_"@, ".conv_1d"@, ".a_log"@, ".dt_"@, "time_mix"@, ".mamba"@, "rwkv_"@]
}

/// A tensor name of a multi-token-prediction head.
pub open spec fn mtp_name(k: Seq<char>) -> bool {
    contains_seq(k, ".mtp"@) || ends_with_seq(k, "mtp"@)
}

/// Name fragments of vision towers and projectors.
pub open spec fn vision_patterns() -> Seq<Seq<char>> {
    seq!["v."@, "vision"@, "mm."@, "image"@]
}

/// The value of `k` in string metadata.
pub open spec fn lookup(m: Seq<(String, String)>, k: Seq<char>) -> Option<Seq<char>> {
    if str_map(m).contains_key(k) {
        Some(str_map(m)[k])
    } else {
        None
    }
}

/// Does the metadata name a recurrent architecture, a hybrid-layer key, or
/// do the tensors include state-space layers?
pub open spec fn recurrent_ssm(m: Seq<(String, String)>, t: Seq<(String, Vec<usize>)>) -> bool {
    (match lookup(m, "general.architecture"@) {
        Some(a) => mentions_any(lowercase_seq(a), recurrent_archs()),
        None => false,
    }) || key_mentions(m, hybrid_signals(), false) || key_mentions(t, ssm_tensor_patterns(), false)
}

/// What the metadata and tensor index of a model file say of it, in text.
/// The reasoning tags are left for a caller that knows the template
/// conventions to fill in.
#[derive(Debug, Clone)]
pub struct GgufProbeResult {
    pub architecture: Option<String>,
    pub context_window: Option<String>,
    pub chat_template: Option<String>,
    pub quantization: Option<String>,
    pub parameter_count: Option<String>,
    pub think_start_tag: Option<String>,
    pub think_end_tag: Option<String>,
    pub is_embedding: bool,
    pub has_vision: bool,
}

impl Default for GgufProbeResult {
    fn default() -> (r: Self)
        ensures
            r.architecture is None && r.context_window is None && r.chat_template is None,
            r.quantization is None && r.parameter_count is None,
            r.think_start_tag is None && r.think_end_tag is None,
            !r.is_embedding && !r.has_vision,
    {
        GgufProbeResult {
            architecture: None,
            context_window: None,
            chat_template: None,
            quantization: None,
            parameter_count: None,
            think_start_tag: None,
            think_end_tag: None,
            is_embedding: false,
            has_vision: false,
        }
    }
}

fn get_text(m: &Vec<(String, String)>, k: &str) -> (r: Option<String>)
    ensures
        opt_view(r) == lookup(m@, k@),
{
    match str_map_get(m, k) {
        Some(v) => Some(v.clone()),
        None => None,
    }
}

fn any_name_mentions<V>(v: &Vec<(String, V)>, pats: &Vec<&str>, lower: bool) -> (r: bool)
    ensures
        r == key_mentions(v@, str_views(pats@), lower),
{
    let mut i: usize = 0;
    while i < v.len()
        invariant
            i <= v@.len(),
            forall|j: int| 0 <= j < i ==> !#[trigger] mentions_any(key_form(v@[j].0@, lower), str_views(pats@)),
        decreases v@.len() - i,
    {
        let k = if lower { to_lowercase(v[i].0.as_str()) } else { v[i].0.clone() };
        let hit = contains_any(k.as_str(), pats);
        proof {
            let ghost ks = key_form(v@[i as int].0@, lower);
            assert(k@ == ks);
            if hit {
                let w = choose|w: int| 0 <= w < pats@.len() && contains_seq(k@, #[trigger] pats@[w]@);
                assert(str_views(pats@)[w] == pats@[w]@);
                assert(mentions_any(ks, str_views(pats@)));
            } else {
                assert forall|w: int| 0 <= w < str_views(pats@).len() implies !contains_seq(ks, #[trigger] str_views(pats@)[w]) by {
                    assert(str_views(pats@)[w] == pats@[w]@);
                }
            }
        }
        if hit {
            return true;
        }
        i = i + 1;
    }
    false
}

impl GgufProber {
    /// Does the tensor index include a multi-token-prediction head?
    pub fn check_native_mtp(tensor_infos: &Vec<(String, Vec<usize>)>) -> (r: bool)
        ensures
            r == has_mtp_tensor(tensor_infos@),
    {
        let mut i: usize = 0;
        while i < tensor_infos.len()
            invariant
                i <= tensor_infos@.len(),
                forall|j: int| 0 <= j < i ==> !#[trigger] mtp_name(tensor_infos@[j].0@),
            decreases tensor_infos@.len() - i,
        {
            let k = tensor_infos[i].0.as_str();
            if contains(k, ".mtp") || ends_with(k, "mtp") {
                assert(mtp_name(tensor_infos@[i as int].0@));
                return true;
            }
            i = i + 1;
        }
        false
    }

    /// Does the model have recurrent or state-space layers: by its
    /// architecture name, by a hybrid-layer metadata key, or by the names of
    /// its tensors?
    pub fn check_recurrent_ssm(metadata: &Vec<(String, String)>, tensor_infos: &Vec<(String, Vec<usize>)>) -> (r:
        bool)
        ensures
            r == recurrent_ssm(metadata@, tensor_infos@),
    {
        let archs = vec!["mamba", "rwkv", "ssm", "falcon_mamba", "jamba", "zamba"];
        assert(str_views(archs@) =~= recurrent_archs());
        let arch_hit = match str_map_get(metadata, "general.architecture") {
            Some(a) => {
                let lower = to_lowercase(a.as_str());
                let hit = contains_any(lower.as_str(), &archs);
                proof {
                    if hit {
                        let w = choose|w: int| 0 <= w < archs@.len() && contains_seq(lower@, #[trigger] archs@[w]@);
                        assert(recurrent_archs()[w] == archs@[w]@);
                    } else {
                        assert forall|w: int| 0 <= w < recurrent_archs().len() implies !contains_seq(
                            lower@,
                            #[trigger] recurrent_archs()[w],
                        ) by {
                            assert(recurrent_archs()[w] == archs@[w]@);
                        }
                    }
                }
                hit
            },
            None => false,
        };
        if arch_hit {
            return true;
        }
        let signals = vec!["layer_types", "ssm_state_size", "d_state", "conv_kernel", "time_mix_extra_dim"];
        assert(str_views(signals@) =~= hybrid_signals());
        if any_name_mentions(metadata, &signals, false) {
            return true;
        }
        let patterns = vec![".ssm", "ssm_", ".conv_1d", ".a_log", ".dt_", "time_mix", ".mamba", "rwkv_"];
        assert(str_views(patterns@) =~= ssm_tensor_patterns());
        any_name_mentions(tensor_infos, &patterns, false)
    }

    /// Summarises string metadata and the tensor index: the architecture
    /// (context length looked up under its name, `llama` when it has none,
    /// then under `general`), the chat template, the file type, the
    /// parameter count, whether it embeds (a BERT architecture or a pooling
    /// tensor) and whether it sees (a vision or projector tensor).
    pub fn describe(metadata: &Vec<(String, String)>, tensor_infos: &Vec<(String, Vec<usize>)>) -> (r:
        GgufProbeResult)
        ensures
            opt_view(r.architecture) == lookup(metadata@, "general.architecture"@),
            opt_view(r.context_window) == or_else(
                lookup(
                    metadata@,
                    match lookup(metadata@, "general.architecture"@) {
                        Some(a) => a,
                        None => "llama"@,
                    } + ".context_length"@,
                ),
                lookup(metadata@, "general.context_length"@),
            ),
            opt_view(r.chat_template) == lookup(metadata@, "tokenizer.chat_template"@),
            opt_view(r.quantization) == lookup(metadata@, "general.file_type"@),
            opt_view(r.parameter_count) == lookup(metadata@, "general.parameter_count"@),
            r.think_start_tag is None && r.think_end_tag is None,
            r.has_vision == key_mentions(tensor_infos@, vision_patterns(), true),
            r.is_embedding == ((match lookup(metadata@, "general.architecture"@) {
                Some(a) => a == "bert"@ || a == "nomic_bert"@ || a == "jina_bert"@,
                None => false,
            }) || key_mentions(tensor_infos@, seq!["pooling"@], true)),
    {
        let architecture = get_text(metadata, "general.architecture");
        let prefix = match &architecture {
            Some(a) => a.clone(),
            None => String::from_str("llama"),
        };
        let mut key = prefix;
        key.append(".context_length");
        let context_window = match get_text(metadata, key.as_str()) {
            Some(c) => Some(c),
            None => get_text(metadata, "general.context_length"),
        };
        let chat_template = get_text(metadata, "tokenizer.chat_template");
        let quantization = get_text(metadata, "general.file_type");
        let parameter_count = get_text(metadata, "general.parameter_count");
        let vision = vec!["v.", "vision", "mm.", "image"];
        assert(str_views(vision@) =~= vision_patterns());
        let has_vision = any_name_mentions(tensor_infos, &vision, true);
        let pooling = vec!["pooling"];
        assert(str_views(pooling@) =~= seq!["pooling"@]);
        let pooled = any_name_mentions(tensor_infos, &pooling, true);
        let bert = match &architecture {
            Some(a) => str_eq(a.as_str(), "bert") || str_eq(a.as_str(), "nomic_bert") || str_eq(
                a.as_str(),
                "jina_bert",
            ),
            None => false,
        };
        GgufProbeResult {
            architecture,
            context_window,
            chat_template,
            quantization,
            parameter_count,
            think_start_tag: None,
            think_end_tag: None,
            is_embedding: bert || pooled,
            has_vision,
        }
    }
}

} // verus!
