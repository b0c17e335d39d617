//! Little-endian integers read from byte sequences.
use vstd::prelude::*;

verus! {

/// Are there `n` bytes to read at position `p`?
pub open spec fn has_bytes(s: Seq<u8>, p: int, n: int) -> bool {
    0 <= p && p + n <= s.len()
}

/// The little-endian 16-bit value at `p`.
pub open spec fn le_u16(s: Seq<u8>, p: int) -> int {
    s[p] + 256 * s[p + 1]
}

/// The little-endian 32-bit value at `p`.
pub open spec fn le_u32(s: Seq<u8>, p: int) -> int {
    s[p] + 256 * (s[p + 1] + 256 * (s[p + 2] + 256 * s[p + 3]))
}

/// The little-endian 64-bit value at `p`.
pub open spec fn le_u64(s: Seq<u8>, p: int) -> int {
    le_u32(s, p) + 4294967296 * le_u32(s, p + 4)
}

/// The little-endian 16-bit value at `p`, if there are two bytes there.
pub fn read_u16(b: &[u8], p: usize) -> (r: Option<u16>)
    ensures
        match r {
            Some(v) => has_bytes(b@, p as int, 2) && v == le_u16(b@, p as int),
            None => !has_bytes(b@, p as int, 2),
        },
{
    if p >= b.len() || b.len() - p < 2 {
        return None;
    }
    Some(b[p] as u16 + 256 * (b[p + 1] as u16))
}

/// The little-endian 32-bit value at `p`, if there are four bytes there.
pub fn read_u32(b: &[u8], p: usize) -> (r: Option<u32>)
    ensures
        match r {
            Some(v) => has_bytes(b@, p as int, 4) && v == le_u32(b@, p as int),
            None => !has_bytes(b@, p as int, 4),
        },
{
    if p >= b.len() || b.len() - p < 4 {
        return None;
    }
    let b0 = b[p] as u32;
    let b1 = b[p + 1] as u32;
    let b2 = b[p + 2] as u32;
    let b3 = b[p + 3] as u32;
    Some(b0 + 256 * (b1 + 256 * (b2 + 256 * b3)))
}

/// The little-endian 64-bit value at `p`, if there are eight bytes there.
pub fn read_u64(b: &[u8], p: usize) -> (r: Option<u64>)
    ensures
        match r {
            Some(v) => has_bytes(b@, p as int, 8) && v == le_u64(b@, p as int),
            None => !has_bytes(b@, p as int, 8),
        },
{
    if p >= b.len() || b.len() - p < 8 {
        return None;
    }
    let lo = read_u32(b, p).unwrap() as u64;
    let hi = read_u32(b, p + 4).unwrap() as u64;
    Some(lo + 4294967296 * hi)
}

} // verus!
