//! Big-endian integer fields of the on-disk format.

use vstd::prelude::*;

verus! {

/// The 16-bit big-endian word stored at offset `i` of `s`.
pub open spec fn spec_be_u16(s: Seq<u8>, i: int) -> int
    recommends
        0 <= i,
        i + 2 <= s.len(),
{
    s[i] * 0x100 + s[i + 1]
}

/// The 32-bit big-endian word stored at offset `i` of `s`.
pub open spec fn spec_be_u32(s: Seq<u8>, i: int) -> int
    recommends
        0 <= i,
        i + 4 <= s.len(),
{
    s[i] * 0x1000000 + s[i + 1] * 0x10000 + s[i + 2] * 0x100 + s[i + 3]
}

/// The 32-bit big-endian word at offset `i`, read as a signed two's-complement
/// integer.
pub open spec fn spec_be_i32(s: Seq<u8>, i: int) -> int
    recommends
        0 <= i,
        i + 4 <= s.len(),
{
    if spec_be_u32(s, i) >= 0x8000_0000 {
        spec_be_u32(s, i) - 0x1_0000_0000
    } else {
        spec_be_u32(s, i)
    }
}

/// Reads the 16-bit big-endian word at offset `i` of `s`.
pub fn be_u16(s: &[u8], i: usize) -> (r: u16)
    requires
        i + 2 <= s@.len(),
    ensures
        r == spec_be_u16(s@, i as int),
{
    (s[i] as u16) * 0x100 + (s[i + 1] as u16)
}

/// Reads the 32-bit big-endian word at offset `i` of `s`.
pub fn be_u32(s: &[u8], i: usize) -> (r: u32)
    requires
        i + 4 <= s@.len(),
    ensures
        r == spec_be_u32(s@, i as int),
{
    (s[i] as u32) * 0x1000000 + (s[i + 1] as u32) * 0x10000 + (s[i + 2] as u32) * 0x100 + (s[i
        + 3] as u32)
}

/// Reads the 32-bit big-endian word at offset `i` of `s` as a signed integer.
pub fn be_i32(s: &[u8], i: usize) -> (r: i32)
    requires
        i + 4 <= s@.len(),
    ensures
        r as int == spec_be_i32(s@, i as int),
{
    let w = be_u32(s, i);
    if w >= 0x8000_0000 {
        ((w - 0x8000_0000) as i32) - 0x4000_0000 - 0x4000_0000
    } else {
        w as i32
    }
}

} // verus!
