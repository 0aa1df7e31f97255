//! The 8-byte header that begins every block.

use crate::bytes::{be_u32, spec_be_u32};
use crate::error::Error;
use vstd::prelude::*;

verus! {

/// Number of bytes a block header occupies on disk.
pub const HEADER_SIZE: u32 = 8;

/// A decoded block header: bytes 0..4 hold the free flag (top bit) packed
/// with the block size in bytes, header included (low 31 bits); bytes 4..8
/// hold the variance, the unused slack at the end of the block.
#[derive(Debug, Clone, Copy, PartialEq, Eq, Structural)]
pub struct DBHeader {
    pub is_free: bool,
    pub size: u32,
    pub variance: u32,
}

/// The header encoded by the first 8 bytes of `s`.
pub open spec fn spec_db_header(s: Seq<u8>) -> DBHeader
    recommends
        s.len() >= 8,
{
    DBHeader {
        is_free: spec_be_u32(s, 0) >= 0x8000_0000,
        size: (spec_be_u32(s, 0) % 0x8000_0000) as u32,
        variance: spec_be_u32(s, 4) as u32,
    }
}

impl DBHeader {
    /// Decodes a block header from its first 8 on-disk bytes.
    pub fn new(buffer: &[u8]) -> (r: Result<Self, Error>)
        requires
            buffer@.len() >= 8,
        ensures
            r == Ok::<DBHeader, Error>(spec_db_header(buffer@)),
    {
        let size_and_free = be_u32(buffer, 0);
        let variance = be_u32(buffer, 4);

        let is_free = size_and_free >= 0x8000_0000;
        let size = size_and_free % 0x8000_0000;

        Ok(Self { is_free, size, variance })
    }
}

} // verus!
