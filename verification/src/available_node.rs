//! View of one free block on the avail list.

use vstd::prelude::*;

verus! {

/// What a free block shows when read in place: its header's free flag and
/// size, and the forward link to the next free block (the first four payload
/// bytes), or `0` at the end of the chain.
#[derive(Debug, Clone, Copy, PartialEq, Eq, Structural)]
pub struct AvailableNode {
    pub is_free: bool,
    pub size: u32,
    pub next_node: u32,
}

} // verus!
