//! Failure kinds of the block heap.

use vstd::prelude::*;

verus! {

/// Everything that can go wrong inside the block heap. The read paths raise
/// `WrongVersion`, `FreeBlock`, `FreeList`, `InconsistentAvailList` and
/// `InvalidAddress`; the remaining kinds state the guarantees that the write
/// paths (allocate, release, merge, grow) must uphold once they exist.
#[derive(Debug, Clone, Copy, PartialEq, Eq, Structural)]
pub enum DBError {
    WrongVersion,
    FreeBlock,
    FreeList,
    InconsistentAvailList,
    AssignFreeBlock,
    FileSize,
    ReleaseFreeBlock,
    ReleaseInvalidBlock,
    MergeInvalidBlock,
    InvalidAddress,
}

impl DBError {
    /// The user-visible message attached to this failure kind.
    pub fn as_str(&self) -> (r: &'static str)
        ensures
            r@ == self.spec_message(),
    {
        proof {
            reveal_strlit(
                "File was created by an incompatible version of this program.",
            );
            reveal_strlit(
                "Internal database error: attempted to read a free block. Try to Save a Copy and relaunch with the new database.",
            );
            reveal_strlit(
                "This database has a damaged free list. Use the Save a Copy command to create a new, compacted database.",
            );
            reveal_strlit(
                "This database has an inconsistent list of free blocks. Use the Save a Copy command to create a new, compacted database.",
            );
            reveal_strlit(
                "Internal database error: attempted to assign to a free block. Try to Save a Copy and relaunch with the new database.",
            );
            reveal_strlit(
                "Internal database error: attempted to grow the file beyond the maximum database size.",
            );
            reveal_strlit("Internal database error: attempted to release a free block.");
            reveal_strlit("Internal database error: attempted to release an invalid block.");
            reveal_strlit("Internal database error: attempted to merge with an invalid block.");
            reveal_strlit("Attempted to read from an invalid dbaddress.");
        }
        match *self {
            DBError::WrongVersion => "File was created by an incompatible version of this program.",
            DBError::FreeBlock => "Internal database error: attempted to read a free block. Try to Save a Copy and relaunch with the new database.",
            DBError::FreeList => "This database has a damaged free list. Use the Save a Copy command to create a new, compacted database.",
            DBError::InconsistentAvailList => "This database has an inconsistent list of free blocks. Use the Save a Copy command to create a new, compacted database.",
            DBError::AssignFreeBlock => "Internal database error: attempted to assign to a free block. Try to Save a Copy and relaunch with the new database.",
            DBError::FileSize => "Internal database error: attempted to grow the file beyond the maximum database size.",
            DBError::ReleaseFreeBlock => "Internal database error: attempted to release a free block.",
            DBError::ReleaseInvalidBlock => "Internal database error: attempted to release an invalid block.",
            DBError::MergeInvalidBlock => "Internal database error: attempted to merge with an invalid block.",
            DBError::InvalidAddress => "Attempted to read from an invalid dbaddress.",
        }
    }

    /// The message of each failure kind, as a character sequence.
    pub open spec fn spec_message(self) -> Seq<char> {
        match self {
            DBError::WrongVersion => "File was created by an incompatible version of this program."@,
            DBError::FreeBlock => "Internal database error: attempted to read a free block. Try to Save a Copy and relaunch with the new database."@,
            DBError::FreeList => "This database has a damaged free list. Use the Save a Copy command to create a new, compacted database."@,
            DBError::InconsistentAvailList => "This database has an inconsistent list of free blocks. Use the Save a Copy command to create a new, compacted database."@,
            DBError::AssignFreeBlock => "Internal database error: attempted to assign to a free block. Try to Save a Copy and relaunch with the new database."@,
            DBError::FileSize => "Internal database error: attempted to grow the file beyond the maximum database size."@,
            DBError::ReleaseFreeBlock => "Internal database error: attempted to release a free block."@,
            DBError::ReleaseInvalidBlock => "Internal database error: attempted to release an invalid block."@,
            DBError::MergeInvalidBlock => "Internal database error: attempted to merge with an invalid block."@,
            DBError::InvalidAddress => "Attempted to read from an invalid dbaddress."@,
        }
    }
}

} // verus!
