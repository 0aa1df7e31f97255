//! Failure kinds of the object store.

use vstd::prelude::*;

verus! {

/// Everything that can go wrong in the object store over and above the block
/// heap: only one kind so far, an unrecognized version word in the store's
/// view block.
#[derive(Debug, Clone, Copy, PartialEq, Eq, Structural)]
pub enum ODBError {
    BadDatabaseVersion,
}

impl ODBError {
    /// The user-visible message attached to this failure kind.
    pub fn as_str(&self) -> (r: &'static str)
        ensures
            r@ == self.spec_message(),
    {
        proof {
            reveal_strlit(
                "The version number of this database file is not recognized by this version of Brave Flea.",
            );
        }
        match *self {
            ODBError::BadDatabaseVersion => "The version number of this database file is not recognized by this version of Brave Flea.",
        }
    }

    /// The message of each failure kind, as a character sequence.
    pub open spec fn spec_message(self) -> Seq<char> {
        match self {
            ODBError::BadDatabaseVersion => "The version number of this database file is not recognized by this version of Brave Flea."@,
        }
    }
}

} // verus!
