//! The error type of the block-heap layer.

use crate::db_error::DBError;
use vstd::prelude::*;

verus! {

/// A block-heap operation fails either because the image ends before the
/// requested bytes (`Io`), because a heap invariant is broken (`DB`), or
/// because a fixed-width field could not be carved out of a buffer
/// (`TryFromSlice`).
#[derive(Debug, Clone, Copy, PartialEq, Eq, Structural)]
pub enum Error {
    Io,
    DB(DBError),
    TryFromSlice,
}

} // verus!
