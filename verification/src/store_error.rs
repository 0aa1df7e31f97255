//! The error type of the object-store layer.

use crate::odb_error::ODBError;
use vstd::prelude::*;

verus! {

/// An object-store operation fails with a block-heap error (`DB`), an
/// object-level error (`ODB`), a fixed-width decode failure (`TryFromSlice`),
/// or an exhausted image (`Io`).
#[derive(Debug, Clone, Copy, PartialEq, Eq, Structural)]
pub enum Error {
    DB(crate::error::Error),
    ODB(ODBError),
    TryFromSlice,
    Io,
}

} // verus!
