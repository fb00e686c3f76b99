//! Errors of the library's own operations.

use vstd::prelude::*;

verus! {

/// Why an operation of the library failed.
#[derive(Debug, Clone, Copy, PartialEq, Eq, Structural)]
pub enum DbangError {
    /// A catalog, artifact, version or alias is not present.
    NotFound,
    /// A persisted document is not in the expected format.
    Format,
    /// The operation was asked for on a value that does not support it,
    /// such as the import map of an artifact that declares none.
    Precondition,
}

} // verus!
