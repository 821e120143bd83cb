//! What can go wrong.

use vstd::prelude::*;

verus! {

/// The ways in which an operation on the identity book fails.
#[derive(Debug, Clone, Copy, PartialEq, Eq, Structural)]
pub enum GitIdError {
    /// There is no store where one is needed.
    MissingStore,
    /// The stored document is not JSON of the expected shape.
    CorruptStore,
    /// A position does not name an entry of the list.
    IndexError,
    /// A position was not written as a non-negative whole number.
    ParseError,
    /// The list could not be written out as JSON.
    EncodeError,
}

} // verus!
