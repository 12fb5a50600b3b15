//! What can go wrong on the way into the store.

use vstd::prelude::*;

verus! {

/// The ways in which a write or a commit fails.
#[derive(Clone, Copy, Debug, PartialEq, Eq, Structural)]
pub enum Error {
    /// The storage could not be read, written or renamed.
    IoError,
    /// The content does not have the digest that was declared for it.
    IntegrityError,
    /// The content does not have the size that was declared for it.
    SizeError,
    /// The index did not take the entry.
    IndexError,
}

} // verus!
