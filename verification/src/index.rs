//! What the index is given to keep.

use crate::integrity::{HashView, Integrity};
use vstd::prelude::*;

verus! {

/// The record that the index keeps for a key.
#[derive(Debug, PartialEq, Eq)]
pub struct Entry {
    /// The key under which the content was put.
    pub key: String,
    /// The digest of the content.
    pub integrity: Integrity,
    /// The number of bytes of the content.
    pub size: usize,
    /// What the caller wanted kept beside them.
    pub metadata: Option<String>,
}

/// What an [`Entry`] is.
pub ghost struct EntryView {
    pub key: Seq<char>,
    pub integrity: Seq<HashView>,
    pub size: usize,
    pub metadata: Option<Seq<char>>,
}

impl View for Entry {
    type V = EntryView;

    open spec fn view(&self) -> EntryView {
        EntryView {
            key: self.key@,
            integrity: self.integrity@,
            size: self.size,
            metadata: match self.metadata {
                Some(text) => Some(text@),
                None => None,
            },
        }
    }
}

} // verus!
