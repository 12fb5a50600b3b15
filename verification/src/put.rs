//! What a caller declares before writing.

use crate::integrity::{Algorithm, HashView, Integrity};
use vstd::prelude::*;

verus! {

/// The options of one write: which algorithm hashes the content, and what
/// the caller expects the content to be. Every one of them may be left out.
pub struct PutOpts {
    /// The algorithm to hash with; SHA-256 where there is none.
    pub algorithm: Option<Algorithm>,
    /// The digest the content must have.
    pub sri: Option<Integrity>,
    /// The number of bytes the content must have.
    pub size: Option<usize>,
    /// What the index is to keep beside the digest.
    pub metadata: Option<String>,
}

/// What [`PutOpts`] are.
pub ghost struct PutOptsView {
    /// The algorithm to hash with; SHA-256 where there is none.
    pub algorithm: Option<Algorithm>,
    /// The digest the content must have.
    pub sri: Option<Seq<HashView>>,
    /// The number of bytes the content must have.
    pub size: Option<usize>,
    /// What the index is to keep beside the digest.
    pub metadata: Option<Seq<char>>,
}

impl View for PutOpts {
    type V = PutOptsView;

    open spec fn view(&self) -> PutOptsView {
        PutOptsView {
            algorithm: self.algorithm,
            sri: match self.sri {
                Some(sri) => Some(sri@),
                None => None,
            },
            size: self.size,
            metadata: match self.metadata {
                Some(text) => Some(text@),
                None => None,
            },
        }
    }
}

impl PutOptsView {
    /// Options that declare nothing.
    pub open spec fn empty() -> PutOptsView {
        PutOptsView { algorithm: None, sri: None, size: None, metadata: None }
    }

    /// The algorithm that hashes the content.
    pub open spec fn chosen_algorithm(self) -> Algorithm {
        match self.algorithm {
            Some(algorithm) => algorithm,
            None => Algorithm::Sha256,
        }
    }
}

impl PutOpts {
    /// Options that declare nothing.
    pub fn new() -> (opts: PutOpts)
        ensures
            opts@ == PutOptsView::empty(),
    {
        PutOpts { algorithm: None, sri: None, size: None, metadata: None }
    }

    /// Chooses the algorithm that hashes the content.
    pub fn algorithm(self, algorithm: Algorithm) -> (opts: PutOpts)
        ensures
            opts@ == (PutOptsView { algorithm: Some(algorithm), ..self@ }),
    {
        let mut opts = self;
        opts.algorithm = Some(algorithm);
        opts
    }

    /// Declares the digest of the content.
    pub fn integrity(self, sri: Integrity) -> (opts: PutOpts)
        ensures
            opts@ == (PutOptsView { sri: Some(sri@), ..self@ }),
    {
        let mut opts = self;
        opts.sri = Some(sri);
        opts
    }

    /// Declares the number of bytes of the content.
    pub fn size(self, size: usize) -> (opts: PutOpts)
        ensures
            opts@ == (PutOptsView { size: Some(size), ..self@ }),
    {
        let mut opts = self;
        opts.size = Some(size);
        opts
    }

    /// Gives the index something to keep beside the digest.
    pub fn metadata(self, metadata: String) -> (opts: PutOpts)
        ensures
            opts@ == (PutOptsView { metadata: Some(metadata@), ..self@ }),
    {
        let mut opts = self;
        opts.metadata = Some(metadata);
        opts
    }
}

} // verus!
