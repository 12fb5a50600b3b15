//! Content digests: an algorithm paired with the bytes of the hash it gave.

use crate::hex::{decode, decode_hex, encode, encode_hex, is_hex};
use vstd::prelude::*;

verus! {

/// The hash functions a digest can be made with, the preferred one first.
#[derive(Clone, Copy, Debug, PartialEq, Eq, Hash, Structural)]
pub enum Algorithm {
    Sha512,
    Sha384,
    Sha256,
    Sha1,
    Xxh3,
}

impl Algorithm {
    /// The place of the algorithm in the order of preference; 0 is preferred
    /// to every other.
    pub open spec fn rank(self) -> nat {
        match self {
            Algorithm::Sha512 => 0,
            Algorithm::Sha384 => 1,
            Algorithm::Sha256 => 2,
            Algorithm::Sha1 => 3,
            Algorithm::Xxh3 => 4,
        }
    }

    /// The algorithm's name as it stands in paths and in digest text.
    pub open spec fn spec_name(self) -> Seq<char> {
        match self {
            Algorithm::Sha512 => "sha512"@,
            Algorithm::Sha384 => "sha384"@,
            Algorithm::Sha256 => "sha256"@,
            Algorithm::Sha1 => "sha1"@,
            Algorithm::Xxh3 => "xxh3"@,
        }
    }

    /// The algorithm's name as it stands in paths and in digest text.
    pub fn name(&self) -> (text: &'static str)
        ensures
            text@ == self.spec_name(),
    {
        match self {
            Algorithm::Sha512 => "sha512",
            Algorithm::Sha384 => "sha384",
            Algorithm::Sha256 => "sha256",
            Algorithm::Sha1 => "sha1",
            Algorithm::Xxh3 => "xxh3",
        }
    }
}

/// Names are made of lower-case letters and digits, and no two algorithms
/// share one.
pub proof fn lemma_names(a: Algorithm, b: Algorithm)
    ensures
        a.spec_name().len() > 0,
        forall|i: int| 0 <= i < a.spec_name().len() ==> #[trigger] a.spec_name()[i] != '/',
        a.spec_name() == b.spec_name() ==> a == b,
{
    reveal_strlit("sha512");
    reveal_strlit("sha384");
    reveal_strlit("sha256");
    reveal_strlit("sha1");
    reveal_strlit("xxh3");
    if a != b && a.spec_name() == b.spec_name() {
        assert(a.spec_name().len() == b.spec_name().len());
        assert(a.spec_name()[3] == b.spec_name()[3]);
        assert(a.spec_name()[0] == b.spec_name()[0]);
    }
}

/// One hash of some content: the algorithm and the bytes it gave.
#[derive(Debug, PartialEq, Eq, Hash)]
pub struct Hash {
    pub algorithm: Algorithm,
    pub digest: Vec<u8>,
}

/// What a [`Hash`] is: its algorithm and its bytes.
pub ghost struct HashView {
    pub algorithm: Algorithm,
    pub digest: Seq<u8>,
}

impl View for Hash {
    type V = HashView;

    open spec fn view(&self) -> HashView {
        HashView { algorithm: self.algorithm, digest: self.digest@ }
    }
}

impl Clone for Hash {
    fn clone(&self) -> (copy: Hash)
        ensures
            copy@ == self@,
    {
        Hash { algorithm: self.algorithm, digest: self.digest.clone() }
    }
}

impl Hash {
    /// Whether two hashes have the same algorithm and the same bytes.
    pub fn same(&self, other: &Hash) -> (equal: bool)
        ensures
            equal == (self@ == other@),
    {
        if self.algorithm != other.algorithm || self.digest.len() != other.digest.len() {
            return false;
        }
        let mut i: usize = 0;
        while i < self.digest.len()
            invariant
                i <= self.digest.len(),
                self.digest.len() == other.digest.len(),
                forall|j: int| 0 <= j < i ==> self.digest@[j] == other.digest@[j],
            decreases self.digest.len() - i,
        {
            if self.digest[i] != other.digest[i] {
                return false;
            }
            i += 1;
        }
        assert(self.digest@ =~= other.digest@);
        true
    }
}

/// What a list of hashes is, hash by hash.
pub open spec fn views(hashes: Seq<Hash>) -> Seq<HashView> {
    hashes.map_values(|h: Hash| h@)
}

/// The hashes of `hashes` that were made with `algorithm`, in their order.
pub open spec fn of_algorithm(hashes: Seq<HashView>, algorithm: Algorithm) -> Seq<HashView> {
    hashes.filter(|h: HashView| h.algorithm == algorithm)
}

/// `hashes` grouped by algorithm, the preferred algorithm first; within one
/// algorithm the hashes keep their order.
pub open spec fn by_priority(hashes: Seq<HashView>) -> Seq<HashView> {
    of_algorithm(hashes, Algorithm::Sha512) + of_algorithm(hashes, Algorithm::Sha384)
        + of_algorithm(hashes, Algorithm::Sha256) + of_algorithm(hashes, Algorithm::Sha1)
        + of_algorithm(hashes, Algorithm::Xxh3)
}

/// Whether no hash stands before one of a preferred algorithm.
pub open spec fn sorted(hashes: Seq<HashView>) -> bool {
    forall|i: int, j: int|
        0 <= i <= j < hashes.len() ==> hashes[i].algorithm.rank() <= hashes[j].algorithm.rank()
}

/// Whether `hashes` can be the hashes of a digest: there is one at least, and
/// they are in the order of preference.
pub open spec fn valid(hashes: Seq<HashView>) -> bool {
    hashes.len() > 0 && sorted(hashes)
}

/// The hashes of one algorithm all have that algorithm, and none of them is
/// lost.
pub proof fn lemma_of_algorithm(hashes: Seq<HashView>, algorithm: Algorithm)
    ensures
        forall|i: int|
            0 <= i < of_algorithm(hashes, algorithm).len() ==> (#[trigger] of_algorithm(
                hashes,
                algorithm,
            )[i]).algorithm == algorithm,
        forall|i: int|
            0 <= i < hashes.len() && hashes[i].algorithm == algorithm ==> of_algorithm(
                hashes,
                algorithm,
            ).contains(#[trigger] hashes[i]),
{
    let pred = |h: HashView| h.algorithm == algorithm;
    assert forall|i: int| 0 <= i < hashes.filter(pred).len() implies pred(
        #[trigger] hashes.filter(pred)[i],
    ) by {
        hashes.lemma_filter_pred(pred, i);
    }
    assert forall|i: int| 0 <= i < hashes.len() && pred(hashes[i]) implies hashes.filter(
        pred,
    ).contains(#[trigger] hashes[i]) by {
        hashes.lemma_filter_contains(pred, i);
    }
}

/// Grouping by priority gives a valid list whenever there is a hash at all.
pub proof fn lemma_by_priority(hashes: Seq<HashView>)
    ensures
        sorted(by_priority(hashes)),
        hashes.len() > 0 ==> by_priority(hashes).len() > 0,
        hashes.len() == 0 ==> by_priority(hashes).len() == 0,
{
    lemma_of_algorithm(hashes, Algorithm::Sha512);
    lemma_of_algorithm(hashes, Algorithm::Sha384);
    lemma_of_algorithm(hashes, Algorithm::Sha256);
    lemma_of_algorithm(hashes, Algorithm::Sha1);
    lemma_of_algorithm(hashes, Algorithm::Xxh3);
    if hashes.len() > 0 {
        let a = hashes[0].algorithm;
        assert(of_algorithm(hashes, a).contains(hashes[0]));
    } else {
        hashes.lemma_filter_len(|h: HashView| h.algorithm == Algorithm::Sha512);
        hashes.lemma_filter_len(|h: HashView| h.algorithm == Algorithm::Sha384);
        hashes.lemma_filter_len(|h: HashView| h.algorithm == Algorithm::Sha256);
        hashes.lemma_filter_len(|h: HashView| h.algorithm == Algorithm::Sha1);
        hashes.lemma_filter_len(|h: HashView| h.algorithm == Algorithm::Xxh3);
    }
}

/// A content digest: one hash or more of the same content, those of the
/// preferred algorithm first.
#[derive(Debug, PartialEq, Eq, Hash)]
pub struct Integrity {
    hashes: Vec<Hash>,
}

impl View for Integrity {
    type V = Seq<HashView>;

    closed spec fn view(&self) -> Seq<HashView> {
        views(self.hashes@)
    }
}

impl Clone for Integrity {
    fn clone(&self) -> (copy: Integrity)
        ensures
            copy@ == self@,
    {
        proof {
            use_type_invariant(self);
        }
        let mut hashes: Vec<Hash> = Vec::new();
        let mut i: usize = 0;
        while i < self.hashes.len()
            invariant
                i <= self.hashes.len(),
                views(hashes@) == views(self.hashes@).take(i as int),
            decreases self.hashes.len() - i,
        {
            let ghost before = hashes@;
            let hash = self.hashes[i].clone();
            hashes.push(hash);
            assert(views(hashes@) =~= views(before).push(hash@));
            assert(views(hashes@) =~= views(self.hashes@).take(i + 1));
            i += 1;
        }
        assert(views(hashes@) =~= views(self.hashes@));
        Integrity { hashes }
    }
}

/// Appends to `out` the hashes of `hashes` that were made with `algorithm`.
fn gather(hashes: &Vec<Hash>, algorithm: Algorithm, out: &mut Vec<Hash>)
    ensures
        views(final(out)@) == views(old(out)@) + of_algorithm(views(hashes@), algorithm),
{
    let ghost all = views(hashes@);
    let ghost pred = |h: HashView| h.algorithm == algorithm;
    let mut i: usize = 0;
    assert(all.take(0).filter(pred) =~= Seq::<HashView>::empty()) by {
        reveal(Seq::filter);
    }
    assert(views(out@) =~= views(old(out)@) + all.take(0).filter(pred));
    while i < hashes.len()
        invariant
            i <= hashes.len(),
            all == views(hashes@),
            pred == |h: HashView| h.algorithm == algorithm,
            views(out@) == views(old(out)@) + all.take(i as int).filter(pred),
        decreases hashes.len() - i,
    {
        proof {
            reveal(Seq::filter);
            assert(all.take(i + 1).drop_last() =~= all.take(i as int));
            assert(all.take(i + 1).last() == hashes@[i as int]@);
        }
        if hashes[i].algorithm == algorithm {
            let ghost before = out@;
            let hash = hashes[i].clone();
            out.push(hash);
            assert(views(out@) =~= views(before).push(hash@));
            assert(all.take(i + 1).filter(pred) == all.take(i as int).filter(pred).push(hash@));
            assert(views(out@) =~= views(old(out)@) + all.take(i + 1).filter(pred));
        }
        i += 1;
    }
    assert(all.take(i as int) =~= all);
}

impl Integrity {
    #[verifier::type_invariant]
    spec fn well_formed(self) -> bool {
        valid(self@)
    }

    /// The digest that holds `hashes`, grouped by algorithm in the order of
    /// preference and otherwise in the order given. There is no digest
    /// without a hash.
    pub fn from_hashes(hashes: Vec<Hash>) -> (sri: Option<Integrity>)
        ensures
            match sri {
                Some(s) => hashes.len() > 0 && s@ == by_priority(views(hashes@)),
                None => hashes.len() == 0,
            },
    {
        if hashes.len() == 0 {
            return None;
        }
        let mut grouped: Vec<Hash> = Vec::new();
        gather(&hashes, Algorithm::Sha512, &mut grouped);
        gather(&hashes, Algorithm::Sha384, &mut grouped);
        gather(&hashes, Algorithm::Sha256, &mut grouped);
        gather(&hashes, Algorithm::Sha1, &mut grouped);
        gather(&hashes, Algorithm::Xxh3, &mut grouped);
        proof {
            assert(views(grouped@) =~= by_priority(views(hashes@)));
            lemma_by_priority(views(hashes@));
        }
        Some(Integrity { hashes: grouped })
    }

    /// The digest that holds `hash` alone.
    pub fn from_hash(hash: Hash) -> (sri: Integrity)
        ensures
            sri@ == seq![hash@],
    {
        let mut hashes: Vec<Hash> = Vec::new();
        hashes.push(hash);
        assert(views(hashes@) =~= seq![hash@]);
        Integrity { hashes }
    }

    /// The hashes of the digest, those of the preferred algorithm first.
    pub fn hashes(&self) -> (hashes: &Vec<Hash>)
        ensures
            views(hashes@) == self@,
            valid(self@),
    {
        proof {
            use_type_invariant(self);
        }
        &self.hashes
    }

    /// The hash that names the content: the first one of the preferred
    /// algorithm.
    pub fn preferred(&self) -> (hash: &Hash)
        ensures
            valid(self@),
            hash@ == self@[0],
    {
        proof {
            use_type_invariant(self);
        }
        &self.hashes[0]
    }

    /// The algorithm of the hash that names the content, and the bytes of
    /// that hash as lower-case hexadecimal text.
    pub fn to_hex(&self) -> (named: (Algorithm, String))
        ensures
            valid(self@),
            named.0 == self@[0].algorithm,
            named.1@ == encode(self@[0].digest),
    {
        let hash = self.preferred();
        (hash.algorithm, encode_hex(hash.digest.as_slice()))
    }

    /// The digest whose one hash was made with `algorithm` and has the bytes
    /// that `text` stands for; none where `text` is no lower-case
    /// hexadecimal text.
    pub fn from_hex(text: &str, algorithm: Algorithm) -> (sri: Option<Integrity>)
        ensures
            match sri {
                Some(s) => is_hex(text@) && s@ == seq![
                    HashView { algorithm, digest: decode(text@) },
                ],
                None => !is_hex(text@),
            },
    {
        match decode_hex(text) {
            Some(digest) => Some(Integrity::from_hash(Hash { algorithm, digest })),
            None => None,
        }
    }

    /// The preferred algorithm among those of the digest's hashes.
    pub fn pick_algorithm(&self) -> (algorithm: Algorithm)
        ensures
            valid(self@),
            algorithm == self@[0].algorithm,
    {
        self.preferred().algorithm
    }
}

} // verus!
