//! Hashing of content. The hash functions themselves are those of the `ssri`
//! crate; what they compute is not restated here, only named.

use crate::hex::{decode, decode_hex, encode, encode_hex, is_hex, lemma_decode_encode};
use crate::integrity::{Algorithm, HashView, Integrity};
use vstd::prelude::*;
use vstd::string::StringExecFns;

verus! {

/// `ssri::IntegrityOpts`, a running hasher. Nothing is known of what is
/// inside one but what the functions below say.
#[verifier::external_type_specification]
#[verifier::external_body]
pub struct ExIntegrityOpts(ssri::IntegrityOpts);

/// The bytes that hashing `data` with `algorithm` gives.
pub uninterp spec fn digest(algorithm: Algorithm, data: Seq<u8>) -> Seq<u8>;

/// The algorithm that `opts` was set up with, where it was set up with
/// exactly one.
pub uninterp spec fn opts_algorithm(opts: ssri::IntegrityOpts) -> Option<Algorithm>;

/// All the bytes that `opts` has been given, in the order they came.
pub uninterp spec fn opts_input(opts: ssri::IntegrityOpts) -> Seq<u8>;

/// `ssri::IntegrityOpts::new` and then `ssri::IntegrityOpts::algorithm`:
/// a hasher for the one algorithm, which has been given no bytes yet.
#[verifier::external_body]
fn opts_new(algorithm: Algorithm) -> (opts: ssri::IntegrityOpts)
    ensures
        opts_algorithm(opts) == Some(algorithm),
        opts_input(opts) == Seq::<u8>::empty(),
{
    ssri::IntegrityOpts::new().algorithm(
        match algorithm {
            Algorithm::Sha512 => ssri::Algorithm::Sha512,
            Algorithm::Sha384 => ssri::Algorithm::Sha384,
            Algorithm::Sha256 => ssri::Algorithm::Sha256,
            Algorithm::Sha1 => ssri::Algorithm::Sha1,
            Algorithm::Xxh3 => ssri::Algorithm::Xxh3,
        },
    )
}

/// `ssri::IntegrityOpts::input`: the hasher takes `data` after what it was
/// given before, and keeps its algorithm. It always returns.
#[verifier::external_body]
fn opts_feed(opts: &mut ssri::IntegrityOpts, data: &[u8])
    ensures
        opts_algorithm(*final(opts)) == opts_algorithm(*old(opts)),
        opts_input(*final(opts)) == opts_input(*old(opts)) + data@,
    no_unwind
{
    opts.input(data)
}

/// `ssri::IntegrityOpts::result` and then `ssri::Integrity::to_hex`: the
/// lower-case hexadecimal text of the hash of all the bytes given, made with
/// the hasher's algorithm. A hasher without an algorithm has no hash to
/// write, and is left out.
#[verifier::external_body]
fn opts_hex(opts: ssri::IntegrityOpts) -> (text: String)
    requires
        opts_algorithm(opts) is Some,
    ensures
        text@ == encode(digest(opts_algorithm(opts).unwrap(), opts_input(opts))),
{
    opts.result().to_hex().1
}

/// The base-64 text of a byte string, as it stands in the text of a digest.
pub uninterp spec fn base64(bytes: Seq<u8>) -> Seq<char>;

/// `ssri::Integrity::from_hex` and then `to_string` on what it gave: the
/// text of a digest of one hash, which is the name of the algorithm, a
/// hyphen, and the bytes of the hash in base 64. The bytes are handed over
/// as hexadecimal text, which must be well formed.
#[verifier::external_body]
fn sri_text(algorithm: Algorithm, hex: &str) -> (text: String)
    requires
        is_hex(hex@),
    ensures
        text@ == algorithm.spec_name() + seq!['-'] + base64(decode(hex@)),
{
    let algorithm = match algorithm {
        Algorithm::Sha512 => ssri::Algorithm::Sha512,
        Algorithm::Sha384 => ssri::Algorithm::Sha384,
        Algorithm::Sha256 => ssri::Algorithm::Sha256,
        Algorithm::Sha1 => ssri::Algorithm::Sha1,
        Algorithm::Xxh3 => ssri::Algorithm::Xxh3,
    };
    ssri::Integrity::from_hex(hex, algorithm).unwrap().to_string()
}

/// The text of one hash: the name of its algorithm, a hyphen, and its bytes
/// in base 64.
pub open spec fn hash_text(hash: HashView) -> Seq<char> {
    hash.algorithm.spec_name() + seq!['-'] + base64(hash.digest)
}

/// The text of a digest: the texts of its hashes in their order, a blank
/// between each two.
pub open spec fn integrity_text(hashes: Seq<HashView>) -> Seq<char>
    decreases hashes.len(),
{
    if hashes.len() == 0 {
        Seq::<char>::empty()
    } else if hashes.len() == 1 {
        hash_text(hashes[0])
    } else {
        integrity_text(hashes.drop_last()) + seq![' '] + hash_text(hashes.last())
    }
}

/// A running hash of the bytes given so far.
pub struct Hasher {
    algorithm: Algorithm,
    opts: ssri::IntegrityOpts,
}

/// What a [`Hasher`] is: its algorithm and the bytes it has been given.
pub ghost struct HasherView {
    pub algorithm: Algorithm,
    pub input: Seq<u8>,
}

impl View for Hasher {
    type V = HasherView;

    closed spec fn view(&self) -> HasherView {
        HasherView { algorithm: self.algorithm, input: opts_input(self.opts) }
    }
}

impl Hasher {
    #[verifier::type_invariant]
    spec fn well_formed(self) -> bool {
        opts_algorithm(self.opts) == Some(self.algorithm)
    }

    /// A hasher for `algorithm` that has been given nothing yet.
    pub fn new(algorithm: Algorithm) -> (hasher: Hasher)
        ensures
            hasher@ == (HasherView { algorithm, input: Seq::<u8>::empty() }),
    {
        Hasher { algorithm, opts: opts_new(algorithm) }
    }

    /// The algorithm of the hasher.
    pub fn algorithm(&self) -> (algorithm: Algorithm)
        ensures
            algorithm == self@.algorithm,
    {
        self.algorithm
    }

    /// Gives the hasher more bytes.
    pub fn input(&mut self, data: &[u8])
        ensures
            final(self)@ == (HasherView {
                algorithm: old(self)@.algorithm,
                input: old(self)@.input + data@,
            }),
    {
        proof {
            use_type_invariant(&*self);
        }
        opts_feed(&mut self.opts, data);
    }

    /// The digest of all the bytes given: one hash, made with the hasher's
    /// algorithm.
    pub fn result(self) -> (sri: Integrity)
        ensures
            sri@ == seq![
                HashView {
                    algorithm: self@.algorithm,
                    digest: digest(self@.algorithm, self@.input),
                },
            ],
    {
        proof {
            use_type_invariant(&self);
            lemma_decode_encode(digest(self@.algorithm, self@.input));
        }
        let algorithm = self.algorithm;
        let text = opts_hex(self.opts);
        let bytes = decode_hex(text.as_str());
        Integrity::from_hash(crate::integrity::Hash { algorithm, digest: bytes.unwrap() })
    }
}

/// The digest of `data` under `algorithm`.
pub open spec fn integrity_of(algorithm: Algorithm, data: Seq<u8>) -> Seq<HashView> {
    seq![HashView { algorithm, digest: digest(algorithm, data) }]
}

impl Integrity {
    /// The text of the digest: for each hash the name of its algorithm, a
    /// hyphen and its bytes in base 64, the preferred hash first and a
    /// blank between each two.
    pub fn to_string(&self) -> (text: String)
        ensures
            text@ == integrity_text(self@),
    {
        let hashes = self.hashes();
        let mut text = String::new();
        let mut i: usize = 0;
        while i < hashes.len()
            invariant
                i <= hashes.len(),
                crate::integrity::views(hashes@) == self@,
                text@ == integrity_text(self@.take(i as int)),
            decreases hashes.len() - i,
        {
            let hex = encode_hex(hashes[i].digest.as_slice());
            proof {
                lemma_decode_encode(hashes@[i as int].digest@);
                assert(self@.take(i + 1).drop_last() =~= self@.take(i as int));
                assert(self@.take(i + 1).last() == hashes@[i as int]@);
            }
            if i > 0 {
                text.push(' ');
            }
            text.append(sri_text(hashes[i].algorithm, hex.as_str()).as_str());
            assert(text@ =~= integrity_text(self@.take(i + 1)));
            i += 1;
        }
        assert(self@.take(i as int) =~= self@);
        text
    }

    /// The digest of `data`, made with SHA-256.
    pub fn from(data: &[u8]) -> (sri: Integrity)
        ensures
            sri@ == integrity_of(Algorithm::Sha256, data@),
    {
        let mut hasher = Hasher::new(Algorithm::Sha256);
        hasher.input(data);
        hasher.result()
    }
}

} // verus!
