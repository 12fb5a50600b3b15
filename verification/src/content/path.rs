//! The canonical place of content under a cache root.

use crate::hex::{encode, is_digit, lemma_decode_encode, lemma_encode_injective};
use crate::integrity::{lemma_names, valid, Algorithm, HashView, Integrity};
use vstd::prelude::*;
use vstd::string::StringExecFns;

verus! {

/// The version of the layout of content under a cache root.
pub const CONTENT_VERSION: &'static str = "2";

/// The part of `text` from `from` up to `to`, both cut down to its length.
pub open spec fn clamped(text: Seq<char>, from: int, to: int) -> Seq<char> {
    let end = if to < text.len() {
        to
    } else {
        text.len() as int
    };
    let start = if from < end {
        from
    } else {
        end
    };
    text.subrange(start, end)
}

/// `base` extended by one component: a separator comes between the two
/// unless `base` is empty or ends with one.
pub open spec fn joined(base: Seq<char>, component: Seq<char>) -> Seq<char> {
    if base.len() == 0 || base.last() == '/' {
        base + component
    } else {
        base + seq!['/'] + component
    }
}

/// The directory of the content of `cache`.
pub open spec fn content_dir(cache: Seq<char>) -> Seq<char> {
    joined(cache, "content-v"@ + CONTENT_VERSION@)
}

/// The place, below a content directory, of content whose naming hash was
/// made with `algorithm` and reads `hex` in hexadecimal: the algorithm's
/// name, the first two digits, the next two, and the rest.
pub open spec fn sharded(algorithm: Algorithm, hex: Seq<char>) -> Seq<char> {
    algorithm.spec_name() + seq!['/'] + clamped(hex, 0, 2) + seq!['/'] + clamped(hex, 2, 4)
        + seq!['/'] + clamped(hex, 4, hex.len() as int)
}

/// The canonical path of the content that `sri` names in `cache`.
pub open spec fn spec_content_path(cache: Seq<char>, sri: Seq<HashView>) -> Seq<char> {
    content_dir(cache) + seq!['/'] + sharded(sri[0].algorithm, encode(sri[0].digest))
}

/// Extends `path` by one component, as [`joined`] says.
fn push(path: &mut String, component: &str)
    ensures
        final(path)@ == joined(old(path)@, component@),
{
    let n = path.as_str().unicode_len();
    if n > 0 && path.as_str().get_char(n - 1) != '/' {
        proof {
            reveal_strlit("/");
        }
        assert("/"@ =~= seq!['/']);
        path.append("/");
    }
    path.append(component);
}

/// The canonical path of the content that `sri` names in the cache at
/// `cache`: the cache's content directory, then the name of the algorithm of
/// the naming hash, then the hash in hexadecimal, its first two digits and
/// its next two digits each a directory of their own.
pub fn content_path(cache: &str, sri: &Integrity) -> (path: String)
    ensures
        path@ == spec_content_path(cache@, sri@),
{
    let (algorithm, hex) = sri.to_hex();
    proof {
        reveal_strlit("/");
        assert("/"@ =~= seq!['/']);
        lemma_decode_encode(sri@[0].digest);
        assert forall|i: int| 0 <= i < hex@.len() implies '\0' <= #[trigger] hex@[i]
            <= '\u{7f}' by {
            assert(is_digit(hex@[i]));
        }
    }
    let hex = hex.as_str();
    let n = hex.unicode_len();
    let second = if n < 2 {
        n
    } else {
        2
    };
    let fourth = if n < 4 {
        n
    } else {
        4
    };
    let mut version = String::from_str("content-v");
    version.append(CONTENT_VERSION);
    let mut path = String::from_str(cache);
    push(&mut path, version.as_str());
    path.append("/");
    path.append(algorithm.name());
    path.append("/");
    path.append(hex.substring_ascii(0, second));
    path.append("/");
    path.append(hex.substring_ascii(second, fourth));
    path.append("/");
    path.append(hex.substring_ascii(fourth, n));
    assert(path@ =~= spec_content_path(cache@, sri@));
    path
}

/// Two texts that agree once a separator and something more has been put
/// behind each, and that hold no separator themselves, are the same text, and
/// so is what was put behind them.
proof fn lemma_cut(x1: Seq<char>, y1: Seq<char>, x2: Seq<char>, y2: Seq<char>)
    requires
        x1 + seq!['/'] + y1 == x2 + seq!['/'] + y2,
        forall|i: int| 0 <= i < x1.len() ==> x1[i] != '/',
        forall|i: int| 0 <= i < x2.len() ==> x2[i] != '/',
    ensures
        x1 == x2,
        y1 == y2,
{
    let s1 = x1 + seq!['/'] + y1;
    let s2 = x2 + seq!['/'] + y2;
    if x1.len() < x2.len() {
        assert(s1[x1.len() as int] == '/');
        assert(s2[x1.len() as int] == x2[x1.len() as int]);
    }
    if x2.len() < x1.len() {
        assert(s2[x2.len() as int] == '/');
        assert(s1[x2.len() as int] == x1[x2.len() as int]);
    }
    assert forall|i: int| 0 <= i < x1.len() implies x1[i] == x2[i] by {
        assert(s1[i] == x1[i] && s2[i] == x2[i]);
    }
    assert(x1 =~= x2);
    assert(s1.len() == s2.len());
    assert forall|i: int| 0 <= i < y1.len() implies y1[i] == y2[i] by {
        assert(s1[x1.len() + 1 + i] == y1[i] && s2[x1.len() + 1 + i] == y2[i]);
    }
    assert(y1 =~= y2);
}

/// The place below the content directory tells the algorithm and the
/// hexadecimal text apart from every other pair.
pub proof fn lemma_sharded_injective(a1: Algorithm, hex1: Seq<char>, a2: Algorithm, hex2: Seq<char>)
    requires
        forall|i: int| 0 <= i < hex1.len() ==> is_digit(#[trigger] hex1[i]),
        forall|i: int| 0 <= i < hex2.len() ==> is_digit(#[trigger] hex2[i]),
        sharded(a1, hex1) == sharded(a2, hex2),
    ensures
        a1 == a2,
        hex1 == hex2,
{
    let sep = seq!['/'];
    let (f1, m1, l1) = (clamped(hex1, 0, 2), clamped(hex1, 2, 4), clamped(hex1, 4, hex1.len() as int));
    let (f2, m2, l2) = (clamped(hex2, 0, 2), clamped(hex2, 2, 4), clamped(hex2, 4, hex2.len() as int));
    lemma_names(a1, a2);
    lemma_names(a2, a1);
    assert(sharded(a1, hex1) =~= a1.spec_name() + sep + (f1 + sep + (m1 + sep + l1)));
    assert(sharded(a2, hex2) =~= a2.spec_name() + sep + (f2 + sep + (m2 + sep + l2)));
    lemma_cut(a1.spec_name(), f1 + sep + (m1 + sep + l1), a2.spec_name(), f2 + sep + (m2 + sep + l2));
    assert(f1 + sep + (m1 + sep + l1) == f2 + sep + (m2 + sep + l2));
    lemma_cut(f1, m1 + sep + l1, f2, m2 + sep + l2);
    lemma_cut(m1, l1, m2, l2);
    assert(hex1 =~= f1 + m1 + l1);
    assert(hex2 =~= f2 + m2 + l2);
}

/// The path is a function of the cache root and of the naming hash alone:
/// the same root and the same naming hash give the same path, whatever else
/// the digests hold.
pub proof fn lemma_content_path_deterministic(
    cache1: Seq<char>,
    sri1: Seq<HashView>,
    cache2: Seq<char>,
    sri2: Seq<HashView>,
)
    requires
        valid(sri1),
        valid(sri2),
        cache1 == cache2,
        sri1[0] == sri2[0],
    ensures
        spec_content_path(cache1, sri1) == spec_content_path(cache2, sri2),
{
}

/// Under one cache root, digests whose naming hashes differ, in the
/// algorithm or in the bytes, lie at different paths.
pub proof fn lemma_content_path_disjoint(cache: Seq<char>, sri1: Seq<HashView>, sri2: Seq<HashView>)
    requires
        valid(sri1),
        valid(sri2),
        sri1[0] != sri2[0],
    ensures
        spec_content_path(cache, sri1) != spec_content_path(cache, sri2),
{
    let (h1, h2) = (sri1[0], sri2[0]);
    let (p1, p2) = (spec_content_path(cache, sri1), spec_content_path(cache, sri2));
    if p1 == p2 {
        let head = content_dir(cache) + seq!['/'];
        let (t1, t2) = (sharded(h1.algorithm, encode(h1.digest)), sharded(h2.algorithm, encode(h2.digest)));
        assert(p1 =~= head + t1 && p2 =~= head + t2);
        assert(t1 =~= p1.subrange(head.len() as int, p1.len() as int));
        assert(t2 =~= p2.subrange(head.len() as int, p2.len() as int));
        lemma_decode_encode(h1.digest);
        lemma_decode_encode(h2.digest);
        lemma_sharded_injective(h1.algorithm, encode(h1.digest), h2.algorithm, encode(h2.digest));
        lemma_encode_injective(h1.digest, h2.digest);
        assert(h1 == h2);
    }
}

} // verus!
