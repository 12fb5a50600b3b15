use cacache::content::path::content_path;
use cacache::integrity::{Algorithm, Integrity};

#[test]
fn basic_test() {
    let sri = Integrity::from(b"hello world");
    let cpath = content_path("~/.my-cache", &sri);
    assert_eq!(
        cpath.as_str(),
        "~/.my-cache/content-v2/sha256/b9/4d/27b9934d3e08a52e52d7da7dabfac484efe37a5380ee9088f7ace2efcde9"
    );
}

#[test]
fn path_agrees_with_std_path_buf() {
    let sri = Integrity::from(b"hello world");
    let (algo, hex) = ssri::Integrity::from(b"hello world").to_hex();
    for root in ["~/.my-cache", "/var/cache/", "relative/dir", "/", ""] {
        let mut expected = std::path::PathBuf::new();
        expected.push(root);
        expected.push("content-v2");
        expected.push(algo.to_string());
        expected.push(&hex[0..2]);
        expected.push(&hex[2..4]);
        expected.push(&hex[4..]);
        assert_eq!(content_path(root, &sri), expected.to_str().unwrap());
    }
}

#[test]
fn root_with_and_without_trailing_separator() {
    let sri = Integrity::from_hex("0a1b2c3d", Algorithm::Sha1).unwrap();
    assert_eq!(content_path("/c", &sri), "/c/content-v2/sha1/0a/1b/2c3d");
    assert_eq!(content_path("/c/", &sri), "/c/content-v2/sha1/0a/1b/2c3d");
    assert_eq!(content_path("", &sri), "content-v2/sha1/0a/1b/2c3d");
}

#[test]
fn short_digests_do_not_panic() {
    let empty = Integrity::from_hex("", Algorithm::Sha256).unwrap();
    assert_eq!(content_path("r", &empty), "r/content-v2/sha256///");
    let one = Integrity::from_hex("ab", Algorithm::Sha256).unwrap();
    assert_eq!(content_path("r", &one), "r/content-v2/sha256/ab//");
    let two = Integrity::from_hex("abcd", Algorithm::Sha256).unwrap();
    assert_eq!(content_path("r", &two), "r/content-v2/sha256/ab/cd/");
    let three = Integrity::from_hex("abcdef", Algorithm::Sha256).unwrap();
    assert_eq!(content_path("r", &three), "r/content-v2/sha256/ab/cd/ef");
}

#[test]
fn every_algorithm_has_its_own_directory() {
    let names = [
        (Algorithm::Sha512, "sha512"),
        (Algorithm::Sha384, "sha384"),
        (Algorithm::Sha256, "sha256"),
        (Algorithm::Sha1, "sha1"),
        (Algorithm::Xxh3, "xxh3"),
    ];
    for (algorithm, name) in names {
        assert_eq!(algorithm.name(), name);
        let sri = Integrity::from_hex("00112233", algorithm).unwrap();
        assert_eq!(content_path("r", &sri), format!("r/content-v2/{}/00/11/2233", name));
    }
}

#[test]
fn same_input_same_path() {
    let a = Integrity::from(b"some content");
    let b = Integrity::from(b"some content");
    assert_eq!(content_path("/cache", &a), content_path("/cache", &b));
    assert_eq!(content_path("/cache", &a), content_path("/cache", &a));
}

#[test]
fn different_digests_different_paths() {
    let a = Integrity::from(b"hello world");
    let b = Integrity::from(b"hello worle");
    assert_ne!(content_path("/cache", &a), content_path("/cache", &b));
    let sha1 = Integrity::from_hex("00112233", Algorithm::Sha1).unwrap();
    let sha256 = Integrity::from_hex("00112233", Algorithm::Sha256).unwrap();
    assert_ne!(content_path("/cache", &sha1), content_path("/cache", &sha256));
    let shifted = Integrity::from_hex("0011223300", Algorithm::Sha1).unwrap();
    assert_ne!(content_path("/cache", &sha1), content_path("/cache", &shifted));
}

#[test]
fn path_is_that_of_the_preferred_hash() {
    let weak = cacache::integrity::Hash { algorithm: Algorithm::Sha1, digest: vec![1, 2, 3] };
    let strong = cacache::integrity::Hash { algorithm: Algorithm::Sha512, digest: vec![4, 5, 6] };
    let sri = Integrity::from_hashes(vec![weak, strong]).unwrap();
    assert_eq!(content_path("r", &sri), "r/content-v2/sha512/04/05/06");
}
