use cacache::async_put::{admitted, data, Action, Stage};
use cacache::content::path::content_path;
use cacache::content::write::{AsyncWriter, Operation, State, Step, Writer};
use cacache::errors::Error;
use cacache::index::Entry;
use cacache::integrity::{Algorithm, Integrity};
use cacache::put::PutOpts;

const HELLO_PATH: &str =
    "/c/content-v2/sha256/b9/4d/27b9934d3e08a52e52d7da7dabfac484efe37a5380ee9088f7ace2efcde9";

fn written(opts: PutOpts, key: &str, bytes: &[u8]) -> cacache::async_put::AsyncPut {
    let mut put = opts.open_async("/c", key);
    assert_eq!(put.poll_write(bytes), Step::Start(Operation::Write));
    put.finish(Ok(bytes.len()));
    assert_eq!(put.poll_write(bytes), Step::Ready(Ok(bytes.len())));
    put
}

#[test]
fn put_hello_world() {
    let commit = data("/c", "hello", b"hello world");
    assert_eq!(commit.stage(), Stage::Publishing);
    assert_eq!(commit.action(), Action::Publish { path: String::from(HELLO_PATH) });
    let commit = commit.step(Ok(()));
    assert_eq!(
        commit.action(),
        Action::Insert {
            cache: String::from("/c"),
            entry: Entry {
                key: String::from("hello"),
                integrity: Integrity::from(b"hello world"),
                size: 11,
                metadata: None,
            },
        }
    );
    let commit = commit.step(Ok(()));
    assert_eq!(commit.stage(), Stage::Finished(Ok(())));
    let sri = match commit.action() {
        Action::Return(Ok(sri)) => sri,
        other => panic!("{:?}", other),
    };
    assert_eq!(
        sri.to_hex(),
        (
            Algorithm::Sha256,
            String::from("b94d27b9934d3e08a52e52d7da7dabfac484efe37a5380ee9088f7ace2efcde9")
        )
    );
    assert_eq!(content_path("/c", &sri), HELLO_PATH);
}

#[test]
fn round_trip_returns_the_digest_of_the_bytes() {
    for bytes in [&b""[..], &b"a"[..], &b"hello world"[..], &[0u8; 1000][..]] {
        let commit = written(PutOpts::new(), "k", bytes).commit();
        let commit = commit.step(Ok(())).step(Ok(()));
        assert_eq!(commit.action(), Action::Return(Ok(Integrity::from(bytes))));
    }
}

#[test]
fn round_trip_with_the_chosen_algorithm() {
    let commit = written(PutOpts::new().algorithm(Algorithm::Sha1), "k", b"hello world").commit();
    let commit = commit.step(Ok(())).step(Ok(()));
    let expected = Integrity::from_hex("2aae6c35c94fcfb415dbe95f408b9ce91ee846ed", Algorithm::Sha1);
    assert_eq!(commit.action(), Action::Return(Ok(expected.unwrap())));
}

#[test]
fn bytes_written_in_pieces_are_one_content() {
    let mut put = PutOpts::new().open_async("/c", "k");
    for piece in [&b"hel"[..], &b"lo "[..], &b"world"[..]] {
        assert_eq!(put.poll_write(piece), Step::Start(Operation::Write));
        assert_eq!(put.chunk(), piece);
        put.finish(Ok(piece.len()));
        assert_eq!(put.poll_write(piece), Step::Ready(Ok(piece.len())));
    }
    assert_eq!(put.written(), 11);
    let commit = put.commit();
    assert_eq!(commit.action(), Action::Publish { path: String::from(HELLO_PATH) });
}

#[test]
fn only_the_bytes_taken_are_content() {
    let mut put = PutOpts::new().open_async("/c", "k");
    assert_eq!(put.poll_write(b"hello world!!!"), Step::Start(Operation::Write));
    put.finish(Ok(5));
    assert_eq!(put.poll_write(b"hello world!!!"), Step::Ready(Ok(5)));
    assert_eq!(put.poll_write(b" world!!!"), Step::Start(Operation::Write));
    put.finish(Ok(6));
    assert_eq!(put.poll_write(b" world!!!"), Step::Ready(Ok(6)));
    assert_eq!(put.written(), 11);
    assert_eq!(put.commit().action(), Action::Publish { path: String::from(HELLO_PATH) });
}

#[test]
fn both_writers_of_the_same_bytes_end_well() {
    let first = written(PutOpts::new(), "one", b"hello world").commit();
    let second = written(PutOpts::new(), "two", b"hello world").commit();
    assert_eq!(first.action(), second.action());
    let first = first.step(Ok(())).step(Ok(()));
    // The second cannot move its copy: the content lies there already.
    let second = second.step(Err(Error::IoError));
    assert_eq!(second.stage(), Stage::Probing);
    assert_eq!(second.action(), Action::Probe { path: String::from(HELLO_PATH) });
    let second = second.step(Ok(())).step(Ok(()));
    assert_eq!(first.action(), second.action());
    assert_eq!(second.action(), Action::Return(Ok(Integrity::from(b"hello world"))));
}

#[test]
fn a_move_that_fails_with_nothing_there_is_an_error() {
    let commit = data("/c", "k", b"hello world").step(Err(Error::IoError));
    let commit = commit.step(Err(Error::IoError));
    assert_eq!(commit.stage(), Stage::Finished(Err(Error::IoError)));
    assert_eq!(commit.action(), Action::Return(Err(Error::IoError)));
    // Nothing more happens.
    let commit = commit.step(Ok(()));
    assert_eq!(commit.action(), Action::Return(Err(Error::IoError)));
}

#[test]
fn integrity_mismatch_is_not_indexed() {
    let opts = PutOpts::new().integrity(Integrity::from(b"hello world"));
    let commit = written(opts, "k", b"goodbye world").commit();
    // The content is published all the same, under its own digest.
    let own = content_path("/c", &Integrity::from(b"goodbye world"));
    assert_eq!(commit.action(), Action::Publish { path: own });
    let commit = commit.step(Ok(()));
    assert_eq!(commit.stage(), Stage::Finished(Err(Error::IntegrityError)));
    assert_eq!(commit.action(), Action::Return(Err(Error::IntegrityError)));
    let commit = commit.step(Ok(()));
    assert_eq!(commit.action(), Action::Return(Err(Error::IntegrityError)));
}

#[test]
fn integrity_mismatch_after_a_probe() {
    let opts = PutOpts::new().integrity(Integrity::from(b"hello world"));
    let commit = written(opts, "k", b"goodbye world").commit();
    let commit = commit.step(Err(Error::IoError)).step(Ok(()));
    assert_eq!(commit.action(), Action::Return(Err(Error::IntegrityError)));
}

#[test]
fn matching_integrity_is_indexed() {
    let opts = PutOpts::new().integrity(Integrity::from(b"hello world")).size(11);
    let commit = written(opts, "k", b"hello world").commit().step(Ok(()));
    assert_eq!(commit.stage(), Stage::Indexing);
    let commit = commit.step(Ok(()));
    assert_eq!(commit.action(), Action::Return(Ok(Integrity::from(b"hello world"))));
}

#[test]
fn integrity_of_another_algorithm_does_not_match() {
    let sha1 = Integrity::from_hex("2aae6c35c94fcfb415dbe95f408b9ce91ee846ed", Algorithm::Sha1);
    let opts = PutOpts::new().integrity(sha1.unwrap());
    let commit = written(opts, "k", b"hello world").commit().step(Ok(()));
    assert_eq!(commit.action(), Action::Return(Err(Error::IntegrityError)));
}

#[test]
fn only_hashes_of_the_preferred_algorithm_decide() {
    let actual = Integrity::from(b"hello world");
    let good = actual.preferred().clone();
    let other = Integrity::from(b"other").preferred().clone();
    let strong = cacache::integrity::Hash { algorithm: Algorithm::Sha512, digest: vec![0; 64] };

    let several = Integrity::from_hashes(vec![other.clone(), good.clone()]).unwrap();
    assert!(admitted(&several, &actual));
    let none = Integrity::from_hashes(vec![other.clone()]).unwrap();
    assert!(!admitted(&none, &actual));
    // A hash of a preferred algorithm is there: the weaker ones do not count.
    let shadowed = Integrity::from_hashes(vec![good, strong]).unwrap();
    assert!(!admitted(&shadowed, &actual));
}

#[test]
fn size_mismatch_is_not_indexed() {
    for declared in [0, 10, 12] {
        let commit = written(PutOpts::new().size(declared), "k", b"hello world").commit();
        let commit = commit.step(Ok(()));
        assert_eq!(commit.stage(), Stage::Finished(Err(Error::SizeError)));
        assert_eq!(commit.action(), Action::Return(Err(Error::SizeError)));
    }
}

#[test]
fn matching_size_is_indexed() {
    let commit = written(PutOpts::new().size(11), "k", b"hello world").commit().step(Ok(()));
    assert_eq!(commit.stage(), Stage::Indexing);
}

#[test]
fn integrity_is_checked_before_size() {
    let opts = PutOpts::new().integrity(Integrity::from(b"hello world")).size(3);
    let commit = written(opts, "k", b"goodbye world").commit().step(Ok(()));
    assert_eq!(commit.action(), Action::Return(Err(Error::IntegrityError)));
}

#[test]
fn index_failure_is_handed_on() {
    let commit = data("/c", "k", b"hello world").step(Ok(())).step(Err(Error::IndexError));
    assert_eq!(commit.action(), Action::Return(Err(Error::IndexError)));
    let commit = data("/c", "k", b"hello world").step(Ok(())).step(Err(Error::IoError));
    assert_eq!(commit.action(), Action::Return(Err(Error::IoError)));
}

#[test]
fn metadata_goes_to_the_index() {
    let opts = PutOpts::new().metadata(String::from("{\"a\":1}"));
    let commit = written(opts, "k", b"x").commit().step(Ok(()));
    match commit.action() {
        Action::Insert { cache, entry } => {
            assert_eq!(cache, "/c");
            assert_eq!(entry.key, "k");
            assert_eq!(entry.size, 1);
            assert_eq!(entry.metadata, Some(String::from("{\"a\":1}")));
            assert_eq!(entry.integrity, Integrity::from(b"x"));
        }
        other => panic!("{:?}", other),
    }
}

#[test]
fn abandoned_handle_asks_for_nothing_but_staging() {
    let mut put = PutOpts::new().open_async("/c", "k");
    assert_eq!(put.poll_write(b"hello world"), Step::Start(Operation::Write));
    put.finish(Ok(11));
    assert_eq!(put.poll_flush(), Step::Start(Operation::Flush));
    put.finish(Ok(0));
    assert_eq!(put.poll_flush(), Step::Ready(Ok(())));
    assert_eq!(put.state(), State::Idle);
    drop(put);
}

#[test]
fn writer_waits_while_an_operation_is_under_way() {
    let mut writer = AsyncWriter::new("/c", Algorithm::Sha256);
    assert_eq!(writer.state(), State::Idle);
    assert_eq!(writer.poll_write(b"abc"), Step::Start(Operation::Write));
    assert_eq!(writer.state(), State::Busy(Operation::Write));
    assert_eq!(writer.chunk(), b"abc");
    assert_eq!(writer.poll_write(b"abc"), Step::Wait);
    assert_eq!(writer.poll_flush(), Step::Wait);
    assert_eq!(writer.poll_close(), Step::Wait);
    assert_eq!(writer.finish(Ok(2)), 2);
    assert_eq!(writer.state(), State::Done(Operation::Write, Ok(2)));
    assert_eq!(writer.poll_write(b"abc"), Step::Ready(Ok(2)));
    assert_eq!(writer.state(), State::Idle);
    let (sri, path) = writer.close();
    assert_eq!(sri, Integrity::from(b"ab"));
    assert_eq!(path, content_path("/c", &sri));
}

#[test]
fn writer_hands_on_a_failed_write() {
    let mut writer = AsyncWriter::new("/c", Algorithm::Sha256);
    assert_eq!(writer.poll_write(b"abc"), Step::Start(Operation::Write));
    assert_eq!(writer.finish(Err(Error::IoError)), 0);
    assert_eq!(writer.poll_write(b"abc"), Step::Ready(Err(Error::IoError)));
    assert_eq!(writer.poll_write(b"abc"), Step::Start(Operation::Write));
    assert_eq!(writer.finish(Ok(3)), 3);
    assert_eq!(writer.close().0, Integrity::from(b"abc"));
}

#[test]
fn writer_starts_again_when_the_count_does_not_fit() {
    let mut writer = AsyncWriter::new("/c", Algorithm::Sha256);
    assert_eq!(writer.poll_write(b"abc"), Step::Start(Operation::Write));
    // More than was given: nothing was taken.
    assert_eq!(writer.finish(Ok(4)), 0);
    assert_eq!(writer.poll_write(b"abcdef"), Step::Start(Operation::Write));
    assert_eq!(writer.chunk(), b"abcdef");
    assert_eq!(writer.finish(Ok(6)), 6);
    // More than the caller now offers: the write is started again.
    assert_eq!(writer.poll_write(b"ab"), Step::Start(Operation::Write));
    assert_eq!(writer.finish(Ok(2)), 2);
    assert_eq!(writer.poll_write(b"ab"), Step::Ready(Ok(2)));
    assert_eq!(writer.close().0, Integrity::from(b"abcdefab"));
}

#[test]
fn writer_flushes_and_closes() {
    let mut writer = AsyncWriter::new("/c", Algorithm::Sha256);
    assert_eq!(writer.poll_flush(), Step::Start(Operation::Flush));
    assert_eq!(writer.finish(Err(Error::IoError)), 0);
    assert_eq!(writer.poll_flush(), Step::Ready(Err(Error::IoError)));
    assert_eq!(writer.poll_flush(), Step::Start(Operation::Flush));
    assert_eq!(writer.finish(Ok(0)), 0);
    // A write discards the end of the flush that nobody asked for.
    assert_eq!(writer.poll_write(b"x"), Step::Start(Operation::Write));
    assert_eq!(writer.finish(Ok(1)), 1);
    assert_eq!(writer.poll_write(b"x"), Step::Ready(Ok(1)));

    assert_eq!(writer.poll_close(), Step::Start(Operation::Close));
    assert_eq!(writer.finish(Err(Error::IoError)), 0);
    assert_eq!(writer.poll_close(), Step::Ready(Err(Error::IoError)));
    assert_eq!(writer.poll_close(), Step::Start(Operation::Close));
    assert_eq!(writer.finish(Ok(0)), 0);
    assert_eq!(writer.state(), State::Closed);
    assert_eq!(writer.poll_close(), Step::Ready(Ok(())));
    assert_eq!(writer.poll_flush(), Step::Ready(Ok(())));
    assert_eq!(writer.poll_write(b"y"), Step::Ready(Err(Error::IoError)));
    assert_eq!(writer.close().0, Integrity::from(b"x"));
}

#[test]
fn finish_with_nothing_under_way_changes_nothing() {
    let mut writer = AsyncWriter::new("/c", Algorithm::Sha256);
    assert_eq!(writer.finish(Ok(3)), 0);
    assert_eq!(writer.state(), State::Idle);
    assert_eq!(writer.close().0, Integrity::from(b""));
}

#[test]
fn blocking_writer_names_what_it_wrote() {
    let mut writer = Writer::new("/c", Algorithm::Sha256);
    writer.write(b"hello ");
    writer.write(b"world");
    let (sri, path) = writer.close();
    assert_eq!(sri, Integrity::from(b"hello world"));
    assert_eq!(path, HELLO_PATH);
}

#[test]
fn options_default_to_sha256() {
    let opts = PutOpts::new();
    assert_eq!(opts.algorithm, None);
    assert_eq!(opts.sri, None);
    assert_eq!(opts.size, None);
    assert_eq!(opts.metadata, None);
    let opts = opts.algorithm(Algorithm::Sha512).size(4);
    assert_eq!(opts.algorithm, Some(Algorithm::Sha512));
    assert_eq!(opts.size, Some(4));
}
