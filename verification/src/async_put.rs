//! Putting content into a cache without blocking: a handle takes the bytes,
//! and a commit publishes them and, only if they are what was declared,
//! has them indexed.

use crate::content::path::spec_content_path;
use crate::content::write::{
    accepted, AsyncWriter, AsyncWriterView, Operation, State, Step, WriterView,
};
use crate::errors::Error;
use crate::hasher::integrity_of;
use crate::index::{Entry, EntryView};
use crate::integrity::{valid, Algorithm, HashView, Integrity};
use crate::put::{PutOpts, PutOptsView};
use vstd::prelude::*;
use vstd::string::StringExecFns;

verus! {

/// Whether a declared digest admits content with the hash `actual`: one of
/// its hashes of its preferred algorithm is that hash.
pub open spec fn admits(expected: Seq<HashView>, actual: HashView) -> bool {
    exists|i: int|
        0 <= i < expected.len() && expected[i].algorithm == expected[0].algorithm
            && #[trigger] expected[i] == actual
}

/// What the check of content against the caller's declarations finds, for
/// content with the digest `sri` of which `written` bytes were taken: the
/// digest is looked at first, then the size.
pub open spec fn verdict(opts: PutOptsView, written: usize, sri: Seq<HashView>) -> Result<
    (),
    Error,
> {
    if opts.sri is Some && !admits(opts.sri.unwrap(), sri[0]) {
        Err(Error::IntegrityError)
    } else if opts.size is Some && opts.size.unwrap() != written {
        Err(Error::SizeError)
    } else {
        Ok(())
    }
}

/// How far a commit has come.
#[derive(Clone, Copy, Debug, PartialEq, Eq)]
pub enum Stage {
    /// The staged copy is to be moved to its canonical path.
    Publishing,
    /// The move failed; whether the content lies at the path all the same
    /// is to be found out.
    Probing,
    /// The content lies at its path and is what was declared; the index is
    /// to take the entry.
    Indexing,
    /// Nothing is left to do.
    Finished(Result<(), Error>),
}

/// What a commit asks of the one that runs it.
#[derive(Debug, PartialEq, Eq)]
pub enum Action {
    /// Move the staged copy to `path`, making the directories above it.
    Publish { path: String },
    /// Find out whether content lies at `path`.
    Probe { path: String },
    /// Have the index of the cache at `cache` take `entry`.
    Insert { cache: String, entry: Entry },
    /// Hand the caller this result: the digest of the content, or why
    /// there is no entry for it.
    Return(Result<Integrity, Error>),
}

/// What an [`Action`] is.
pub ghost enum ActionView {
    Publish { path: Seq<char> },
    Probe { path: Seq<char> },
    Insert { cache: Seq<char>, entry: EntryView },
    Return(Result<Seq<HashView>, Error>),
}

impl View for Action {
    type V = ActionView;

    open spec fn view(&self) -> ActionView {
        match self {
            Action::Publish { path } => ActionView::Publish { path: path@ },
            Action::Probe { path } => ActionView::Probe { path: path@ },
            Action::Insert { cache, entry } => ActionView::Insert { cache: cache@, entry: entry@ },
            Action::Return(Ok(sri)) => ActionView::Return(Ok(sri@)),
            Action::Return(Err(e)) => ActionView::Return(Err(*e)),
        }
    }
}

/// What a [`Commit`] is.
pub ghost struct CommitView {
    /// The root of the cache.
    pub cache: Seq<char>,
    /// The key under which the content is put.
    pub key: Seq<char>,
    /// The digest of the content.
    pub sri: Seq<HashView>,
    /// The canonical path of the content.
    pub path: Seq<char>,
    /// The number of bytes of the content.
    pub written: usize,
    /// What the caller declared.
    pub opts: PutOptsView,
    /// How far the commit has come.
    pub stage: Stage,
}

impl CommitView {
    /// The entry that the index is to take.
    pub open spec fn entry(self) -> EntryView {
        EntryView {
            key: self.key,
            integrity: self.sri,
            size: self.written,
            metadata: self.opts.metadata,
        }
    }

    /// The commit at another stage.
    pub open spec fn at(self, stage: Stage) -> CommitView {
        CommitView { stage, ..self }
    }

    /// The commit once the content lies at its path: the content is checked
    /// against what was declared, and only content that passes goes on to
    /// the index.
    pub open spec fn published(self) -> CommitView {
        match verdict(self.opts, self.written, self.sri) {
            Ok(_) => self.at(Stage::Indexing),
            Err(e) => self.at(Stage::Finished(Err(e))),
        }
    }

    /// What the commit asks for at its stage.
    pub open spec fn action(self) -> ActionView {
        match self.stage {
            Stage::Publishing => ActionView::Publish { path: self.path },
            Stage::Probing => ActionView::Probe { path: self.path },
            Stage::Indexing => ActionView::Insert { cache: self.cache, entry: self.entry() },
            Stage::Finished(Ok(_)) => ActionView::Return(Ok(self.sri)),
            Stage::Finished(Err(e)) => ActionView::Return(Err(e)),
        }
    }

    /// The commit after what it asked for has ended with `outcome`.
    ///
    /// A move that fails is no failure yet: content that lies at the path
    /// all the same is the same content, put there by another writer. A
    /// probe that finds nothing, and an index that does not take the entry,
    /// end the commit with their own error.
    pub open spec fn next(self, outcome: Result<(), Error>) -> CommitView {
        match (self.stage, outcome) {
            (Stage::Publishing, Ok(_)) => self.published(),
            (Stage::Publishing, Err(_)) => self.at(Stage::Probing),
            (Stage::Probing, Ok(_)) => self.published(),
            (Stage::Probing, Err(e)) => self.at(Stage::Finished(Err(e))),
            (Stage::Indexing, Ok(_)) => self.at(Stage::Finished(Ok(()))),
            (Stage::Indexing, Err(e)) => self.at(Stage::Finished(Err(e))),
            (Stage::Finished(_), _) => self,
        }
    }

    /// The commit after each of `outcomes` in turn.
    pub open spec fn run(self, outcomes: Seq<Result<(), Error>>) -> CommitView
        decreases outcomes.len(),
    {
        if outcomes.len() == 0 {
            self
        } else {
            self.run(outcomes.drop_last()).next(outcomes.last())
        }
    }
}

/// What an open handle ([`AsyncPut`]) is.
pub ghost struct AsyncPutView {
    /// The root of the cache.
    pub cache: Seq<char>,
    /// The key under which the content is put.
    pub key: Seq<char>,
    /// The number of bytes that the staged copy has taken.
    pub written: usize,
    /// The writer of the content.
    pub writer: AsyncWriterView,
    /// What the caller declared.
    pub opts: PutOptsView,
}

impl AsyncPutView {
    /// The handle that `opts` open for `key` in the cache at `cache`.
    pub open spec fn open(opts: PutOptsView, cache: Seq<char>, key: Seq<char>) -> AsyncPutView {
        AsyncPutView {
            cache,
            key,
            written: 0,
            writer: AsyncWriterView {
                writer: WriterView {
                    cache,
                    algorithm: opts.chosen_algorithm(),
                    data: Seq::<u8>::empty(),
                },
                chunk: Seq::<u8>::empty(),
                state: State::Idle,
            },
            opts,
        }
    }

    /// The handle with another writer.
    pub open spec fn with(self, writer: AsyncWriterView) -> AsyncPutView {
        AsyncPutView { writer, ..self }
    }

    /// The number of bytes that the operation under way adds to the count
    /// if it ends with `result`.
    pub open spec fn taken(self, result: Result<usize, Error>) -> nat {
        match self.writer.state {
            State::Busy(Operation::Write) => accepted(self.writer.chunk, result).len(),
            _ => 0,
        }
    }

    /// The handle after the operation under way has ended with `result`.
    pub open spec fn finished(self, result: Result<usize, Error>) -> AsyncPutView {
        AsyncPutView {
            written: (self.written + self.taken(result)) as usize,
            writer: self.writer.finished(result),
            ..self
        }
    }

    /// The commit of the handle: of all that the staged copy has taken,
    /// under the digest that these bytes have.
    pub open spec fn commit(self) -> CommitView {
        CommitView {
            cache: self.cache,
            key: self.key,
            sri: self.writer.writer.sri(),
            path: self.writer.writer.path(),
            written: self.written,
            opts: self.opts,
            stage: Stage::Publishing,
        }
    }
}

/// A handle on content that is being put into a cache. Nothing it takes is
/// in the store before it is committed.
pub struct AsyncPut {
    cache: String,
    key: String,
    written: usize,
    pub(crate) writer: AsyncWriter,
    opts: PutOpts,
}

impl View for AsyncPut {
    type V = AsyncPutView;

    closed spec fn view(&self) -> AsyncPutView {
        AsyncPutView {
            cache: self.cache@,
            key: self.key@,
            written: self.written,
            writer: self.writer@,
            opts: self.opts@,
        }
    }
}

impl PutOpts {
    /// Opens a handle for putting content under `key` into the cache at
    /// `cache`. The content will be hashed with the algorithm chosen, or
    /// with SHA-256 where none was.
    pub fn open_async(self, cache: &str, key: &str) -> (put: AsyncPut)
        ensures
            put@ == AsyncPutView::open(self@, cache@, key@),
    {
        let algorithm = match self.algorithm {
            Some(algorithm) => algorithm,
            None => Algorithm::Sha256,
        };
        AsyncPut {
            cache: String::from_str(cache),
            key: String::from_str(key),
            written: 0,
            writer: AsyncWriter::new(cache, algorithm),
            opts: self,
        }
    }
}

/// Whether the declared digest `expected` admits the content that `actual`
/// is the digest of.
pub fn admitted(expected: &Integrity, actual: &Integrity) -> (found: bool)
    ensures
        found == admits(expected@, actual@[0]),
{
    let algorithm = expected.pick_algorithm();
    let hashes = expected.hashes();
    let wanted = actual.preferred();
    let mut i: usize = 0;
    while i < hashes.len()
        invariant
            i <= hashes.len(),
            crate::integrity::views(hashes@) == expected@,
            valid(expected@),
            algorithm == expected@[0].algorithm,
            wanted@ == actual@[0],
            forall|j: int| 0 <= j < i ==> #[trigger] expected@[j] != wanted@,
        decreases hashes.len() - i,
    {
        assert(hashes@[i as int]@ == expected@[i as int]);
        if hashes[i].algorithm != algorithm {
            proof {
                assert forall|j: int|
                    0 <= j < expected@.len() && expected@[j].algorithm
                        == algorithm implies #[trigger] expected@[j] != wanted@ by {
                    if j >= i {
                        assert(expected@[0].algorithm.rank() <= expected@[i as int].algorithm.rank());
                        assert(expected@[i as int].algorithm.rank() <= expected@[j].algorithm.rank());
                    }
                }
            }
            return false;
        }
        if hashes[i].same(wanted) {
            assert(expected@[i as int] == wanted@);
            return true;
        }
        i += 1;
    }
    false
}

impl AsyncPut {
    /// The number of bytes that the staged copy has taken.
    pub fn written(&self) -> (written: usize)
        ensures
            written == self@.written,
    {
        self.written
    }

    /// Where the writer of the handle stands.
    pub fn state(&self) -> (state: State)
        ensures
            state == self@.writer.state,
    {
        self.writer.state()
    }

    /// The bytes that the write under way is to put into the staged copy.
    pub fn chunk(&self) -> (chunk: &[u8])
        ensures
            chunk@ == self@.writer.chunk,
    {
        self.writer.chunk()
    }

    /// Asks for `buf` to be written; the answer is the writer's.
    pub fn poll_write(&mut self, buf: &[u8]) -> (step: Step<usize>)
        ensures
            final(self)@ == old(self)@.with(old(self)@.writer.poll_write(buf@).0),
            step == old(self)@.writer.poll_write(buf@).1,
    {
        self.writer.poll_write(buf)
    }

    /// Asks for what was written to be flushed; the answer is the writer's.
    pub fn poll_flush(&mut self) -> (step: Step<()>)
        ensures
            final(self)@ == old(self)@.with(old(self)@.writer.poll_flush().0),
            step == old(self)@.writer.poll_flush().1,
    {
        self.writer.poll_flush()
    }

    /// Asks for the staged copy to be closed; the answer is the writer's.
    pub fn poll_close(&mut self) -> (step: Step<()>)
        ensures
            final(self)@ == old(self)@.with(old(self)@.writer.poll_close().0),
            step == old(self)@.writer.poll_close().1,
    {
        self.writer.poll_close()
    }

    /// Takes note of how the operation under way has ended. The bytes that a
    /// write put into the staged copy are added to the count; the count
    /// must have room for them.
    pub fn finish(&mut self, result: Result<usize, Error>)
        requires
            old(self)@.written + old(self)@.taken(result) <= usize::MAX,
        ensures
            final(self)@ == old(self)@.finished(result),
    {
        let count = self.writer.finish(result);
        self.written = self.written + count;
    }

    /// Ends the writing and begins the commit: the digest of the content is
    /// fixed, and with it the path at which the staged copy is to be
    /// published. A write whose end was never reported counts for nothing.
    pub fn commit(self) -> (commit: Commit)
        ensures
            commit@ == self@.commit(),
    {
        let (sri, path) = self.writer.close();
        Commit {
            cache: self.cache,
            key: self.key,
            sri,
            path,
            written: self.written,
            opts: self.opts,
            stage: Stage::Publishing,
        }
    }
}

/// A commit under way: the content has its digest, and step by step it is
/// published, checked and indexed.
pub struct Commit {
    cache: String,
    key: String,
    sri: Integrity,
    path: String,
    written: usize,
    opts: PutOpts,
    stage: Stage,
}

impl View for Commit {
    type V = CommitView;

    closed spec fn view(&self) -> CommitView {
        CommitView {
            cache: self.cache@,
            key: self.key@,
            sri: self.sri@,
            path: self.path@,
            written: self.written,
            opts: self.opts@,
            stage: self.stage,
        }
    }
}

impl Commit {
    /// Checks the content against what the caller declared: the digest
    /// first, then the size.
    fn check(&self) -> (found: Result<(), Error>)
        ensures
            found == verdict(self@.opts, self@.written, self@.sri),
    {
        if let Some(expected) = &self.opts.sri {
            if !admitted(expected, &self.sri) {
                return Err(Error::IntegrityError);
            }
        }
        if let Some(size) = self.opts.size {
            if size != self.written {
                return Err(Error::SizeError);
            }
        }
        Ok(())
    }

    /// How far the commit has come.
    pub fn stage(&self) -> (stage: Stage)
        ensures
            stage == self@.stage,
    {
        self.stage
    }

    /// What is to be done now.
    pub fn action(&self) -> (action: Action)
        ensures
            action@ == self@.action(),
    {
        match self.stage {
            Stage::Publishing => Action::Publish { path: self.path.clone() },
            Stage::Probing => Action::Probe { path: self.path.clone() },
            Stage::Indexing => Action::Insert {
                cache: self.cache.clone(),
                entry: Entry {
                    key: self.key.clone(),
                    integrity: self.sri.clone(),
                    size: self.written,
                    metadata: match &self.opts.metadata {
                        Some(text) => Some(text.clone()),
                        None => None,
                    },
                },
            },
            Stage::Finished(Ok(_)) => Action::Return(Ok(self.sri.clone())),
            Stage::Finished(Err(e)) => Action::Return(Err(e)),
        }
    }

    /// Takes note of how what was to be done has ended, and goes on.
    pub fn step(self, outcome: Result<(), Error>) -> (next: Commit)
        ensures
            next@ == self@.next(outcome),
    {
        let stage = match (self.stage, outcome) {
            (Stage::Publishing, Ok(_)) | (Stage::Probing, Ok(_)) => match self.check() {
                Ok(_) => Stage::Indexing,
                Err(e) => Stage::Finished(Err(e)),
            },
            (Stage::Publishing, Err(_)) => Stage::Probing,
            (Stage::Probing, Err(e)) => Stage::Finished(Err(e)),
            (Stage::Indexing, Ok(_)) => Stage::Finished(Ok(())),
            (Stage::Indexing, Err(e)) => Stage::Finished(Err(e)),
            (Stage::Finished(result), _) => Stage::Finished(result),
        };
        let mut next = self;
        next.stage = stage;
        next
    }
}

/// Puts `bytes` under `key` into the cache at `cache`, hashed with SHA-256:
/// the commit of a handle that was opened and has taken all of `bytes`.
pub fn data(cache: &str, key: &str, bytes: &[u8]) -> (commit: Commit)
    ensures
        commit@ == (CommitView {
            cache: cache@,
            key: key@,
            sri: integrity_of(Algorithm::Sha256, bytes@),
            path: spec_content_path(cache@, integrity_of(Algorithm::Sha256, bytes@)),
            written: bytes@.len() as usize,
            opts: PutOptsView { algorithm: Some(Algorithm::Sha256), ..PutOptsView::empty() },
            stage: Stage::Publishing,
        }),
{
    let mut writer = PutOpts::new().algorithm(Algorithm::Sha256).open_async(cache, key);
    let _ = writer.poll_write(bytes);
    assert(bytes@.take(bytes@.len() as int) =~= bytes@);
    assert(Seq::<u8>::empty() + bytes@ =~= bytes@);
    writer.finish(Ok(bytes.len()));
    writer.commit()
}

/// The handle that was opened with `opts` for `key` in the cache at `cache`
/// and has taken all of `bytes` in one write.
pub open spec fn handle_with(
    opts: PutOptsView,
    cache: Seq<char>,
    key: Seq<char>,
    bytes: Seq<u8>,
) -> AsyncPutView {
    let opened = AsyncPutView::open(opts, cache, key);
    opened.with(opened.writer.poll_write(bytes).0).finished(Ok(bytes.len() as usize))
}

/// A handle that has taken `bytes` in one write holds exactly these bytes,
/// and has counted them.
pub proof fn lemma_handle_with(opts: PutOptsView, cache: Seq<char>, key: Seq<char>, bytes: Seq<u8>)
    requires
        bytes.len() <= usize::MAX,
    ensures
        AsyncPutView::open(opts, cache, key).writer.poll_write(bytes).1 == Step::<usize>::Start(
            Operation::Write,
        ),
        handle_with(opts, cache, key, bytes).writer.writer.data == bytes,
        handle_with(opts, cache, key, bytes).written == bytes.len(),
        handle_with(opts, cache, key, bytes).commit() == (CommitView {
            cache,
            key,
            sri: integrity_of(opts.chosen_algorithm(), bytes),
            path: spec_content_path(cache, integrity_of(opts.chosen_algorithm(), bytes)),
            written: bytes.len() as usize,
            opts,
            stage: Stage::Publishing,
        }),
{
    assert(bytes.take(bytes.len() as int) =~= bytes);
    assert(Seq::<u8>::empty() + bytes =~= bytes);
}

/// Content for which nothing was declared is committed under its own
/// digest: the commit of a handle that has taken `bytes` publishes them at
/// the path of the digest of `bytes`, has them indexed under that digest
/// with their length, and returns that digest, as long as the storage and
/// the index do their part.
pub proof fn lemma_round_trip(opts: PutOptsView, cache: Seq<char>, key: Seq<char>, bytes: Seq<u8>)
    requires
        opts.sri is None,
        opts.size is None,
        bytes.len() <= usize::MAX,
    ensures
        ({
            let sri = integrity_of(opts.chosen_algorithm(), bytes);
            let commit = handle_with(opts, cache, key, bytes).commit();
            &&& commit.action() == ActionView::Publish { path: spec_content_path(cache, sri) }
            &&& commit.next(Ok(())).action() == ActionView::Insert {
                cache,
                entry: EntryView {
                    key,
                    integrity: sri,
                    size: bytes.len() as usize,
                    metadata: opts.metadata,
                },
            }
            &&& commit.next(Ok(())).next(Ok(())).action() == ActionView::Return(Ok(sri))
        }),
{
    lemma_handle_with(opts, cache, key, bytes);
}

/// Two handles on one cache that have taken the same bytes, hashed with
/// the same algorithm, commit to the same digest and publish at the same
/// path. The one whose move fails because the content of the other lies
/// there already goes on as if its own move had gone well, so both end
/// well.
pub proof fn lemma_publish_idempotent(
    opts1: PutOptsView,
    key1: Seq<char>,
    opts2: PutOptsView,
    key2: Seq<char>,
    cache: Seq<char>,
    bytes: Seq<u8>,
    failure: Error,
)
    requires
        opts1.chosen_algorithm() == opts2.chosen_algorithm(),
        bytes.len() <= usize::MAX,
    ensures
        ({
            let first = handle_with(opts1, cache, key1, bytes).commit();
            let second = handle_with(opts2, cache, key2, bytes).commit();
            &&& first.sri == second.sri
            &&& first.action() == second.action()
            &&& first.action() == ActionView::Publish { path: first.path }
            &&& second.next(Err(failure)).action() == ActionView::Probe { path: first.path }
            &&& second.next(Err(failure)).next(Ok(())) == second.next(Ok(()))
        }),
{
    lemma_handle_with(opts1, cache, key1, bytes);
    lemma_handle_with(opts2, cache, key2, bytes);
}

/// A commit that cannot pass the check never reaches the index.
proof fn lemma_never_indexed(commit: CommitView, outcomes: Seq<Result<(), Error>>)
    requires
        commit.stage == Stage::Publishing,
        verdict(commit.opts, commit.written, commit.sri) is Err,
    ensures
        commit.run(outcomes) == commit.at(commit.run(outcomes).stage),
        commit.run(outcomes).stage == Stage::Publishing || commit.run(outcomes).stage
            == Stage::Probing || (commit.run(outcomes).stage matches Stage::Finished(Err(_))),
    decreases outcomes.len(),
{
    if outcomes.len() > 0 {
        lemma_never_indexed(commit, outcomes.drop_last());
    }
}

/// The index is asked to take an entry only for content that lies at its
/// path and is what was declared: a commit stands before the index exactly
/// when the content has passed the check and either the move went well, or
/// it failed and the probe found the content there. The entry is then for
/// the digest of the content and for the number of its bytes.
pub proof fn lemma_indexed_only_when_published(
    commit: CommitView,
    outcomes: Seq<Result<(), Error>>,
)
    requires
        commit.stage == Stage::Publishing,
    ensures
        commit.run(outcomes).action() is Insert <==> verdict(
            commit.opts,
            commit.written,
            commit.sri,
        ) is Ok && ((outcomes.len() == 1 && outcomes[0] is Ok) || (outcomes.len() == 2
            && outcomes[0] is Err && outcomes[1] is Ok)),
        commit.run(outcomes).action() is Insert ==> commit.run(outcomes).action()
            == (ActionView::Insert { cache: commit.cache, entry: commit.entry() }),
{
    let n = outcomes.len() as int;
    assert(commit.run(outcomes.take(0)) == commit);
    if n >= 1 {
        assert(outcomes.take(1).drop_last() =~= outcomes.take(0));
        assert(commit.run(outcomes.take(1)) == commit.next(outcomes[0]));
    }
    if n >= 2 {
        assert(outcomes.take(2).drop_last() =~= outcomes.take(1));
        assert(commit.run(outcomes.take(2)) == commit.next(outcomes[0]).next(outcomes[1]));
    }
    if n >= 3 {
        assert(outcomes.take(3).drop_last() =~= outcomes.take(2));
        let third = commit.run(outcomes.take(3));
        assert(third == commit.run(outcomes.take(2)).next(outcomes[2]));
        assert(third.stage is Finished);
        lemma_finished_stays(commit, outcomes, 3);
    }
    assert(outcomes.take(n) =~= outcomes);
}

/// A commit that has ended stays as it is.
proof fn lemma_finished_stays(commit: CommitView, outcomes: Seq<Result<(), Error>>, k: int)
    requires
        0 <= k <= outcomes.len(),
        commit.run(outcomes.take(k)).stage is Finished,
    ensures
        commit.run(outcomes) == commit.run(outcomes.take(k)),
    decreases outcomes.len() - k,
{
    if k == outcomes.len() {
        assert(outcomes.take(k) =~= outcomes);
    } else {
        assert(outcomes.take(k + 1).drop_last() =~= outcomes.take(k));
        lemma_finished_stays(commit, outcomes, k + 1);
    }
}

/// Content that does not have the digest declared for it is not indexed:
/// whatever the storage answers, the commit never asks the index to take an
/// entry, and once the content lies at its path the commit ends with the
/// integrity error.
pub proof fn lemma_integrity_gate(commit: CommitView, outcomes: Seq<Result<(), Error>>)
    requires
        commit.stage == Stage::Publishing,
        commit.opts.sri is Some,
        !admits(commit.opts.sri.unwrap(), commit.sri[0]),
    ensures
        !(commit.run(outcomes).action() is Insert),
        !(commit.run(outcomes).action() matches ActionView::Return(Ok(_))),
        commit.next(Ok(())).action() == ActionView::Return(Err(Error::IntegrityError)),
        forall|failure: Error| #[trigger]
            commit.next(Err(failure)).next(Ok(())).action() == ActionView::Return(
                Err(Error::IntegrityError),
            ),
{
    lemma_never_indexed(commit, outcomes);
}

/// A digest declared for some bytes does not admit bytes with another hash.
pub proof fn lemma_other_content_not_admitted(
    algorithm: Algorithm,
    declared: Seq<u8>,
    written: Seq<u8>,
)
    requires
        crate::hasher::digest(algorithm, declared) != crate::hasher::digest(algorithm, written),
    ensures
        !admits(integrity_of(algorithm, declared), integrity_of(algorithm, written)[0]),
{
}

/// Content that does not have the size declared for it is not indexed:
/// whatever the storage answers, the commit never asks the index to take an
/// entry. Once the content lies at its path the commit ends with the size
/// error, unless the digest is wrong too, which is found first.
pub proof fn lemma_size_gate(commit: CommitView, outcomes: Seq<Result<(), Error>>)
    requires
        commit.stage == Stage::Publishing,
        commit.opts.size is Some,
        commit.opts.size.unwrap() != commit.written,
    ensures
        !(commit.run(outcomes).action() is Insert),
        !(commit.run(outcomes).action() matches ActionView::Return(Ok(_))),
        commit.opts.sri is None || admits(commit.opts.sri.unwrap(), commit.sri[0])
            ==> commit.next(Ok(())).action() == ActionView::Return(Err(Error::SizeError)),
        commit.opts.sri is None || admits(commit.opts.sri.unwrap(), commit.sri[0]) ==> forall|
            failure: Error,
        | #[trigger]
            commit.next(Err(failure)).next(Ok(())).action() == ActionView::Return(
                Err(Error::SizeError),
            ),
{
    lemma_never_indexed(commit, outcomes);
}

/// A handle for which the digest of some bytes was declared, and which has
/// taken bytes with another hash instead, commits to nothing: its content
/// is published under its own digest, the commit then ends with the
/// integrity error, and the index is never asked to take an entry.
pub proof fn lemma_integrity_gate_on_written(
    opts: PutOptsView,
    cache: Seq<char>,
    key: Seq<char>,
    declared: Seq<u8>,
    written: Seq<u8>,
)
    requires
        opts.sri == Some(integrity_of(opts.chosen_algorithm(), declared)),
        crate::hasher::digest(opts.chosen_algorithm(), declared) != crate::hasher::digest(
            opts.chosen_algorithm(),
            written,
        ),
        written.len() <= usize::MAX,
    ensures
        ({
            let commit = handle_with(opts, cache, key, written).commit();
            &&& commit.action() == ActionView::Publish {
                path: spec_content_path(cache, integrity_of(opts.chosen_algorithm(), written)),
            }
            &&& commit.next(Ok(())).action() == ActionView::Return(Err(Error::IntegrityError))
            &&& forall|outcomes: Seq<Result<(), Error>>|
                !(#[trigger] commit.run(outcomes).action() is Insert)
        }),
{
    lemma_handle_with(opts, cache, key, written);
    lemma_other_content_not_admitted(opts.chosen_algorithm(), declared, written);
    let commit = handle_with(opts, cache, key, written).commit();
    assert forall|outcomes: Seq<Result<(), Error>>|
        !(#[trigger] commit.run(outcomes).action() is Insert) by {
        lemma_integrity_gate(commit, outcomes);
    }
}

/// A handle for which a size was declared, and no digest, and which has
/// taken another number of bytes, commits to nothing: its content is
/// published, the commit then ends with the size error, and the index is
/// never asked to take an entry.
pub proof fn lemma_size_gate_on_written(
    opts: PutOptsView,
    cache: Seq<char>,
    key: Seq<char>,
    written: Seq<u8>,
)
    requires
        opts.sri is None,
        opts.size is Some,
        opts.size.unwrap() != written.len(),
        written.len() <= usize::MAX,
    ensures
        ({
            let commit = handle_with(opts, cache, key, written).commit();
            &&& commit.next(Ok(())).action() == ActionView::Return(Err(Error::SizeError))
            &&& forall|outcomes: Seq<Result<(), Error>>|
                !(#[trigger] commit.run(outcomes).action() is Insert)
        }),
{
    lemma_handle_with(opts, cache, key, written);
    let commit = handle_with(opts, cache, key, written).commit();
    assert forall|outcomes: Seq<Result<(), Error>>|
        !(#[trigger] commit.run(outcomes).action() is Insert) by {
        lemma_size_gate(commit, outcomes);
    }
}

} // verus!
