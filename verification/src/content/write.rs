//! Writing content: the bytes are hashed as the staged copy takes them, and
//! closing the writer says what they are called and where they belong.

use crate::content::path::{content_path, spec_content_path};
use crate::errors::Error;
use crate::hasher::{integrity_of, Hasher};
use crate::integrity::{Algorithm, HashView, Integrity};
use vstd::prelude::*;
use vstd::string::StringExecFns;

verus! {

/// A writer of content into one cache. It keeps no bytes: it hashes what the
/// staged copy has taken.
pub struct Writer {
    cache: String,
    hasher: Hasher,
}

/// What a [`Writer`] is.
pub ghost struct WriterView {
    /// The root of the cache.
    pub cache: Seq<char>,
    /// The algorithm that hashes the content.
    pub algorithm: Algorithm,
    /// All the bytes written so far.
    pub data: Seq<u8>,
}

impl WriterView {
    /// The digest of what was written.
    pub open spec fn sri(self) -> Seq<HashView> {
        integrity_of(self.algorithm, self.data)
    }

    /// Where what was written belongs.
    pub open spec fn path(self) -> Seq<char> {
        spec_content_path(self.cache, self.sri())
    }
}

impl View for Writer {
    type V = WriterView;

    closed spec fn view(&self) -> WriterView {
        WriterView {
            cache: self.cache@,
            algorithm: self.hasher@.algorithm,
            data: self.hasher@.input,
        }
    }
}

impl Writer {
    /// A writer into the cache at `cache` that has written nothing yet.
    pub fn new(cache: &str, algorithm: Algorithm) -> (writer: Writer)
        ensures
            writer@ == (WriterView { cache: cache@, algorithm, data: Seq::<u8>::empty() }),
    {
        Writer { cache: String::from_str(cache), hasher: Hasher::new(algorithm) }
    }

    /// Takes note of bytes that the staged copy has taken.
    pub fn write(&mut self, accepted: &[u8])
        ensures
            final(self)@ == (WriterView { data: old(self)@.data + accepted@, ..old(self)@ }),
    {
        self.hasher.input(accepted);
    }

    /// Ends the writing: the digest of all that was written, and the
    /// canonical path at which the staged copy is to be published.
    pub fn close(self) -> (named: (Integrity, String))
        ensures
            named.0@ == self@.sri(),
            named.1@ == self@.path(),
    {
        let sri = self.hasher.result();
        let path = content_path(self.cache.as_str(), &sri);
        (sri, path)
    }
}

/// The operations on the staged copy that may take their time.
#[derive(Clone, Copy, Debug, PartialEq, Eq, Structural)]
pub enum Operation {
    Write,
    Flush,
    Close,
}

/// Where a non-blocking writer stands.
#[derive(Clone, Copy, Debug, PartialEq, Eq)]
pub enum State {
    /// Nothing is under way and nothing waits to be told.
    Idle,
    /// The operation is under way on the staged copy.
    Busy(Operation),
    /// The operation has ended, and nobody has been told yet how; for a
    /// write, the number is that of the bytes the staged copy took.
    Done(Operation, Result<usize, Error>),
    /// The staged copy has been closed.
    Closed,
}

/// What a poll of a non-blocking writer answers.
#[derive(Debug, PartialEq, Eq)]
pub enum Step<T> {
    /// The operation has ended, thus.
    Ready(Result<T, Error>),
    /// The operation is to be started on the staged copy, and its end
    /// reported; until then the answer to the caller is "not ready".
    Start(Operation),
    /// An operation is under way; the answer to the caller is "not ready".
    Wait,
}

/// What a non-blocking [`AsyncWriter`] is.
pub ghost struct AsyncWriterView {
    /// What was written so far.
    pub writer: WriterView,
    /// The bytes of the write that is under way, or of the last one.
    pub chunk: Seq<u8>,
    /// Where the writer stands.
    pub state: State,
}

/// The bytes of `chunk` that a write took which ended with `result`: as many
/// as it says, the first ones; none where it failed, or claims more than
/// there were.
pub open spec fn accepted(chunk: Seq<u8>, result: Result<usize, Error>) -> Seq<u8> {
    match result {
        Ok(n) => if n <= chunk.len() {
            chunk.take(n as int)
        } else {
            Seq::<u8>::empty()
        },
        Err(_) => Seq::<u8>::empty(),
    }
}

impl AsyncWriterView {
    /// The writer once `operation` has been started, on `chunk`.
    pub open spec fn started(self, operation: Operation, chunk: Seq<u8>) -> AsyncWriterView {
        AsyncWriterView { state: State::Busy(operation), chunk, ..self }
    }

    /// The writer with nothing under way.
    pub open spec fn idle(self) -> AsyncWriterView {
        AsyncWriterView { state: State::Idle, ..self }
    }

    /// A poll for writing `buf`: the writer after it, and the answer.
    ///
    /// A closed writer fails. While an operation is under way the answer is
    /// to wait. The end of a write is told once, if the count fits both the
    /// bytes that were under way and `buf`. In every other case `buf` is
    /// kept and a write of it is to be started.
    pub open spec fn poll_write(self, buf: Seq<u8>) -> (AsyncWriterView, Step<usize>) {
        match self.state {
            State::Closed => (self, Step::Ready(Err(Error::IoError))),
            State::Busy(_) => (self, Step::Wait),
            State::Done(Operation::Write, Err(e)) => (self.idle(), Step::Ready(Err(e))),
            State::Done(Operation::Write, Ok(n)) => if n <= self.chunk.len() && n <= buf.len() {
                (self.idle(), Step::Ready(Ok(n)))
            } else {
                (self.started(Operation::Write, buf), Step::Start(Operation::Write))
            },
            _ => (self.started(Operation::Write, buf), Step::Start(Operation::Write)),
        }
    }

    /// A poll for flushing: the writer after it, and the answer.
    pub open spec fn poll_flush(self) -> (AsyncWriterView, Step<()>) {
        match self.state {
            State::Closed => (self, Step::Ready(Ok(()))),
            State::Busy(_) => (self, Step::Wait),
            State::Done(Operation::Flush, Err(e)) => (self.idle(), Step::Ready(Err(e))),
            State::Done(Operation::Flush, Ok(_)) => (self.idle(), Step::Ready(Ok(()))),
            _ => (self.started(Operation::Flush, self.chunk), Step::Start(Operation::Flush)),
        }
    }

    /// A poll for closing the staged copy: the writer after it, and the
    /// answer.
    pub open spec fn poll_close(self) -> (AsyncWriterView, Step<()>) {
        match self.state {
            State::Closed => (self, Step::Ready(Ok(()))),
            State::Busy(_) => (self, Step::Wait),
            State::Done(Operation::Close, Err(e)) => (self.idle(), Step::Ready(Err(e))),
            _ => (self.started(Operation::Close, self.chunk), Step::Start(Operation::Close)),
        }
    }

    /// The writer after the operation under way has ended with `result`. A
    /// write adds the bytes that were taken to what was written; a close
    /// that went well closes the writer. Where nothing is under way, nothing
    /// changes.
    pub open spec fn finished(self, result: Result<usize, Error>) -> AsyncWriterView {
        match self.state {
            State::Busy(Operation::Write) => AsyncWriterView {
                writer: WriterView {
                    data: self.writer.data + accepted(self.chunk, result),
                    ..self.writer
                },
                state: State::Done(Operation::Write, result),
                ..self
            },
            State::Busy(Operation::Close) => if result is Ok {
                AsyncWriterView { state: State::Closed, ..self }
            } else {
                AsyncWriterView { state: State::Done(Operation::Close, result), ..self }
            },
            State::Busy(operation) => AsyncWriterView {
                state: State::Done(operation, result),
                ..self
            },
            _ => self,
        }
    }
}

/// A poll takes no bytes: what was written changes only when a write is
/// reported to have ended, and then by the bytes that the staged copy took.
pub proof fn lemma_polls_take_nothing(writer: AsyncWriterView, buf: Seq<u8>)
    ensures
        writer.poll_write(buf).0.writer == writer.writer,
        writer.poll_flush().0.writer == writer.writer,
        writer.poll_close().0.writer == writer.writer,
        writer.poll_write(buf).1 is Wait ==> writer.poll_write(buf).0 == writer,
        writer.poll_flush().1 is Wait ==> writer.poll_flush().0 == writer,
        writer.poll_close().1 is Wait ==> writer.poll_close().0 == writer,
{
}

/// A writer of content that never blocks: every operation on the staged
/// copy is handed to the caller to run, one at a time, and polled for.
pub struct AsyncWriter {
    writer: Writer,
    chunk: Vec<u8>,
    state: State,
}

impl View for AsyncWriter {
    type V = AsyncWriterView;

    closed spec fn view(&self) -> AsyncWriterView {
        AsyncWriterView { writer: self.writer@, chunk: self.chunk@, state: self.state }
    }
}

impl AsyncWriter {
    /// A writer into the cache at `cache` that has written nothing yet.
    pub fn new(cache: &str, algorithm: Algorithm) -> (writer: AsyncWriter)
        ensures
            writer@ == (AsyncWriterView {
                writer: WriterView { cache: cache@, algorithm, data: Seq::<u8>::empty() },
                chunk: Seq::<u8>::empty(),
                state: State::Idle,
            }),
    {
        AsyncWriter { writer: Writer::new(cache, algorithm), chunk: Vec::new(), state: State::Idle }
    }

    /// Where the writer stands.
    pub fn state(&self) -> (state: State)
        ensures
            state == self@.state,
    {
        self.state
    }

    /// The bytes that the write under way is to put into the staged copy.
    pub fn chunk(&self) -> (chunk: &[u8])
        ensures
            chunk@ == self@.chunk,
    {
        self.chunk.as_slice()
    }

    /// Asks for `buf` to be written.
    pub fn poll_write(&mut self, buf: &[u8]) -> (step: Step<usize>)
        ensures
            (final(self)@, step) == old(self)@.poll_write(buf@),
    {
        match self.state {
            State::Closed => Step::Ready(Err(Error::IoError)),
            State::Busy(_) => Step::Wait,
            State::Done(Operation::Write, Err(e)) => {
                self.state = State::Idle;
                Step::Ready(Err(e))
            },
            State::Done(Operation::Write, Ok(n)) => {
                if n <= self.chunk.len() && n <= buf.len() {
                    self.state = State::Idle;
                    Step::Ready(Ok(n))
                } else {
                    self.chunk = vstd::slice::slice_to_vec(buf);
                    self.state = State::Busy(Operation::Write);
                    Step::Start(Operation::Write)
                }
            },
            _ => {
                self.chunk = vstd::slice::slice_to_vec(buf);
                self.state = State::Busy(Operation::Write);
                Step::Start(Operation::Write)
            },
        }
    }

    /// Asks for what was written to be flushed.
    pub fn poll_flush(&mut self) -> (step: Step<()>)
        ensures
            (final(self)@, step) == old(self)@.poll_flush(),
    {
        match self.state {
            State::Closed => Step::Ready(Ok(())),
            State::Busy(_) => Step::Wait,
            State::Done(Operation::Flush, Err(e)) => {
                self.state = State::Idle;
                Step::Ready(Err(e))
            },
            State::Done(Operation::Flush, Ok(_)) => {
                self.state = State::Idle;
                Step::Ready(Ok(()))
            },
            _ => {
                self.state = State::Busy(Operation::Flush);
                Step::Start(Operation::Flush)
            },
        }
    }

    /// Asks for the staged copy to be closed.
    pub fn poll_close(&mut self) -> (step: Step<()>)
        ensures
            (final(self)@, step) == old(self)@.poll_close(),
    {
        match self.state {
            State::Closed => Step::Ready(Ok(())),
            State::Busy(_) => Step::Wait,
            State::Done(Operation::Close, Err(e)) => {
                self.state = State::Idle;
                Step::Ready(Err(e))
            },
            _ => {
                self.state = State::Busy(Operation::Close);
                Step::Start(Operation::Close)
            },
        }
    }

    /// Takes note of how the operation under way has ended, and says how
    /// many bytes were written by it.
    pub fn finish(&mut self, result: Result<usize, Error>) -> (count: usize)
        ensures
            final(self)@ == old(self)@.finished(result),
            final(self)@.writer.data.len() == old(self)@.writer.data.len() + count,
    {
        match self.state {
            State::Busy(Operation::Write) => {
                self.state = State::Done(Operation::Write, result);
                match result {
                    Ok(n) => {
                        if n <= self.chunk.len() {
                            let taken = vstd::slice::slice_subrange(self.chunk.as_slice(), 0, n);
                            self.writer.write(taken);
                            n
                        } else {
                            assert(self@.writer.data + Seq::<u8>::empty() =~= self@.writer.data);
                            0
                        }
                    },
                    Err(_) => {
                        assert(self@.writer.data + Seq::<u8>::empty() =~= self@.writer.data);
                        0
                    },
                }
            },
            State::Busy(Operation::Close) => {
                self.state = match result {
                    Ok(_) => State::Closed,
                    Err(_) => State::Done(Operation::Close, result),
                };
                0
            },
            State::Busy(operation) => {
                self.state = State::Done(operation, result);
                0
            },
            _ => 0,
        }
    }

    /// Ends the writing: the digest of all that was written, and the
    /// canonical path at which the staged copy is to be published. A write
    /// whose end was never reported counts for nothing.
    pub fn close(self) -> (named: (Integrity, String))
        ensures
            named.0@ == self@.writer.sri(),
            named.1@ == self@.writer.path(),
    {
        self.writer.close()
    }
}

} // verus!
