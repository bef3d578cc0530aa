//! The streaming engine: the decisions of one pass over a stream.
//!
//! The engine opens no file and moves no byte to or from one. At each moment
//! it has one request pending, an [`Action`]. A driver carries the request
//! out and reports how that went, an [`Event`]; the engine answers with its
//! next request. Between the two lies one scratch region, the chunk: the
//! driver fills it by reading, the engine transforms it in place, the driver
//! writes it out. So a stream of any length is worked through in constant
//! memory, and the keystream runs on across the chunks without a break.
//!
//! One case is set apart: a pass whose output is the file that it reads.
//! Creating the output empties that file, so the engine has the driver take
//! the whole input into memory first. Such a pass needs as much memory as the
//! file is long.

use vstd::prelude::*;
use vstd::string::*;
use crate::cipher::{lemma_offset_modulo, lemma_split, transformed, xor_chunk, xor_stream};
use crate::error::Error;
use crate::keystream::{lemma_encoding_is_empty_iff_text_is, Keystream};

verus! {

/// The number of bytes that a driver reads at most in one piece.
pub const CHUNK_SIZE: usize = 8192;

/// What the engine asks its driver to do.
#[derive(Clone, Copy, Debug, PartialEq, Eq, Structural)]
pub enum Action {
    /// Open the input for reading.
    OpenInput,
    /// Read the whole input into memory, and take from there what the reads
    /// that follow ask for.
    BufferInput,
    /// Create the output for writing, emptying it if it exists.
    CreateOutput,
    /// Read up to [`CHUNK_SIZE`] bytes of the input into the chunk, going on
    /// where the read before this one ended. No byte read means that the
    /// input has ended.
    Read,
    /// Write the whole chunk to the output.
    Write,
    /// Release both streams: the pass is complete.
    Finish,
    /// Release whatever is open: the pass has failed, for the reason given.
    Abort(Error),
}

/// How the pending request went.
#[derive(Clone, Copy, Debug, PartialEq, Eq, Structural)]
pub enum Event {
    /// It was carried out.
    Done,
    /// It could not be carried out.
    Failed,
}

/// The engine as a mathematical value.
pub struct EngineState {
    /// The password's bytes.
    pub key: Seq<u8>,
    /// Whether the pass writes the file that it reads.
    pub in_place: bool,
    /// All bytes of the input that the engine has been given so far.
    pub consumed: Seq<u8>,
    /// All bytes that the engine has handed out for writing so far.
    pub produced: Seq<u8>,
    /// The request that the driver is to carry out next.
    pub pending: Action,
}

impl EngineState {
    /// The engine before anything has happened.
    pub open spec fn initial(key: Seq<u8>, in_place: bool) -> EngineState {
        EngineState {
            key,
            in_place,
            consumed: Seq::empty(),
            produced: Seq::empty(),
            pending: Action::OpenInput,
        }
    }

    /// The number of bytes worked through so far. It counts on across the
    /// chunks and never starts again.
    pub open spec fn offset(self) -> nat {
        self.consumed.len()
    }

    /// Whether the pass is over, for better or worse.
    pub open spec fn settled(self) -> bool {
        self.pending is Finish || self.pending is Abort
    }

    /// Whether `event` hands the engine a piece of the input: a read was
    /// pending, it was carried out, and it brought at least one byte.
    pub open spec fn takes(self, event: Event, chunk: Seq<u8>) -> bool {
        self.pending == Action::Read && event == Event::Done && chunk.len() > 0
    }

    /// The error with which the pass ends when the pending request fails: a
    /// stream that cannot be opened is one thing, a stream that breaks off
    /// another. It is of use only while the pass is not over.
    pub open spec fn failure(self) -> Error {
        match self.pending {
            Action::OpenInput | Action::CreateOutput => Error::Open,
            _ => Error::Stream,
        }
    }

    /// The request that follows when `event` answers the pending one.
    pub open spec fn reaction(self, event: Event, chunk: Seq<u8>) -> Action {
        if self.settled() {
            self.pending
        } else if event == Event::Failed {
            Action::Abort(self.failure())
        } else {
            match self.pending {
                Action::OpenInput => if self.in_place {
                    Action::BufferInput
                } else {
                    Action::CreateOutput
                },
                Action::BufferInput => Action::CreateOutput,
                Action::CreateOutput => Action::Read,
                Action::Read => if chunk.len() == 0 {
                    Action::Finish
                } else {
                    Action::Write
                },
                Action::Write => Action::Read,
                settled => settled,
            }
        }
    }

    /// The chunk as the engine leaves it: transformed at the current offset
    /// if it is a piece of the input, and untouched otherwise.
    pub open spec fn emitted(self, event: Event, chunk: Seq<u8>) -> Seq<u8> {
        if self.takes(event, chunk) {
            xor_stream(chunk, self.key, self.offset() as int)
        } else {
            chunk
        }
    }

    /// The engine after `event` has answered the pending request.
    pub open spec fn step(self, event: Event, chunk: Seq<u8>) -> EngineState {
        EngineState {
            key: self.key,
            in_place: self.in_place,
            consumed: if self.takes(event, chunk) {
                self.consumed + chunk
            } else {
                self.consumed
            },
            produced: if self.takes(event, chunk) {
                self.produced + self.emitted(event, chunk)
            } else {
                self.produced
            },
            pending: self.reaction(event, chunk),
        }
    }

    /// The engine after a run of reports, each with the chunk as it stood
    /// when the report was made.
    pub open spec fn run(self, reports: Seq<(Event, Seq<u8>)>) -> EngineState
        decreases reports.len(),
    {
        if reports.len() == 0 {
            self
        } else {
            self.step(reports.first().0, reports.first().1).run(reports.drop_first())
        }
    }

    /// What holds of every engine at every moment: its key is not empty, and
    /// what it has handed out is the transform of what it has been given, as
    /// if the input had come in one piece.
    pub open spec fn consistent(self) -> bool {
        &&& self.key.len() > 0
        &&& self.produced == transformed(self.consumed, self.key)
    }
}

/// An engine that starts out is consistent.
pub proof fn lemma_initial_consistent(key: Seq<u8>, in_place: bool)
    requires
        key.len() > 0,
    ensures
        EngineState::initial(key, in_place).consistent(),
{
    assert(EngineState::initial(key, in_place).produced =~= transformed(Seq::empty(), key));
}

/// No step makes a consistent engine inconsistent, however the input is cut
/// into chunks.
pub proof fn lemma_step_consistent(state: EngineState, event: Event, chunk: Seq<u8>)
    requires
        state.consistent(),
    ensures
        state.step(event, chunk).consistent(),
{
    if state.takes(event, chunk) {
        lemma_split(state.consumed, chunk, state.key, 0);
    }
}

/// Whatever a driver reports, and in whatever order, the engine stays
/// consistent, and the key with which it started stays its key.
pub proof fn lemma_run_consistent(state: EngineState, reports: Seq<(Event, Seq<u8>)>)
    requires
        state.consistent(),
    ensures
        state.run(reports).consistent(),
        state.run(reports).key == state.key,
        state.run(reports).in_place == state.in_place,
    decreases reports.len(),
{
    if reports.len() > 0 {
        let next = state.step(reports.first().0, reports.first().1);
        lemma_step_consistent(state, reports.first().0, reports.first().1);
        lemma_run_consistent(next, reports.drop_first());
    }
}

/// The output is a function of the password and the input alone: two engines
/// with the same key that have been given the same bytes have handed out the
/// same bytes, whatever the chunks were.
pub proof fn lemma_deterministic(first: EngineState, second: EngineState)
    requires
        first.consistent(),
        second.consistent(),
        first.key == second.key,
        first.consumed == second.consumed,
    ensures
        first.produced == second.produced,
{
}

/// The engine hands out exactly as many bytes as it has been given.
pub proof fn lemma_produced_length(state: EngineState)
    requires
        state.consistent(),
    ensures
        state.produced.len() == state.consumed.len(),
{
}

/// The requests come in one order only. The output is created once the
/// input has been opened, and, where the pass writes the file that it reads,
/// not before the whole input is held in memory. A read follows the creation
/// of the output or a write, and a write follows a read that brought bytes.
pub proof fn lemma_order_of_requests(state: EngineState, event: Event, chunk: Seq<u8>)
    ensures
        state.step(event, chunk).pending == Action::BufferInput ==> state.in_place
            && state.pending == Action::OpenInput && event == Event::Done,
        state.step(event, chunk).pending == Action::CreateOutput ==> event == Event::Done && (
        state.pending == Action::BufferInput || (state.pending == Action::OpenInput
            && !state.in_place)),
        state.step(event, chunk).pending == Action::Read ==> event == Event::Done && (
        state.pending == Action::CreateOutput || state.pending == Action::Write),
        state.step(event, chunk).pending == Action::Write ==> event == Event::Done
            && state.pending == Action::Read && chunk.len() > 0,
{
}

/// A pass that is over stays over, and a failure ends it at once.
pub proof fn lemma_settled_for_good(state: EngineState, event: Event, chunk: Seq<u8>)
    ensures
        state.settled() ==> state.step(event, chunk) == state,
        !state.settled() && event == Event::Failed ==> state.step(event, chunk).pending
            == Action::Abort(state.failure()),
        state.step(event, chunk).pending is Finish && !state.settled() ==> state.pending
            == Action::Read && event == Event::Done && chunk.len() == 0,
{
}

/// The place in the stream at which an engine stands.
struct Position {
    /// The offset modulo the key's length. The offset itself has no bound,
    /// and the keystream depends on no more of it than this.
    cursor: usize,
    consumed: Ghost<Seq<u8>>,
    produced: Ghost<Seq<u8>>,
}

/// The engine of one pass.
pub struct Engine {
    keystream: Keystream,
    in_place: bool,
    position: Position,
    pending: Action,
}

impl View for Engine {
    type V = EngineState;

    closed spec fn view(&self) -> EngineState {
        EngineState {
            key: self.keystream@,
            in_place: self.in_place,
            consumed: self.position.consumed@,
            produced: self.position.produced@,
            pending: self.pending,
        }
    }
}

impl Engine {
    #[verifier::type_invariant]
    spec fn well_formed(&self) -> bool {
        &&& self@.consistent()
        &&& self.position.cursor == self@.offset() % self.keystream@.len()
    }

    /// An engine for a pass with `password`; `in_place` says whether the
    /// pass writes the file that it reads. An empty password is refused
    /// here, before any request has been made: nothing is opened for it.
    pub fn new(password: &str, in_place: bool) -> (r: Result<Engine, Error>)
        ensures
            password@.len() == 0 ==> r == Err::<Engine, Error>(Error::EmptyPassword),
            password@.len() > 0 ==> r is Ok && r.unwrap()@ == EngineState::initial(
                password.spec_bytes(),
                in_place,
            ),
    {
        match Keystream::new(password) {
            Err(error) => Err(error),
            Ok(keystream) => {
                proof {
                    lemma_encoding_is_empty_iff_text_is(password@);
                    lemma_initial_consistent(keystream@, in_place);
                }
                Ok(
                    Engine {
                        keystream,
                        in_place,
                        position: Position {
                            cursor: 0,
                            consumed: Ghost(Seq::empty()),
                            produced: Ghost(Seq::empty()),
                        },
                        pending: Action::OpenInput,
                    },
                )
            },
        }
    }

    /// The request that the driver is to carry out next.
    pub fn pending(&self) -> (action: Action)
        ensures
            action == self@.pending,
            self@.consistent(),
    {
        proof {
            use_type_invariant(self);
        }
        self.pending
    }

    /// Takes the driver's report on the pending request and returns the next
    /// request.
    ///
    /// When a read was pending and `event` is [`Event::Done`], `chunk` holds
    /// the bytes that were read, all of them and no others. If there are
    /// none, the input has ended and the pass is complete. Otherwise the
    /// engine transforms them in place and asks for them to be written. In
    /// every other case `chunk` is left as it is.
    pub fn step(&mut self, event: Event, chunk: &mut [u8]) -> (next: Action)
        ensures
            final(self)@ == old(self)@.step(event, old(chunk)@),
            final(chunk)@ == old(self)@.emitted(event, old(chunk)@),
            next == final(self)@.pending,
            final(self)@.consistent(),
    {
        proof {
            use_type_invariant(&*self);
        }
        let next = match self.pending {
            Action::Finish => Action::Finish,
            Action::Abort(error) => Action::Abort(error),
            Action::OpenInput => match event {
                Event::Done => if self.in_place {
                    Action::BufferInput
                } else {
                    Action::CreateOutput
                },
                Event::Failed => Action::Abort(Error::Open),
            },
            Action::BufferInput => match event {
                Event::Done => Action::CreateOutput,
                Event::Failed => Action::Abort(Error::Stream),
            },
            Action::CreateOutput => match event {
                Event::Done => Action::Read,
                Event::Failed => Action::Abort(Error::Open),
            },
            Action::Write => match event {
                Event::Done => Action::Read,
                Event::Failed => Action::Abort(Error::Stream),
            },
            Action::Read => match event {
                Event::Failed => Action::Abort(Error::Stream),
                Event::Done => if chunk.len() == 0 {
                    Action::Finish
                } else {
                    let ghost key = self.keystream@;
                    let ghost consumed = self.position.consumed@;
                    let ghost produced = self.position.produced@;
                    let ghost piece = chunk@;
                    let cursor = xor_chunk(chunk, &self.keystream, self.position.cursor);
                    proof {
                        let m = key.len() as int;
                        lemma_offset_modulo(piece, key, consumed.len() as int);
                        lemma_split(consumed, piece, key, 0);
                        vstd::arithmetic::div_mod::lemma_add_mod_noop(
                            consumed.len() as int,
                            piece.len() as int,
                            m,
                        );
                        vstd::arithmetic::div_mod::lemma_add_mod_noop(
                            consumed.len() as int % m,
                            piece.len() as int,
                            m,
                        );
                        vstd::arithmetic::div_mod::lemma_mod_twice(consumed.len() as int, m);
                    }
                    self.position = Position {
                        cursor,
                        consumed: Ghost(consumed + piece),
                        produced: Ghost(produced + chunk@),
                    };
                    Action::Write
                },
            },
        };
        self.pending = next;
        next
    }
}

} // verus!
