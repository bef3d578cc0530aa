//! Reversible masking of a byte stream: every byte is combined by
//! exclusive-or with the byte of a password that repeats without end.
//!
//! This offers no confidentiality in the cryptographic sense. It only makes a
//! file unreadable at a glance, and applying it a second time with the same
//! password gives the file back.
//!
//! [`encode`] and [`decode`] are the same transform. They differ in the name
//! that they give the result when the caller names none. Neither touches a
//! file: each returns a [`Transform`], whose engine tells a driver what to
//! open, read and write. [`transform`] is a whole pass over bytes in memory.
//!
//! The file that a pass writes holds the transformed bytes and nothing else:
//! no header, no mark, no version. So any file can be decoded with any
//! password, and a wrong password shows only in what comes out.

pub mod cipher;
pub mod engine;
pub mod error;
pub mod keystream;
pub mod path;

pub use crate::engine::{Action, Engine, Event, CHUNK_SIZE};
pub use crate::error::Error;
pub use crate::keystream::Keystream;
pub use crate::path::Operation;

use crate::cipher::transformed;
use crate::engine::EngineState;
use crate::path::{effective_name, effective_output_path};
use vstd::prelude::*;
use vstd::slice::slice_subrange;
use vstd::string::*;

verus! {

/// A pass that is ready to run: where it reads, where it writes, and the
/// engine that decides its steps.
pub struct Transform {
    /// The path of the file to read.
    pub input_path: String,
    /// The path of the file to create or overwrite, and the path that the
    /// caller gets back when the pass is complete.
    pub output_path: String,
    /// The engine, with the request to open the input pending. It knows
    /// whether the two paths are one.
    pub engine: Engine,
}

/// Prepares a pass of `operation` over the file at `input_path` with
/// `password`.
///
/// The password is looked at first: an empty one is refused, and then there
/// is no pass and nothing for a driver to open. Otherwise the result goes to
/// `output_path`, or, where none is given, to the default of the operation.
/// Where that is the input path itself, the engine is told so, and has the
/// input taken into memory before the output is created.
pub fn prepare(
    operation: Operation,
    input_path: &str,
    password: &str,
    output_path: Option<&str>,
) -> (r: Result<Transform, Error>)
    ensures
        password@.len() == 0 ==> r == Err::<Transform, Error>(Error::EmptyPassword),
        password@.len() > 0 ==> r is Ok && r.unwrap().input_path@ == input_path@
            && r.unwrap().output_path@ == effective_name(operation, input_path@, output_path)
            && r.unwrap().engine@ == EngineState::initial(
            password.spec_bytes(),
            input_path@ == effective_name(operation, input_path@, output_path),
        ),
{
    let input = String::from_str(input_path);
    let output = effective_output_path(operation, input_path, output_path);
    let in_place = input == output;
    match Engine::new(password, in_place) {
        Err(error) => Err(error),
        Ok(engine) => Ok(Transform { input_path: input, output_path: output, engine }),
    }
}

/// Prepares the encoding of the file at `input_path` with `password`.
///
/// The result goes to `output_path`, or, where none is given, to the input
/// path with `.rxor` appended. An empty password is refused.
pub fn encode(input_path: &str, password: &str, output_path: Option<&str>) -> (r: Result<
    Transform,
    Error,
>)
    ensures
        password@.len() == 0 ==> r == Err::<Transform, Error>(Error::EmptyPassword),
        password@.len() > 0 ==> r is Ok && r.unwrap().input_path@ == input_path@
            && r.unwrap().output_path@ == effective_name(
            Operation::Encode,
            input_path@,
            output_path,
        ) && r.unwrap().engine@ == EngineState::initial(
            password.spec_bytes(),
            input_path@ == effective_name(Operation::Encode, input_path@, output_path),
        ),
{
    prepare(Operation::Encode, input_path, password, output_path)
}

/// Prepares the decoding of the file at `input_path` with `password`.
///
/// The result goes to `output_path`, or, where none is given, to the input
/// path without its ending `.rxor`. An input path that does not end so is
/// itself the default output path: the pass then writes the file that it
/// reads, and its engine is set up for that. An empty password is refused.
pub fn decode(input_path: &str, password: &str, output_path: Option<&str>) -> (r: Result<
    Transform,
    Error,
>)
    ensures
        password@.len() == 0 ==> r == Err::<Transform, Error>(Error::EmptyPassword),
        password@.len() > 0 ==> r is Ok && r.unwrap().input_path@ == input_path@
            && r.unwrap().output_path@ == effective_name(
            Operation::Decode,
            input_path@,
            output_path,
        ) && r.unwrap().engine@ == EngineState::initial(
            password.spec_bytes(),
            input_path@ == effective_name(Operation::Decode, input_path@, output_path),
        ),
{
    prepare(Operation::Decode, input_path, password, output_path)
}

/// A measure of the requests that falls with every step of a pass in which
/// nothing fails, except where a read brings bytes.
spec fn rank(action: Action) -> int {
    match action {
        Action::OpenInput => 5,
        Action::BufferInput => 4,
        Action::CreateOutput => 3,
        Action::Write => 2,
        Action::Read => 1,
        _ => 0,
    }
}

/// Transforms `data` with `password` in one pass, in memory.
///
/// The pass is driven as a pass over files is: the engine's requests are
/// carried out one by one, the reads in pieces of at most [`CHUNK_SIZE`]
/// bytes. The result is nevertheless the transform of `data` as a whole.
pub fn transform(data: &[u8], password: &str) -> (r: Result<Vec<u8>, Error>)
    ensures
        password@.len() == 0 ==> r == Err::<Vec<u8>, Error>(Error::EmptyPassword),
        password@.len() > 0 ==> r is Ok && r.unwrap()@ == transformed(
            data@,
            password.spec_bytes(),
        ),
        r is Ok ==> r.unwrap()@.len() == data@.len(),
{
    let mut engine = match Engine::new(password, false) {
        Err(error) => {
            return Err(error);
        },
        Ok(engine) => engine,
    };
    let total = data.len();
    let mut output: Vec<u8> = Vec::new();
    let mut chunk: Vec<u8> = Vec::new();
    let mut position: usize = 0;
    let mut request = engine.pending();
    loop
        invariant
            password@.len() > 0,
            total == data@.len(),
            position <= total,
            request == engine@.pending,
            !(request is Abort),
            engine@.consistent(),
            engine@.key == password.spec_bytes(),
            engine@.consumed == data@.subrange(0, position as int),
            engine@.produced == if request == Action::Write {
                output@ + chunk@
            } else {
                output@
            },
            request == Action::Finish ==> position == total,
        decreases total - position, rank(request),
    {
        match request {
            Action::OpenInput | Action::BufferInput | Action::CreateOutput => {},
            Action::Read => {
                let n = if total - position < CHUNK_SIZE {
                    total - position
                } else {
                    CHUNK_SIZE
                };
                chunk = vstd::slice::slice_to_vec(slice_subrange(data, position, position + n));
                assert(data@.subrange(0, position as int) + chunk@ =~= data@.subrange(
                    0,
                    position + n,
                ));
                position = position + n;
            },
            Action::Write => {
                output.append(&mut chunk);
            },
            Action::Finish => {
                assert(data@.subrange(0, total as int) =~= data@);
                return Ok(output);
            },
            Action::Abort(error) => {
                return Err(error);
            },
        }
        request = engine.step(Event::Done, chunk.as_mut_slice());
    }
}

} // verus!
