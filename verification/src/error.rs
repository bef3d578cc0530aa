//! The ways in which a transform can fail.

use vstd::prelude::*;
use vstd::string::*;

verus! {

/// Why a transform did not run to its end.
///
/// Every failure is handed to the caller as one of these values; none is a
/// panic.
#[derive(Clone, Copy, Debug, PartialEq, Eq, Structural)]
pub enum Error {
    /// The password holds no byte. This is found before any stream is opened.
    EmptyPassword,
    /// The input could not be opened for reading, or the output could not be
    /// created for writing.
    Open,
    /// A read or a write failed after both streams had been opened. The output
    /// may hold a part of the result.
    Stream,
}

impl Error {
    /// The words in which an error is told to a person.
    pub open spec fn text(self) -> Seq<char> {
        match self {
            Error::EmptyPassword => "The password cannot be empty"@,
            Error::Open => "The input could not be opened or the output could not be created"@,
            Error::Stream => "Reading or writing failed before the end of the input"@,
        }
    }

    /// The error in words.
    pub fn message(&self) -> (message: String)
        ensures
            message@ == self.text(),
    {
        match self {
            Error::EmptyPassword => String::from_str("The password cannot be empty"),
            Error::Open => String::from_str(
                "The input could not be opened or the output could not be created",
            ),
            Error::Stream => String::from_str(
                "Reading or writing failed before the end of the input",
            ),
        }
    }
}

} // verus!
