//! Where the result goes when the caller names no output path.
//!
//! Encoding appends a fixed suffix to the input path. Decoding removes that
//! suffix where the input path ends with it, and otherwise leaves the path as
//! it is. This naming is all that tells the two operations apart.

use vstd::prelude::*;
use vstd::string::*;

verus! {

/// The two operations. Both run the same transform; they differ in the name
/// that they give the result by default.
#[derive(Clone, Copy, Debug, PartialEq, Eq, Structural)]
pub enum Operation {
    /// Masks a file. By default the result is named after the input, with
    /// the suffix appended.
    Encode,
    /// Gives a masked file back. By default the result is named after the
    /// input, without the suffix.
    Decode,
}

/// The suffix that marks an encoded file: `.rxor`.
pub open spec fn suffix() -> Seq<char> {
    seq!['.', 'r', 'x', 'o', 'r']
}

/// Whether `path` ends with the suffix.
pub open spec fn has_suffix(path: Seq<char>) -> bool {
    path.len() >= suffix().len() && path.subrange(path.len() - suffix().len(), path.len() as int)
        == suffix()
}

/// The default output path of an encoding: the input path with the suffix
/// appended. Nothing of the input path is removed or replaced.
pub open spec fn encoded_name(input_path: Seq<char>) -> Seq<char> {
    input_path + suffix()
}

/// The default output path of a decoding: the input path without the suffix
/// if it ends with it, and the input path itself if it does not.
pub open spec fn decoded_name(input_path: Seq<char>) -> Seq<char> {
    if has_suffix(input_path) {
        input_path.subrange(0, input_path.len() - suffix().len())
    } else {
        input_path
    }
}

/// The default output path of `operation` on `input_path`.
pub open spec fn default_name(operation: Operation, input_path: Seq<char>) -> Seq<char> {
    match operation {
        Operation::Encode => encoded_name(input_path),
        Operation::Decode => decoded_name(input_path),
    }
}

/// The path to which a call writes: the one the caller chose, or else the
/// default of the operation.
pub open spec fn effective_name(
    operation: Operation,
    input_path: Seq<char>,
    chosen: Option<&str>,
) -> Seq<char> {
    match chosen {
        Some(path) => path@,
        None => default_name(operation, input_path),
    }
}

/// The default name of a decoding undoes the default name of an encoding.
pub proof fn lemma_decoded_name_of_encoded_name(input_path: Seq<char>)
    ensures
        has_suffix(encoded_name(input_path)),
        decoded_name(encoded_name(input_path)) == input_path,
{
    let encoded = encoded_name(input_path);
    assert(encoded.subrange(encoded.len() - suffix().len(), encoded.len() as int) =~= suffix());
    assert(encoded.subrange(0, encoded.len() - suffix().len()) =~= input_path);
}

/// Whether `path` ends with the suffix.
pub fn ends_with_suffix(path: &str) -> (b: bool)
    ensures
        b == has_suffix(path@),
{
    let mark = ".rxor";
    proof {
        reveal_strlit(".rxor");
    }
    let n = path.unicode_len();
    if n < 5 {
        return false;
    }
    let start = n - 5;
    let mut i: usize = 0;
    while i < 5
        invariant
            i <= 5,
            n == path@.len(),
            start == n - 5,
            mark@ == suffix(),
            forall|k: int| 0 <= k < i ==> path@[start + k] == suffix()[k],
        decreases 5 - i,
    {
        if path.get_char(start + i) != mark.get_char(i) {
            assert(path@.subrange(start as int, n as int)[i as int] != suffix()[i as int]);
            return false;
        }
        i += 1;
    }
    assert(path@.subrange(start as int, n as int) =~= suffix());
    true
}

/// The default output path of `operation` on `input_path`.
pub fn default_output_path(operation: Operation, input_path: &str) -> (path: String)
    ensures
        path@ == default_name(operation, input_path@),
{
    match operation {
        Operation::Encode => {
            proof {
                reveal_strlit(".rxor");
            }
            assert(".rxor"@ =~= suffix());
            String::from_str(input_path).concat(".rxor")
        },
        Operation::Decode => {
            if ends_with_suffix(input_path) {
                let n = input_path.unicode_len();
                String::from_str(input_path.substring_char(0, n - 5))
            } else {
                String::from_str(input_path)
            }
        },
    }
}

/// The path to which `operation` on `input_path` writes: `output_path` if
/// the caller gave one, else the default.
pub fn effective_output_path(
    operation: Operation,
    input_path: &str,
    output_path: Option<&str>,
) -> (path: String)
    ensures
        path@ == effective_name(operation, input_path@, output_path),
{
    match output_path {
        Some(chosen) => String::from_str(chosen),
        None => default_output_path(operation, input_path),
    }
}

} // verus!
