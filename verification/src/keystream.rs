//! The keystream: the bytes of a password, repeated without end.

use vstd::prelude::*;
use vstd::string::*;
use vstd::utf8::*;
use crate::error::Error;

verus! {

/// The byte of the keystream at position `index`: the password's byte at
/// `index` modulo the password's length.
pub open spec fn keystream_byte(password: Seq<u8>, index: int) -> u8
    recommends
        password.len() > 0,
        index >= 0,
{
    password[index % (password.len() as int)]
}

/// A text of at least one character is encoded in at least one byte, and the
/// empty text in none.
pub proof fn lemma_encoding_is_empty_iff_text_is(text: Seq<char>)
    ensures
        encode_utf8(text).len() == 0 <==> text.len() == 0,
{
    if text.len() > 0 {
        let head = encode_scalar(text[0] as u32);
        let tail = encode_utf8(text.drop_first());
        assert(head.len() >= 1);
        assert(encode_utf8(text) == head + tail);
    }
}

/// A password in the form in which the transform uses it: its bytes, at least
/// one of them.
pub struct Keystream {
    key: Vec<u8>,
}

impl View for Keystream {
    type V = Seq<u8>;

    /// The password's bytes.
    closed spec fn view(&self) -> Seq<u8> {
        self.key@
    }
}

impl Keystream {
    #[verifier::type_invariant]
    spec fn well_formed(&self) -> bool {
        self.key@.len() > 0
    }

    /// Takes the bytes of `password` as the key. An empty password is
    /// refused: it would not be a keystream of zeros but none at all.
    pub fn new(password: &str) -> (r: Result<Keystream, Error>)
        ensures
            password@.len() == 0 ==> r == Err::<Keystream, Error>(Error::EmptyPassword),
            password@.len() > 0 ==> r is Ok && r.unwrap()@ == password.spec_bytes(),
    {
        let key = password.as_bytes_vec();
        proof {
            lemma_encoding_is_empty_iff_text_is(password@);
        }
        if key.len() == 0 {
            Err(Error::EmptyPassword)
        } else {
            Ok(Keystream { key })
        }
    }

    /// The number of bytes after which the keystream repeats. It is never 0.
    pub fn len(&self) -> (n: usize)
        ensures
            n == self@.len(),
            n > 0,
    {
        proof {
            use_type_invariant(self);
        }
        self.key.len()
    }

    /// The byte of the keystream at position `index`.
    pub fn byte(&self, index: usize) -> (b: u8)
        ensures
            b == keystream_byte(self@, index as int),
    {
        proof {
            use_type_invariant(self);
        }
        self.key[index % self.key.len()]
    }
}

} // verus!
