//! The transform itself: exclusive-or of a byte stream with the keystream.
//!
//! Everything here is stated for a stretch of the stream that begins at some
//! offset, so that a stream can be worked through piece by piece.

use vstd::prelude::*;
use crate::keystream::{keystream_byte, Keystream};

verus! {

/// The bytes `data`, standing at `offset` in a stream, after the transform:
/// the byte at `k` is combined with the keystream's byte at `offset + k`.
pub open spec fn xor_stream(data: Seq<u8>, password: Seq<u8>, offset: int) -> Seq<u8> {
    Seq::new(data.len(), |k: int| data[k] ^ keystream_byte(password, offset + k))
}

/// A whole stream after the transform.
pub open spec fn transformed(data: Seq<u8>, password: Seq<u8>) -> Seq<u8> {
    xor_stream(data, password, 0)
}

/// A stream that comes in pieces, each piece transformed at the offset at
/// which it stands: the first at `offset`, every other where the one before
/// it ended.
pub open spec fn xor_pieces(pieces: Seq<Seq<u8>>, password: Seq<u8>, offset: int) -> Seq<u8>
    decreases pieces.len(),
{
    if pieces.len() == 0 {
        Seq::empty()
    } else {
        xor_stream(pieces.first(), password, offset) + xor_pieces(
            pieces.drop_first(),
            password,
            offset + pieces.first().len(),
        )
    }
}

/// Combining a byte twice with the same key byte gives the byte back.
pub proof fn lemma_xor_twice(byte: u8, key: u8)
    ensures
        (byte ^ key) ^ key == byte,
{
    assert((byte ^ key) ^ key == byte) by (bit_vector);
}

/// Two key bytes change a byte in the same way only if they are the same.
pub proof fn lemma_xor_distinguishes(byte: u8, first: u8, second: u8)
    ensures
        (byte ^ first) ^ second == byte <==> first == second,
{
    assert((byte ^ first) ^ second == byte <==> first == second) by (bit_vector);
}

/// The transform keeps the length of what it is given.
pub proof fn lemma_length_preserved(data: Seq<u8>, password: Seq<u8>, offset: int)
    ensures
        xor_stream(data, password, offset).len() == data.len(),
        transformed(data, password).len() == data.len(),
{
}

/// Byte `k` of a transformed stream is byte `k` of the input combined with
/// the password's byte at `k` modulo the password's length.
pub proof fn lemma_bytewise(data: Seq<u8>, password: Seq<u8>, k: int)
    requires
        0 <= k < data.len(),
    ensures
        transformed(data, password)[k] == data[k] ^ password[k % (password.len() as int)],
{
}

/// The transform is its own inverse: applied to its own result at the same
/// offset and with the same password, it gives the input back.
pub proof fn lemma_involution(data: Seq<u8>, password: Seq<u8>, offset: int)
    ensures
        xor_stream(xor_stream(data, password, offset), password, offset) == data,
        transformed(transformed(data, password), password) == data,
{
    let once = xor_stream(data, password, offset);
    let twice = xor_stream(once, password, offset);
    assert forall|k: int| 0 <= k < data.len() implies twice[k] == data[k] by {
        lemma_xor_twice(data[k], keystream_byte(password, offset + k));
    }
    assert(twice =~= data);
    let whole = transformed(data, password);
    let back = transformed(whole, password);
    assert forall|k: int| 0 <= k < data.len() implies back[k] == data[k] by {
        lemma_xor_twice(data[k], keystream_byte(password, k));
    }
    assert(back =~= data);
}

/// Where a stream is cut makes no difference: the transform of two pieces
/// laid end to end is the transform of the first, followed by the transform
/// of the second at the offset at which it stands.
pub proof fn lemma_split(head: Seq<u8>, tail: Seq<u8>, password: Seq<u8>, offset: int)
    ensures
        xor_stream(head + tail, password, offset) == xor_stream(head, password, offset)
            + xor_stream(tail, password, offset + head.len()),
{
    let whole = xor_stream(head + tail, password, offset);
    let pieces = xor_stream(head, password, offset) + xor_stream(
        tail,
        password,
        offset + head.len(),
    );
    assert(whole.len() == pieces.len());
    assert forall|k: int| 0 <= k < whole.len() implies whole[k] == pieces[k] by {
        if k < head.len() {
            assert((head + tail)[k] == head[k]);
        } else {
            assert((head + tail)[k] == tail[k - head.len()]);
            assert(offset + k == offset + head.len() + (k - head.len()));
        }
    }
    assert(whole =~= pieces);
}

/// However a stream is cut into pieces, and into however many, transforming
/// the pieces one after another gives what transforming the stream in one
/// pass gives: the keystream does not start again at a cut.
pub proof fn lemma_pieces(pieces: Seq<Seq<u8>>, password: Seq<u8>, offset: int)
    ensures
        xor_pieces(pieces, password, offset) == xor_stream(pieces.flatten(), password, offset),
    decreases pieces.len(),
{
    if pieces.len() == 0 {
        assert(xor_stream(pieces.flatten(), password, offset) =~= Seq::empty());
    } else {
        let head = pieces.first();
        let rest = pieces.drop_first();
        lemma_pieces(rest, password, offset + head.len());
        lemma_split(head, rest.flatten(), password, offset);
        assert(pieces.flatten() == head + rest.flatten());
    }
}

/// Only the offset's remainder modulo the password's length matters.
pub proof fn lemma_offset_modulo(data: Seq<u8>, password: Seq<u8>, offset: int)
    requires
        password.len() > 0,
    ensures
        xor_stream(data, password, offset % (password.len() as int)) == xor_stream(
            data,
            password,
            offset,
        ),
{
    let m = password.len() as int;
    let reduced = xor_stream(data, password, offset % m);
    let plain = xor_stream(data, password, offset);
    assert forall|k: int| 0 <= k < data.len() implies reduced[k] == plain[k] by {
        vstd::arithmetic::div_mod::lemma_add_mod_noop(offset, k, m);
        vstd::arithmetic::div_mod::lemma_add_mod_noop(offset % m, k, m);
        vstd::arithmetic::div_mod::lemma_mod_twice(offset, m);
    }
    assert(reduced =~= plain);
}

/// Undoing a transform with another password gives back exactly those bytes
/// at whose positions the two keystreams agree.
pub proof fn lemma_wrong_password(data: Seq<u8>, first: Seq<u8>, second: Seq<u8>, k: int)
    requires
        0 <= k < data.len(),
    ensures
        transformed(transformed(data, first), second)[k] == data[k] <==> keystream_byte(first, k)
            == keystream_byte(second, k),
{
    lemma_xor_distinguishes(data[k], keystream_byte(first, k), keystream_byte(second, k));
}

/// Transforms `chunk` in place as the piece of a stream that stands at
/// `offset`, and returns the position in the password at which the piece
/// that follows begins.
pub fn xor_chunk(chunk: &mut [u8], keystream: &Keystream, offset: usize) -> (next: usize)
    ensures
        final(chunk)@ == xor_stream(old(chunk)@, keystream@, offset as int),
        next == (offset + old(chunk)@.len()) % (keystream@.len() as int),
{
    let n = chunk.len();
    let m = keystream.len();
    let mut cursor = offset % m;
    let mut i: usize = 0;
    while i < n
        invariant
            i <= n,
            n == chunk@.len(),
            n == old(chunk)@.len(),
            m == keystream@.len(),
            m > 0,
            cursor == (offset + i) % (m as int),
            forall|k: int| 0 <= k < i ==> chunk@[k] == old(chunk)@[k] ^ keystream_byte(
                keystream@,
                offset + k,
            ),
            forall|k: int| i <= k < n ==> chunk@[k] == old(chunk)@[k],
        decreases n - i,
    {
        let masked = chunk[i] ^ keystream.byte(cursor);
        proof {
            vstd::arithmetic::div_mod::lemma_mod_twice(offset + i, m as int);
            lemma_next_position(offset + i, m as int);
        }
        chunk[i] = masked;
        cursor = if cursor + 1 == m {
            0
        } else {
            cursor + 1
        };
        i += 1;
    }
    assert(chunk@ =~= xor_stream(old(chunk)@, keystream@, offset as int));
    cursor
}

/// Moving one position on in the stream moves one position on in the
/// password, and from its last byte back to its first.
proof fn lemma_next_position(position: int, period: int)
    requires
        position >= 0,
        period > 0,
    ensures
        (position + 1) % period == if position % period + 1 == period {
            0
        } else {
            position % period + 1
        },
{
    vstd::arithmetic::div_mod::lemma_fundamental_div_mod(position, period);
    vstd::arithmetic::div_mod::lemma_mod_bound(position, period);
    let q = position / period;
    let r = position % period;
    assert(period * q == q * period) by (nonlinear_arith);
    if r + 1 == period {
        assert(position + 1 == (q + 1) * period + 0) by (nonlinear_arith)
            requires
                position == q * period + r,
                r + 1 == period,
        ;
        vstd::arithmetic::div_mod::lemma_fundamental_div_mod_converse(
            position + 1,
            period,
            q + 1,
            0,
        );
    } else {
        assert(position + 1 == q * period + (r + 1));
        vstd::arithmetic::div_mod::lemma_fundamental_div_mod_converse(
            position + 1,
            period,
            q,
            r + 1,
        );
    }
}

} // verus!
