use rexor::cipher::xor_chunk;
use rexor::{transform, Error, Keystream, CHUNK_SIZE};

fn sample(n: usize) -> Vec<u8> {
    let mut data = Vec::with_capacity(n);
    let mut state: u32 = 0x2545_f491;
    for _ in 0..n {
        state = state.wrapping_mul(1_664_525).wrapping_add(1_013_904_223);
        data.push((state >> 24) as u8);
    }
    data
}

fn by_formula(data: &[u8], password: &[u8]) -> Vec<u8> {
    let mut out = Vec::with_capacity(data.len());
    for k in 0..data.len() {
        out.push(data[k] ^ password[k % password.len()]);
    }
    out
}

#[test]
fn keystream_repeats_the_password() {
    let keystream = Keystream::new("abc").unwrap();
    assert_eq!(keystream.len(), 3);
    assert_eq!(keystream.byte(0), b'a');
    assert_eq!(keystream.byte(1), b'b');
    assert_eq!(keystream.byte(2), b'c');
    assert_eq!(keystream.byte(3), b'a');
    assert_eq!(keystream.byte(4), b'b');
    assert_eq!(keystream.byte(3000), b'a');
    assert_eq!(keystream.byte(3002), b'c');
}

#[test]
fn keystream_at_the_largest_index() {
    let keystream = Keystream::new("abcd").unwrap();
    let expected = [b'a', b'b', b'c', b'd'][usize::MAX % 4];
    assert_eq!(keystream.byte(usize::MAX), expected);
}

#[test]
fn keystream_of_one_byte() {
    let keystream = Keystream::new("z").unwrap();
    assert_eq!(keystream.len(), 1);
    assert_eq!(keystream.byte(0), b'z');
    assert_eq!(keystream.byte(17), b'z');
}

#[test]
fn keystream_uses_the_bytes_of_the_text() {
    let keystream = Keystream::new("\u{e9}1").unwrap();
    assert_eq!(keystream.len(), 3);
    assert_eq!(keystream.byte(0), 0xc3);
    assert_eq!(keystream.byte(1), 0xa9);
    assert_eq!(keystream.byte(2), b'1');
    assert_eq!(keystream.byte(3), 0xc3);
}

#[test]
fn keystream_refuses_the_empty_password() {
    assert!(matches!(Keystream::new(""), Err(Error::EmptyPassword)));
}

#[test]
fn transform_gives_the_known_bytes() {
    let out = transform(b"Test ReXOR", "password123").unwrap();
    assert_eq!(out, vec![0x24, 0x04, 0x00, 0x07, 0x57, 0x3d, 0x17, 0x3c, 0x7e, 0x60]);
}

#[test]
fn transform_wraps_around_a_short_password() {
    let out = transform(&[0, 0, 0, 0, 0, 0xff, 0xff], "ab").unwrap();
    assert_eq!(out, vec![b'a', b'b', b'a', b'b', b'a', !b'b', !b'a']);
}

#[test]
fn transform_is_not_the_identity() {
    let data = sample(64);
    let out = transform(&data, "pw").unwrap();
    assert_ne!(out, data);
}

#[test]
fn transform_twice_gives_the_input_back() {
    for n in [1usize, 2, 10, 11, 12, 100, 8191, 8192, 8193, 20_000] {
        let data = sample(n);
        let once = transform(&data, "password123").unwrap();
        let twice = transform(&once, "password123").unwrap();
        assert_eq!(twice, data);
    }
}

#[test]
fn transform_twice_gives_the_input_back_for_a_long_password() {
    let password = "a password that is much longer than the data";
    let data = b"short".to_vec();
    let once = transform(&data, password).unwrap();
    assert_eq!(once, by_formula(&data, password.as_bytes()));
    assert_eq!(transform(&once, password).unwrap(), data);
}

#[test]
fn transform_is_repeatable() {
    let data = sample(10_000);
    let first = transform(&data, "secret").unwrap();
    let second = transform(&data, "secret").unwrap();
    assert_eq!(first, second);
}

#[test]
fn transform_keeps_the_length() {
    for n in [0usize, 1, 5, 8191, 8192, 8193, 16_384, 16_385, 30_000] {
        let data = sample(n);
        assert_eq!(transform(&data, "key").unwrap().len(), n);
    }
}

#[test]
fn transform_of_nothing_is_nothing() {
    assert_eq!(transform(&[], "key").unwrap(), Vec::<u8>::new());
}

#[test]
fn transform_runs_on_across_chunks() {
    let password = "seven17";
    assert_ne!(CHUNK_SIZE % password.len(), 0);
    let data = sample(3 * CHUNK_SIZE + 77);
    let out = transform(&data, password).unwrap();
    assert_eq!(out, by_formula(&data, password.as_bytes()));
    let at = CHUNK_SIZE;
    assert_eq!(out[at], data[at] ^ password.as_bytes()[at % 7]);
    assert_eq!(at % 7, 2);
}

#[test]
fn transform_refuses_the_empty_password() {
    assert_eq!(transform(b"data", ""), Err(Error::EmptyPassword));
    assert_eq!(transform(b"", ""), Err(Error::EmptyPassword));
}

#[test]
fn wrong_password_differs_where_the_keystreams_differ() {
    let plain = b"Test ReXOR";
    let right = b"password123";
    let wrong = b"passw0rd124";
    let encoded = transform(plain, "password123").unwrap();
    let decoded = transform(&encoded, "passw0rd124").unwrap();
    assert_eq!(decoded.len(), plain.len());
    let mut differing = 0;
    for k in 0..plain.len() {
        let same_key = right[k % right.len()] == wrong[k % wrong.len()];
        assert_eq!(decoded[k] == plain[k], same_key);
        if !same_key {
            differing += 1;
        }
    }
    assert_eq!(differing, 1);
    assert_ne!(decoded[5], plain[5]);
}

#[test]
fn xor_chunk_starts_at_its_offset() {
    let keystream = Keystream::new("abc").unwrap();
    let mut chunk = [0u8; 5];
    let next = xor_chunk(&mut chunk, &keystream, 4);
    assert_eq!(chunk, [b'b', b'c', b'a', b'b', b'c']);
    assert_eq!(next, 0);
}

#[test]
fn xor_chunk_returns_the_next_position() {
    let keystream = Keystream::new("abcd").unwrap();
    let mut chunk = [0u8; 6];
    assert_eq!(xor_chunk(&mut chunk, &keystream, 0), 2);
    assert_eq!(chunk, [b'a', b'b', b'c', b'd', b'a', b'b']);
    let mut rest = [0xffu8; 3];
    assert_eq!(xor_chunk(&mut rest, &keystream, 2), 1);
    assert_eq!(rest, [!b'c', !b'd', !b'a']);
}

#[test]
fn xor_chunk_leaves_an_empty_chunk_alone() {
    let keystream = Keystream::new("abcd").unwrap();
    let mut chunk: [u8; 0] = [];
    assert_eq!(xor_chunk(&mut chunk, &keystream, 6), 2);
}

#[test]
fn xor_chunk_at_the_largest_offset() {
    let keystream = Keystream::new("abc").unwrap();
    let start = usize::MAX % 3;
    let mut chunk = [0u8; 4];
    let next = xor_chunk(&mut chunk, &keystream, usize::MAX);
    let key = b"abc";
    for k in 0..4 {
        assert_eq!(chunk[k], key[(start + k) % 3]);
    }
    assert_eq!(next, (start + 4) % 3);
}

#[test]
fn xor_chunk_in_pieces_is_xor_chunk_in_one() {
    let keystream = Keystream::new("stream").unwrap();
    let data = sample(1000);
    let mut whole = data.clone();
    xor_chunk(&mut whole, &keystream, 0);
    let mut pieces = data.clone();
    let mut cursor = 0;
    let mut from = 0;
    for size in [1usize, 6, 7, 100, 500, 386] {
        cursor = xor_chunk(&mut pieces[from..from + size], &keystream, cursor);
        from += size;
    }
    assert_eq!(from, 1000);
    assert_eq!(pieces, whole);
}
