use monero_vanity::encode::{
    encode, encode_11, encode_block, u8be_to_u64, EncodeError, BASE58_CHARS, ENCODED_BLOCK_SIZES,
};

fn sample(seed: u32) -> [u8; 11] {
    let mut bytes = [0u8; 11];
    let mut x = seed.wrapping_mul(2654435761).wrapping_add(12345);
    for b in bytes.iter_mut() {
        x = x.wrapping_mul(1664525).wrapping_add(1013904223);
        *b = (x >> 24) as u8;
    }
    bytes
}

#[test]
fn alphabet_is_the_monero_alphabet() {
    assert_eq!(
        &BASE58_CHARS[..],
        &b"123456789ABCDEFGHJKLMNPQRSTUVWXYZabcdefghijkmnopqrstuvwxyz"[..]
    );
    for c in [b'I', b'O', b'l', b'0', b'+', b'/'] {
        assert!(!BASE58_CHARS.contains(&c));
    }
}

#[test]
fn encode_empty_is_empty() {
    assert_eq!(encode(&[]).unwrap(), "");
}

#[test]
fn encode_hello_world() {
    assert_eq!(encode(b"Hello World").unwrap(), "D7LMXYjUbXc1fS9Z");
}

#[test]
fn encode_block_rejects_empty_and_long() {
    assert_eq!(encode_block(&[]), Err(EncodeError::InvalidBlockSize));
    assert_eq!(encode_block(&[0u8; 9]), Err(EncodeError::InvalidBlockSize));
}

#[test]
fn encode_block_pads_with_the_zero_symbol() {
    let block = encode_block(&[0xff]).unwrap();
    assert_eq!(block, ['5', 'Q', '1', '1', '1', '1', '1', '1', '1', '1', '1']);
    let full = encode_block(&[0xff; 8]).unwrap();
    let text: String = full.iter().collect();
    assert_eq!(text, "jpXCZedGfVQ");
}

#[test]
fn encode_single_bytes() {
    assert_eq!(encode(&[0]).unwrap(), "11");
    assert_eq!(encode(&[0xff]).unwrap(), "5Q");
    assert_eq!(encode(&[57]).unwrap(), "1z");
    assert_eq!(encode(&[58]).unwrap(), "21");
}

#[test]
fn encode_lengths_follow_the_block_sizes() {
    for n in 0..40usize {
        let data = vec![0xabu8; n];
        let text = encode(&data).unwrap();
        assert_eq!(text.len(), (n / 8) * 11 + ENCODED_BLOCK_SIZES[n % 8]);
    }
}

#[test]
fn encode_agrees_with_the_general_encoder() {
    for n in 0..70usize {
        let data: Vec<u8> = (0..n).map(|i| (i * 37 + n * 11) as u8).collect();
        assert_eq!(encode(&data).unwrap(), base58_monero::encode(&data).unwrap());
    }
}

#[test]
fn u8be_reads_big_endian() {
    assert_eq!(u8be_to_u64(&[]), 0);
    assert_eq!(u8be_to_u64(&[1, 2]), 258);
    assert_eq!(u8be_to_u64(&[0xff; 8]), u64::MAX);
    assert_eq!(u8be_to_u64(&[1, 0, 0, 0, 0, 0, 0, 0, 5]), 5);
}

#[test]
fn encode_11_is_always_eleven_symbols_of_the_alphabet() {
    for seed in 0..500u32 {
        let out = encode_11(&sample(seed));
        assert_eq!(out.len(), 11);
        assert!(out.iter().all(|c| BASE58_CHARS.contains(c)));
    }
}

#[test]
fn encode_11_is_prefix_of_encode() {
    for seed in 0..500u32 {
        let bytes = sample(seed);
        let short = encode_11(&bytes);
        let full = encode(&bytes).unwrap();
        assert_eq!(full.len(), 16);
        assert_eq!(std::str::from_utf8(&short).unwrap(), &full[..11]);
    }
}

#[test]
fn encode_11_is_prefix_of_the_general_encoder() {
    for seed in 0..500u32 {
        let bytes = sample(seed);
        let short = encode_11(&bytes);
        let full = base58_monero::encode(&bytes).unwrap();
        assert_eq!(std::str::from_utf8(&short).unwrap(), &full[..11]);
    }
}

#[test]
fn encode_11_edge_values() {
    assert_eq!(&encode_11(&[0u8; 11]), b"11111111111");
    assert_eq!(&encode_11(&[0xffu8; 11]), b"jpXCZedGfVQ");
    let mut one = [0u8; 11];
    one[7] = 1;
    assert_eq!(&encode_11(&one), b"11111111112");
    let mut tail = [0u8; 11];
    tail[8] = 0xff;
    tail[9] = 0xff;
    tail[10] = 0xff;
    assert_eq!(&encode_11(&tail), b"11111111111");
}
