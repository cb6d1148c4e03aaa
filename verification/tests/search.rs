use monero_vanity::curve::{compress_batch, Scalar};
use monero_vanity::keys::address_of;
use monero_vanity::pattern::{Pattern, PatternType};
use monero_vanity::search::{
    address_prefix, key_matches, scan_batch, search_batch, EncodedPrefix, BATCH_SIZE,
};
use monero_vanity::walker::PointWalker;

fn keys_from(seed: u64, count: usize) -> Vec<[u8; 32]> {
    let mut walker = PointWalker::new(Scalar::from_u64(seed));
    compress_batch(&walker.next_batch(count))
}

fn text_of(key: &[u8; 32]) -> String {
    EncodedPrefix::of_key(key).as_str().to_string()
}

#[test]
fn batch_size_is_ten_thousand() {
    assert_eq!(BATCH_SIZE, 10_000);
}

#[test]
fn address_prefix_is_network_byte_and_ten_key_bytes() {
    let mut key = [0u8; 32];
    for (i, b) in key.iter_mut().enumerate() {
        *b = 100 + i as u8;
    }
    assert_eq!(address_prefix(&key), [18, 100, 101, 102, 103, 104, 105, 106, 107, 108, 109]);
}

#[test]
fn encoded_prefix_is_the_start_of_the_address() {
    let view = Scalar::from_u64(999).public_point();
    for n in 1..40u64 {
        let spend = Scalar::from_u64(n * 7919).public_point();
        let address = address_of(&spend, &view);
        assert_eq!(text_of(&spend.compress()), &address[..11]);
    }
}

#[test]
fn encoded_prefix_bytes_are_its_text() {
    let prefix = EncodedPrefix::of_key(&[7u8; 32]);
    assert_eq!(prefix.as_str().as_bytes(), &prefix.to_bytes()[..]);
    assert_eq!(prefix.as_str().len(), 11);
}

#[test]
fn encoded_prefix_of_fixed_keys() {
    assert_eq!(text_of(&[0u8; 32]), "41d7FXjswpK");
    assert_eq!(text_of(&[0xffu8; 32]), "4BKnGLZNZ5p");
}

#[test]
fn key_matches_tries_the_prefix_text() {
    let key = keys_from(5, 1)[0];
    let text = text_of(&key);
    let exact = Pattern::compile(&format!("^{}$", text), PatternType::First).unwrap();
    assert!(key_matches(&exact, &key));
    let third = Pattern::compile(&text[2..6], PatternType::Third).unwrap();
    assert!(key_matches(&third, &key));
    let never = Pattern::compile("^5", PatternType::First).unwrap();
    assert!(!key_matches(&never, &key));
}

#[test]
fn scan_batch_finds_the_first_match() {
    let keys = keys_from(1234, 200);
    let target = text_of(&keys[150]);
    let pattern = Pattern::compile(&target[2..7], PatternType::Third).unwrap();
    let found = scan_batch(&keys, &pattern).unwrap();
    let first = keys.iter().position(|k| text_of(k)[2..].starts_with(&target[2..7])).unwrap();
    assert_eq!(found, first);
    assert!(found <= 150);
    let all = Pattern::compile("^4", PatternType::First).unwrap();
    assert_eq!(scan_batch(&keys, &all), Some(0));
    let never = Pattern::compile("^5", PatternType::First).unwrap();
    assert_eq!(scan_batch(&keys, &never), None);
    assert_eq!(scan_batch(&Vec::new(), &all), None);
}

#[test]
fn search_batch_reports_the_place_in_the_walk() {
    let seed = Scalar::from_u64(4321);
    let keys = keys_from(4321, 300);
    let target = text_of(&keys[250]);
    let pattern = Pattern::compile(&format!("^{}$", target), PatternType::First).unwrap();
    let mut walker = PointWalker::new(seed);
    assert!(search_batch(&mut walker, &pattern, 100).is_none());
    assert_eq!(walker.drawn(), 100);
    assert!(search_batch(&mut walker, &pattern, 100).is_none());
    let found = search_batch(&mut walker, &pattern, 100).unwrap();
    assert_eq!(walker.drawn(), 300);
    assert_eq!(found.tries, 250);
    assert_eq!(found.key, keys[250]);
    assert_eq!(found.key, walker.scalar_at(found.tries).public_point().compress());
}

#[test]
fn search_batch_takes_the_first_of_several() {
    let all = Pattern::compile("^4", PatternType::First).unwrap();
    let mut walker = PointWalker::new(Scalar::from_u64(8));
    let first = search_batch(&mut walker, &all, 10).unwrap();
    assert_eq!(first.tries, 0);
    let second = search_batch(&mut walker, &all, 10).unwrap();
    assert_eq!(second.tries, 10);
    assert_eq!(second.key, Scalar::from_u64(18).public_point().compress());
}
