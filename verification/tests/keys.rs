use monero_vanity::curve::{CurvePoint, Scalar};
use monero_vanity::keys::{
    address_of, parse_private_key, parse_public_key, private_key_text, public_key_text,
    settle_public_key, KeyError, KeyPair, NETWORK_BYTE,
};
use std::str::FromStr;

const SPEND: &str = "77916d0cd56ed1920aef6ca56d8a41bac915b68e4c46a589e0956e27a7b77404";
const VIEW: &str = "8163466f1883598e6dd14027b8da727057165da91485834314f5500a65846f09";
const BASE: &str = "5866666666666666666666666666666666666666666666666666666666666666";
const ORDER: &str = "edd3f55c1a631258d69cf7a2def9de1400000000000000000000000000000010";

#[test]
fn network_byte_is_mainnet() {
    assert_eq!(NETWORK_BYTE, 18);
}

#[test]
fn private_key_text_round_trip() {
    let key = parse_private_key(SPEND).unwrap();
    assert_eq!(key.to_bytes()[0], 0x77);
    assert_eq!(key.to_bytes()[31], 0x04);
    assert_eq!(private_key_text(&key), SPEND);
    let upper = SPEND.to_uppercase();
    let same = parse_private_key(&upper).unwrap();
    assert_eq!(same.to_bytes(), key.to_bytes());
    assert_eq!(private_key_text(&same), SPEND);
}

#[test]
fn private_key_text_of_small_scalars() {
    assert_eq!(
        private_key_text(&Scalar::from_u64(0x1fa)),
        "fa01000000000000000000000000000000000000000000000000000000000000"
    );
    assert_eq!(private_key_text(&Scalar::from_u64(0)), "0".repeat(64));
}

#[test]
fn malformed_private_keys_are_refused() {
    for text in ["", "77", &SPEND[..63], "zz", ORDER, &"f".repeat(64), &format!("{}00", SPEND)] {
        assert_eq!(parse_private_key(text).err(), Some(KeyError::MalformedKeyMaterial));
    }
    let not_hex = format!("{}g", &SPEND[..63]);
    assert_eq!(parse_private_key(&not_hex).err(), Some(KeyError::MalformedKeyMaterial));
    let wide = format!("{}\u{e9}", &SPEND[..62]);
    assert_eq!(parse_private_key(&wide).err(), Some(KeyError::MalformedKeyMaterial));
}

#[test]
fn public_key_text_round_trip() {
    let base = parse_public_key(BASE).unwrap();
    assert_eq!(base.compress(), CurvePoint::base_point().compress());
    assert_eq!(public_key_text(&base), BASE);
    let other = Scalar::from_u64(123_456).public_point();
    let text = public_key_text(&other);
    assert_eq!(text.len(), 64);
    assert_eq!(parse_public_key(&text).unwrap().compress(), other.compress());
}

#[test]
fn malformed_public_keys_are_refused() {
    let no_point = format!("02{}", "0".repeat(62));
    for text in ["", "58", &BASE[..62], "xyz", no_point.as_str()] {
        assert_eq!(parse_public_key(text).err(), Some(KeyError::MalformedKeyMaterial));
    }
}

#[test]
fn settle_public_key_wants_a_point() {
    let mut two = [0u8; 32];
    two[0] = 2;
    assert_eq!(settle_public_key(Ok(two)).err(), Some(KeyError::MalformedKeyMaterial));
    let base = CurvePoint::base_point().compress();
    assert_eq!(settle_public_key(Ok(base)).unwrap().compress(), base);
    let refused = monero::PublicKey::from_str("zz").map(|k| k.to_bytes());
    assert_eq!(settle_public_key(refused).err(), Some(KeyError::MalformedKeyMaterial));
}

#[test]
fn address_is_that_of_the_key_pair() {
    let spend = parse_private_key(SPEND).unwrap();
    let view = parse_private_key(VIEW).unwrap();
    let address = address_of(&spend.public_point(), &view.public_point());
    let pair = monero::KeyPair {
        view: monero::PrivateKey::from_str(VIEW).unwrap(),
        spend: monero::PrivateKey::from_str(SPEND).unwrap(),
    };
    let want = monero::Address::from_keypair(monero::Network::Mainnet, &pair).to_string();
    assert_eq!(address, want);
    assert_eq!(address.len(), 95);
    assert!(address.starts_with('4'));
}

#[test]
fn result_of_a_key_pair() {
    let pair = KeyPair {
        spend: parse_private_key(SPEND).unwrap(),
        view: parse_private_key(VIEW).unwrap(),
    };
    let result = pair.to_result();
    assert_eq!(result.spend_key, SPEND);
    assert_eq!(result.view_key, VIEW);
    assert_eq!(result.address, address_of(&pair.spend.public_point(), &pair.view.public_point()));
    let parsed = monero::Address::from_str(&result.address).unwrap();
    assert_eq!(parsed.public_spend.to_bytes(), pair.spend.public_point().compress());
    assert_eq!(parsed.public_view.to_bytes(), pair.view.public_point().compress());
}

#[test]
fn a_public_key_that_is_not_canonical_is_refused() {
    // The field prime plus one: it decompresses to the point with y = 1, whose
    // canonical encoding is another.
    let mut bytes = [0xffu8; 32];
    bytes[0] = 0xee;
    bytes[31] = 0x7f;
    let point = CurvePoint::decompress(&bytes).unwrap();
    let mut identity = [0u8; 32];
    identity[0] = 1;
    assert_eq!(point.compress(), identity);
    let text: String = bytes.iter().map(|b| format!("{:02x}", b)).collect();
    assert_eq!(parse_public_key(&text).err(), Some(KeyError::MalformedKeyMaterial));
    let canonical: String = identity.iter().map(|b| format!("{:02x}", b)).collect();
    assert_eq!(parse_public_key(&canonical).unwrap().compress(), identity);
}

#[test]
fn keys_written_out_read_back() {
    for n in [0u64, 1, 255, 256, 0xdead_beef, u64::MAX] {
        let key = Scalar::from_u64(n);
        let text = private_key_text(&key);
        assert_eq!(parse_private_key(&text).unwrap().to_bytes(), key.to_bytes());
        let point = key.public_point();
        let text = public_key_text(&point);
        assert_eq!(parse_public_key(&text).unwrap().compress(), point.compress());
    }
}
