//! Keys as text, and the address that belongs to a pair of them.
//!
//! Reading and writing keys and forming the address is `monero`'s work. The
//! formats are small enough to be stated in full: a key is 64 hexadecimal
//! digits, and an address is the base58 text of the network byte, the two
//! public keys and a checksum.
use crate::curve::{
    base_multiple, decoded_point, group_order, is_point_encoding, le_value, CurvePoint, Scalar,
};
use crate::encode::{as_chars, base58_digits, be_value};
use vstd::prelude::*;

verus! {

/// `monero::util::key::Error`, carried through as an opaque value.
#[verifier::external_type_specification]
#[verifier::external_body]
pub struct ExKeyError(monero::util::key::Error);

/// The byte that marks a standard address of the main network.
pub const NETWORK_BYTE: u8 = 18;

/// Why key material that came from outside was refused.
#[derive(Clone, Copy, Debug, PartialEq, Eq, Structural)]
pub enum KeyError {
    /// The text is not 64 hexadecimal digits, or what they spell is not a
    /// scalar below the group order, or not a point of the curve.
    MalformedKeyMaterial,
}

/// The value of a hexadecimal digit of either case.
pub open spec fn hex_value(c: char) -> Option<int> {
    if '0' <= c <= '9' {
        Some(c as int - '0' as int)
    } else if 'a' <= c <= 'f' {
        Some(c as int - 'a' as int + 10)
    } else if 'A' <= c <= 'F' {
        Some(c as int - 'A' as int + 10)
    } else {
        None
    }
}

/// Every character is a hexadecimal digit and they come in pairs.
pub open spec fn is_hex_text(text: Seq<char>) -> bool {
    &&& text.len() % 2 == 0
    &&& forall|i: int| 0 <= i < text.len() ==> (#[trigger] hex_value(text[i])) is Some
}

/// The bytes that pairs of hexadecimal digits spell.
pub open spec fn hex_bytes(text: Seq<char>) -> Seq<u8> {
    Seq::new(
        text.len() / 2,
        |i: int| (16 * hex_value(text[2 * i]).unwrap() + hex_value(text[2 * i + 1]).unwrap()) as u8,
    )
}

/// The lower-case hexadecimal digit for a value below 16.
pub open spec fn hex_digit(v: int) -> char {
    if v < 10 {
        ('0' as int + v) as char
    } else {
        ('a' as int + v - 10) as char
    }
}

/// Bytes written as lower-case hexadecimal digits, two for each.
pub open spec fn hex_text(bytes: Seq<u8>) -> Seq<char> {
    Seq::new(
        2 * bytes.len(),
        |i: int|
            if i % 2 == 0 {
                hex_digit(bytes[i / 2] as int / 16)
            } else {
                hex_digit(bytes[i / 2] as int % 16)
            },
    )
}

/// `text` is a private key in writing: 64 hexadecimal digits that spell a
/// number below the group order.
pub open spec fn is_private_key_text(text: Seq<char>) -> bool {
    &&& text.len() == 64
    &&& is_hex_text(text)
    &&& le_value(hex_bytes(text)) < group_order()
}

/// `text` is a public key in writing: 64 hexadecimal digits that spell the
/// canonical encoding of a point. Bytes that decompress to a point but are
/// not what that point compresses to are no public key.
pub open spec fn is_public_key_text(text: Seq<char>) -> bool {
    &&& text.len() == 64
    &&& is_hex_text(text)
    &&& is_point_encoding(hex_bytes(text))
}

/// A hexadecimal digit that was written reads back as its value.
pub proof fn lemma_hex_digit_reads_back(v: int)
    requires
        0 <= v < 16,
    ensures
        hex_value(hex_digit(v)) == Some(v),
{
}

/// Bytes that were written as hexadecimal digits read back as themselves.
pub proof fn lemma_hex_text_reads_back(bytes: Seq<u8>)
    ensures
        hex_text(bytes).len() == 2 * bytes.len(),
        is_hex_text(hex_text(bytes)),
        hex_bytes(hex_text(bytes)) == bytes,
{
    let text = hex_text(bytes);
    assert forall|i: int| 0 <= i < text.len() implies (#[trigger] hex_value(text[i])) is Some by {
        let b = bytes[i / 2] as int;
        if i % 2 == 0 {
            lemma_hex_digit_reads_back(b / 16);
        } else {
            lemma_hex_digit_reads_back(b % 16);
        }
    }
    assert forall|k: int| 0 <= k < bytes.len() implies hex_bytes(text)[k] == bytes[k] by {
        let b = bytes[k] as int;
        lemma_hex_digit_reads_back(b / 16);
        lemma_hex_digit_reads_back(b % 16);
        assert(text[2 * k] == hex_digit(b / 16));
        assert(text[2 * k + 1] == hex_digit(b % 16));
    }
    assert(hex_bytes(text) =~= bytes);
}

/// A private key that was written out is a private key in writing, and
/// reads back as the same bytes.
pub proof fn lemma_private_key_reads_back(key: Scalar)
    requires
        key.wf(),
    ensures
        is_private_key_text(hex_text(key.spec_bytes())),
        hex_bytes(hex_text(key.spec_bytes())) == key.spec_bytes(),
{
    key.lemma_view_is_value();
    lemma_hex_text_reads_back(key.spec_bytes());
}

/// The canonical encoding of a point, written out, is a public key in
/// writing, and reads back as the same bytes.
pub proof fn lemma_public_key_reads_back(encoding: Seq<u8>)
    requires
        is_point_encoding(encoding),
    ensures
        is_public_key_text(hex_text(encoding)),
        hex_bytes(hex_text(encoding)) == encoding,
{
    lemma_hex_text_reads_back(encoding);
}

/// What `monero::Address` prints for the standard main-network address of a
/// public spend key and a public view key.
pub uninterp spec fn address_text(spend: Seq<u8>, view: Seq<u8>) -> Seq<char>;

/// The first eleven characters of every address with this public spend key:
/// the network byte and the first seven bytes of the key, as one base58
/// block.
pub open spec fn prefix_text(spend: Seq<u8>) -> Seq<char> {
    as_chars(base58_digits(be_value(seq![NETWORK_BYTE] + spend.subrange(0, 7)), 11))
}

/// `monero::PrivateKey::from_str`: hexadecimal digits of either case, 32
/// bytes of them, spelling a number below the group order.
#[verifier::external_body]
fn monero_parse_private(text: &str) -> (out: Result<[u8; 32], monero::util::key::Error>)
    ensures
        out is Ok <==> is_private_key_text(text@),
        out matches Ok(bytes) ==> bytes@ == hex_bytes(text@),
{
    text.parse::<monero::PrivateKey>().map(|key| key.to_bytes())
}

/// `monero::PublicKey::from_str`: hexadecimal digits of either case, 32 bytes
/// of them, which decompress to a point and are what that point compresses
/// to.
#[verifier::external_body]
fn monero_parse_public(text: &str) -> (out: Result<[u8; 32], monero::util::key::Error>)
    ensures
        out is Ok <==> is_public_key_text(text@),
        out matches Ok(bytes) ==> bytes@ == hex_bytes(text@),
{
    text.parse::<monero::PublicKey>().map(|key| key.to_bytes())
}

/// `monero::PrivateKey`'s `Display`: the 32 bytes in lower-case hexadecimal.
#[verifier::external_body]
fn monero_private_text(bytes: &[u8; 32]) -> (out: String)
    requires
        le_value(bytes@) < group_order(),
    ensures
        out@ == hex_text(bytes@),
{
    monero::PrivateKey::from_slice(bytes).unwrap().to_string()
}

/// `monero::PublicKey`'s `Display`: the 32 bytes in lower-case hexadecimal.
#[verifier::external_body]
fn monero_public_text(bytes: &[u8; 32]) -> (out: String)
    requires
        is_point_encoding(bytes@),
    ensures
        out@ == hex_text(bytes@),
{
    monero::PublicKey::from_slice(bytes).unwrap().to_string()
}

/// `monero::Address::standard` on the main network, printed. The text is
/// named; what is stated of it is its length and its first block, which
/// holds the network byte and the first seven bytes of the spend key.
#[verifier::external_body]
pub(crate) fn monero_address(spend: &[u8; 32], view: &[u8; 32]) -> (out: String)
    requires
        is_point_encoding(spend@),
        is_point_encoding(view@),
    ensures
        out@ == address_text(spend@, view@),
        out@.len() == 95,
        out@.subrange(0, 11) == prefix_text(spend@),
{
    let public_spend = monero::PublicKey::from_slice(spend).unwrap();
    let public_view = monero::PublicKey::from_slice(view).unwrap();
    monero::Address::standard(monero::Network::Mainnet, public_spend, public_view).to_string()
}

/// Reads a private key, or a private fragment of one, from its 64
/// hexadecimal digits.
pub fn parse_private_key(text: &str) -> (out: Result<Scalar, KeyError>)
    ensures
        out is Ok <==> is_private_key_text(text@),
        out matches Ok(s) ==> s.wf() && s.spec_bytes() == hex_bytes(text@),
        out is Err ==> out == Err::<Scalar, KeyError>(KeyError::MalformedKeyMaterial),
{
    match monero_parse_private(text) {
        Ok(bytes) => match Scalar::from_canonical_bytes(&bytes) {
            Some(s) => Ok(s),
            None => Err(KeyError::MalformedKeyMaterial),
        },
        Err(_) => Err(KeyError::MalformedKeyMaterial),
    }
}

/// Decides what becomes of 32 bytes that were read as a public key: they
/// have to decompress to a point.
pub fn settle_public_key(read: Result<[u8; 32], monero::util::key::Error>) -> (out: Result<
    CurvePoint,
    KeyError,
>)
    ensures
        match read {
            Ok(bytes) => match decoded_point(bytes@) {
                Some(found) => out is Ok && out->Ok_0@ == found,
                None => out == Err::<CurvePoint, KeyError>(KeyError::MalformedKeyMaterial),
            },
            Err(_) => out == Err::<CurvePoint, KeyError>(KeyError::MalformedKeyMaterial),
        },
{
    match read {
        Ok(bytes) => match CurvePoint::decompress(&bytes) {
            Some(point) => Ok(point),
            None => Err(KeyError::MalformedKeyMaterial),
        },
        Err(_) => Err(KeyError::MalformedKeyMaterial),
    }
}

/// Reads a public key, or a public fragment of one, from its 64 hexadecimal
/// digits.
pub fn parse_public_key(text: &str) -> (out: Result<CurvePoint, KeyError>)
    ensures
        out is Ok <==> is_public_key_text(text@),
        out matches Ok(p) ==> p@ == hex_bytes(text@),
        out is Err ==> out == Err::<CurvePoint, KeyError>(KeyError::MalformedKeyMaterial),
{
    settle_public_key(monero_parse_public(text))
}

/// The private key in writing: 64 lower-case hexadecimal digits.
pub fn private_key_text(key: &Scalar) -> (out: String)
    requires
        key.wf(),
    ensures
        out@ == hex_text(key.spec_bytes()),
{
    let bytes = key.to_bytes();
    monero_private_text(&bytes)
}

/// The public key in writing: 64 lower-case hexadecimal digits.
pub fn public_key_text(key: &CurvePoint) -> (out: String)
    ensures
        out@ == hex_text(key@),
{
    let bytes = key.compress();
    monero_public_text(&bytes)
}

/// A private spend key and a private view key.
#[derive(Clone, Copy, Debug)]
pub struct KeyPair {
    /// The key that spends.
    pub spend: Scalar,
    /// The key that only sees.
    pub view: Scalar,
}

/// What a successful search hands to its caller.
#[derive(Clone, Debug)]
pub struct FoundResult {
    /// The address that matched.
    pub address: String,
    /// The private spend key; in a search for somebody else, the private
    /// fragment that was found.
    pub spend_key: String,
    /// The private view key.
    pub view_key: String,
}

/// The main-network address of a public spend key and a public view key.
pub fn address_of(spend: &CurvePoint, view: &CurvePoint) -> (out: String)
    ensures
        out@ == address_text(spend@, view@),
        out@.len() == 95,
        out@.subrange(0, 11) == prefix_text(spend@),
{
    let s = spend.compress();
    let v = view.compress();
    monero_address(&s, &v)
}

impl KeyPair {
    /// Both keys are scalars below the group order.
    pub open spec fn wf(&self) -> bool {
        self.spend.wf() && self.view.wf()
    }

    /// The address of the pair, with both private keys in writing.
    pub fn to_result(&self) -> (out: FoundResult)
        requires
            self.wf(),
        ensures
            out.address@ == address_text(base_multiple(self.spend@), base_multiple(self.view@)),
            out.address@.subrange(0, 11) == prefix_text(base_multiple(self.spend@)),
            out.spend_key@ == hex_text(self.spend.spec_bytes()),
            out.view_key@ == hex_text(self.view.spec_bytes()),
    {
        let public_spend = self.spend.public_point();
        let public_view = self.view.public_point();
        FoundResult {
            address: address_of(&public_spend, &public_view),
            spend_key: private_key_text(&self.spend),
            view_key: private_key_text(&self.view),
        }
    }
}

} // verus!
