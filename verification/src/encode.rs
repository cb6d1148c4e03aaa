//! Monero's block-wise base58: eight input bytes become eleven symbols.
//!
//! Every symbol that leaves this module is one of [`BASE58_CHARS`], all of
//! them printable ASCII, so the encoded bytes are text without a further
//! check.
use vstd::prelude::*;

verus! {

/// The 58 symbols, in digit order. Visually similar characters are absent.
pub const BASE58_CHARS: [u8; 58] = [
    49, 50, 51, 52, 53, 54, 55, 56, 57,
    65, 66, 67, 68, 69, 70, 71, 72,
    74, 75, 76, 77, 78,
    80, 81, 82, 83, 84, 85, 86, 87, 88, 89, 90,
    97, 98, 99, 100, 101, 102, 103, 104, 105, 106, 107,
    109, 110, 111, 112, 113, 114, 115, 116, 117, 118, 119, 120, 121, 122,
];

/// Number of symbols that a block of `0..=8` bytes encodes to.
pub const ENCODED_BLOCK_SIZES: [usize; 9] = [0, 2, 3, 5, 6, 7, 9, 10, 11];

/// Maximum size of a block to encode.
pub const FULL_BLOCK_SIZE: usize = 8;

/// Size of an encoded eight-byte block.
pub const FULL_ENCODED_BLOCK_SIZE: usize = 11;

/// Why a block could not be encoded.
#[derive(Clone, Copy, Debug, PartialEq, Eq, Structural)]
pub enum EncodeError {
    /// The block is empty or longer than [`FULL_BLOCK_SIZE`].
    InvalidBlockSize,
}

/// The number that `bytes` spell, most significant byte first.
pub open spec fn be_value(bytes: Seq<u8>) -> nat
    decreases bytes.len(),
{
    if bytes.len() == 0 {
        0
    } else {
        be_value(bytes.drop_last()) * 256 + bytes.last() as nat
    }
}

/// The `width` least significant base58 digits of `value`, most significant
/// first, each written as its symbol.
pub open spec fn base58_digits(value: nat, width: nat) -> Seq<u8>
    decreases width,
{
    if width == 0 {
        Seq::empty()
    } else {
        base58_digits(value / 58, (width - 1) as nat).push(BASE58_CHARS@[(value % 58) as int])
    }
}

/// One block of at most eight bytes, encoded.
pub open spec fn block_symbols(block: Seq<u8>) -> Seq<u8>
    recommends
        block.len() <= 8,
{
    base58_digits(be_value(block), ENCODED_BLOCK_SIZES@[block.len() as int] as nat)
}

/// The base58 text of `data`: its eight-byte blocks encoded one after the
/// other, the last one possibly shorter.
pub open spec fn encoded(data: Seq<u8>) -> Seq<u8>
    decreases data.len(),
{
    if data.len() == 0 {
        Seq::empty()
    } else if data.len() <= 8 {
        block_symbols(data)
    } else {
        block_symbols(data.subrange(0, 8)) + encoded(data.subrange(8, data.len() as int))
    }
}

/// Bytes read as characters, one for one.
pub open spec fn as_chars(symbols: Seq<u8>) -> Seq<char> {
    Seq::new(symbols.len(), |i: int| symbols[i] as char)
}

/// Every byte is printable ASCII.
pub open spec fn is_printable(symbols: Seq<u8>) -> bool {
    forall|i: int| 0 <= i < symbols.len() ==> 33 <= #[trigger] symbols[i] < 127
}

/// Digits are symbols of the alphabet, hence printable, and there are `width`
/// of them.
pub proof fn lemma_digits_shape(value: nat, width: nat)
    ensures
        base58_digits(value, width).len() == width,
        is_printable(base58_digits(value, width)),
    decreases width,
{
    if width > 0 {
        lemma_digits_shape(value / 58, (width - 1) as nat);
        let d = (value % 58) as int;
        assert(33 <= BASE58_CHARS@[d] < 127);
    }
}

/// The length of the text depends on the length of the data alone.
pub open spec fn encoded_len(n: nat) -> nat {
    (n / 8) * 11 + ENCODED_BLOCK_SIZES@[(n % 8) as int] as nat
}

/// The text of `data` is `encoded_len` symbols long and printable.
pub proof fn lemma_encoded_shape(data: Seq<u8>)
    ensures
        encoded(data).len() == encoded_len(data.len()),
        is_printable(encoded(data)),
    decreases data.len(),
{
    if data.len() == 0 {
    } else if data.len() <= 8 {
        lemma_digits_shape(be_value(data), ENCODED_BLOCK_SIZES@[data.len() as int] as nat);
    } else {
        let head = data.subrange(0, 8);
        let tail = data.subrange(8, data.len() as int);
        lemma_digits_shape(be_value(head), 11);
        lemma_encoded_shape(tail);
    }
}

/// A value below `256^8` read from at most eight bytes.
pub proof fn lemma_be_value_bound(bytes: Seq<u8>)
    requires
        bytes.len() <= 8,
    ensures
        be_value(bytes) < vstd::arithmetic::power::pow(256, bytes.len()),
        be_value(bytes) <= u64::MAX,
    decreases bytes.len(),
{
    reveal_with_fuel(vstd::arithmetic::power::pow, 9);
    if bytes.len() > 0 {
        lemma_be_value_bound(bytes.drop_last());
    }
}

/// Reads bytes as a big-endian number. Only the last eight bytes can show
/// in 64 bits: of a longer input the result is the value modulo `2^64`.
pub fn u8be_to_u64(data: &[u8]) -> (res: u64)
    ensures
        res == be_value(data@) % 0x1_0000_0000_0000_0000,
        data@.len() <= 8 ==> res == be_value(data@),
{
    let mut res: u64 = 0;
    let mut i: usize = 0;
    while i < data.len()
        invariant
            i <= data@.len(),
            res == be_value(data@.subrange(0, i as int)) % 0x1_0000_0000_0000_0000,
        decreases data@.len() - i,
    {
        let b: u8 = data[i];
        proof {
            let before = data@.subrange(0, i as int);
            let after = data@.subrange(0, i + 1);
            assert(after.drop_last() == before);
            assert(after.last() == b);
            let wide: u64 = b as u64;
            assert((res << 8 | wide) == (res % 0x0100_0000_0000_0000) * 256 + wide)
                by (bit_vector)
                requires
                    wide < 256,
            ;
            let x = be_value(before) as int;
            assert((x * 256 + wide) % 0x1_0000_0000_0000_0000 == ((x % 0x1_0000_0000_0000_0000)
                % 0x0100_0000_0000_0000) * 256 + wide);
        }
        res = res << 8 | b as u64;
        i += 1;
    }
    proof {
        assert(data@.subrange(0, i as int) == data@);
        if data@.len() <= 8 {
            lemma_be_value_bound(data@);
        }
    }
    res
}

/// Writes the `width` low digits of `num` into the first `width` places of
/// `res` and leaves the others alone.
fn write_digits(res: &mut [u8; 11], num: u64, width: usize)
    requires
        width <= 11,
    ensures
        final(res)@.subrange(0, width as int) == base58_digits(num as nat, width as nat),
        final(res)@.subrange(width as int, 11) == old(res)@.subrange(width as int, 11),
{
    let mut num = num;
    let mut i: usize = width;
    let ghost start = num as nat;
    assert(base58_digits(num as nat, i as nat) + res@.subrange(i as int, width as int)
        == base58_digits(start, width as nat));
    while i > 0
        invariant
            i <= width <= 11,
            res@.subrange(width as int, 11) == old(res)@.subrange(width as int, 11),
            base58_digits(num as nat, i as nat) + res@.subrange(i as int, width as int)
                == base58_digits(start, width as nat),
        decreases i,
    {
        let remainder: usize = (num % 58) as usize;
        let ghost before = num as nat;
        let ghost old_res = res@;
        num = num / 58;
        i -= 1;
        res[i] = BASE58_CHARS[remainder];
        proof {
            let shorter = base58_digits(num as nat, i as nat);
            let longer = base58_digits(before, (i + 1) as nat);
            assert(longer == shorter.push(BASE58_CHARS@[(before % 58) as int]));
            assert(res@.subrange(width as int, 11) == old_res.subrange(width as int, 11));
            assert(shorter + res@.subrange(i as int, width as int) == longer + old_res.subrange(
                i + 1,
                width as int,
            ));
        }
    }
    assert(base58_digits(num as nat, 0) + res@.subrange(0, width as int) == res@.subrange(
        0,
        width as int,
    ));
}

/// Encodes one block of one to eight bytes. The symbols stand at the front of
/// the result; what is left of its eleven places holds the zero symbol.
pub fn encode_block(data: &[u8]) -> (out: Result<[char; 11], EncodeError>)
    ensures
        (data@.len() == 0 || data@.len() > 8) <==> out is Err,
        out is Err ==> out == Err::<[char; 11], EncodeError>(EncodeError::InvalidBlockSize),
        out is Ok ==> out->Ok_0@ == as_chars(
            block_symbols(data@) + Seq::new(
                (11 - block_symbols(data@).len()) as nat,
                |i: int| BASE58_CHARS@[0],
            ),
        ),
{
    if data.len() == 0 || data.len() > FULL_BLOCK_SIZE {
        return Err(EncodeError::InvalidBlockSize);
    }
    let mut symbols: [u8; 11] = [49, 49, 49, 49, 49, 49, 49, 49, 49, 49, 49];
    let num = u8be_to_u64(data);
    let width = ENCODED_BLOCK_SIZES[data.len()];
    write_digits(&mut symbols, num, width);
    proof {
        lemma_digits_shape(num as nat, width as nat);
    }
    let ghost want = block_symbols(data@) + Seq::new(
        (11 - block_symbols(data@).len()) as nat,
        |i: int| BASE58_CHARS@[0],
    );
    assert(symbols@ =~= want) by {
        assert forall|k: int| 0 <= k < 11 implies symbols@[k] == want[k] by {
            if k < width {
                assert(symbols@.subrange(0, width as int)[k] == symbols@[k]);
            } else {
                assert(symbols@.subrange(width as int, 11)[k - width] == symbols@[k]);
            }
        }
    }
    let mut res: [char; 11] = ['1', '1', '1', '1', '1', '1', '1', '1', '1', '1', '1'];
    let mut i: usize = 0;
    while i < 11
        invariant
            i <= 11,
            forall|k: int| 0 <= k < i ==> res@[k] == symbols@[k] as char,
        decreases 11 - i,
    {
        res[i] = symbols[i] as char;
        i += 1;
    }
    assert(res@ =~= as_chars(want));
    Ok(res)
}

/// `String::push` of std: the text grows by the one character.
#[verifier::external_body]
fn push_char(text: &mut String, c: char)
    ensures
        final(text)@ == old(text)@.push(c),
{
    text.push(c);
}

/// Encodes `data` as base58 text, block by block. The `Result` is kept for
/// callers that treat encoding as fallible; no input is refused.
pub fn encode(data: &[u8]) -> (out: Result<String, EncodeError>)
    ensures
        out is Ok,
        out->Ok_0@ == as_chars(encoded(data@)),
        out->Ok_0@.len() == encoded_len(data@.len()),
        is_printable(encoded(data@)),
{
    proof {
        lemma_encoded_shape(data@);
    }
    let mut res = String::new();
    let mut pos: usize = 0;
    let ghost mut done: Seq<u8> = Seq::empty();
    proof {
        assert(data@.subrange(0, data@.len() as int) == data@);
        assert(done + encoded(data@) == encoded(data@));
    }
    while pos < data.len()
        invariant
            pos <= data@.len(),
            res@ == as_chars(done),
            done + encoded(data@.subrange(pos as int, data@.len() as int)) == encoded(data@),
        decreases data@.len() - pos,
    {
        let end: usize = if data.len() - pos > FULL_BLOCK_SIZE {
            pos + FULL_BLOCK_SIZE
        } else {
            data.len()
        };
        let chunk = vstd::slice::slice_subrange(data, pos, end);
        let block = match encode_block(chunk) {
            Ok(block) => block,
            Err(e) => {
                return Err(e);
            },
        };
        let take = ENCODED_BLOCK_SIZES[end - pos];
        proof {
            lemma_digits_shape(be_value(chunk@), take as nat);
        }
        let ghost before = res@;
        let mut k: usize = 0;
        while k < take
            invariant
                k <= take <= 11,
                chunk@.len() <= 8,
                block_symbols(chunk@).len() == take,
                res@ == before + as_chars(block_symbols(chunk@).subrange(0, k as int)),
                block@ == as_chars(
                    block_symbols(chunk@) + Seq::new(
                        (11 - block_symbols(chunk@).len()) as nat,
                        |i: int| BASE58_CHARS@[0],
                    ),
                ),
            decreases take - k,
        {
            push_char(&mut res, block[k]);
            k += 1;
            assert(res@ =~= before + as_chars(block_symbols(chunk@).subrange(0, k as int)));
        }
        proof {
            let rest = data@.subrange(pos as int, data@.len() as int);
            assert(block_symbols(chunk@).subrange(0, take as int) == block_symbols(chunk@));
            if rest.len() > 8 {
                assert(rest.subrange(0, 8) == chunk@);
                assert(rest.subrange(8, rest.len() as int) == data@.subrange(
                    end as int,
                    data@.len() as int,
                ));
            } else {
                assert(rest == chunk@);
                assert(encoded(data@.subrange(end as int, data@.len() as int)) == Seq::<
                    u8,
                >::empty());
            }
            let grown = done + block_symbols(chunk@);
            assert(grown + encoded(data@.subrange(end as int, data@.len() as int)) == encoded(
                data@,
            ));
            assert(res@ =~= as_chars(grown));
            done = grown;
        }
        pos = end;
    }
    assert(done == encoded(data@)) by {
        assert(encoded(data@.subrange(pos as int, data@.len() as int)) == Seq::<u8>::empty());
        assert(done + Seq::<u8>::empty() == done);
    }
    Ok(res)
}

/// Encodes the leading eight bytes of an eleven-byte address prefix (the
/// network byte and the start of the public spend key) as eleven symbols.
///
/// Those symbols are the first eleven of the full base58 text of `bytes`,
/// so a pattern can be tried on them before any address is built.
pub fn encode_11(bytes: &[u8; 11]) -> (out: [u8; 11])
    ensures
        out@ == base58_digits(be_value(bytes@.subrange(0, 8)), 11),
        out@ == encoded(bytes@).subrange(0, 11),
        is_printable(out@),
{
    let head = vstd::slice::slice_subrange(bytes.as_slice(), 0, FULL_BLOCK_SIZE);
    let num = u8be_to_u64(head);
    let mut out: [u8; 11] = [49, 49, 49, 49, 49, 49, 49, 49, 49, 49, 49];
    write_digits(&mut out, num, FULL_ENCODED_BLOCK_SIZE);
    proof {
        assert(out@.subrange(0, 11) == out@);
        lemma_first_block_is_prefix(bytes@);
        lemma_digits_shape(num as nat, 11);
    }
    out
}

/// The text of more than eight bytes begins with the eleven symbols of
/// their first block.
pub proof fn lemma_first_block_is_prefix(data: Seq<u8>)
    requires
        data.len() > 8,
    ensures
        encoded(data).len() >= 11,
        encoded(data).subrange(0, 11) == base58_digits(be_value(data.subrange(0, 8)), 11),
{
    let head = data.subrange(0, 8);
    lemma_digits_shape(be_value(head), 11);
    assert(block_symbols(head) == base58_digits(be_value(head), 11));
    let rest = encoded(data.subrange(8, data.len() as int));
    assert((block_symbols(head) + rest).subrange(0, 11) == block_symbols(head));
}

} // verus!
