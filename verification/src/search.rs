//! The scan: candidates are drawn in batches, compressed together, and the
//! first eleven characters of each address are tried against the pattern.
use crate::curve::{base_multiple, compress_batch, group_order, is_point_encoding};
use crate::encode::{as_chars, encode_11, is_printable};
use crate::keys::{prefix_text, NETWORK_BYTE};
use crate::pattern::Pattern;
use crate::walker::{walk, PointWalker};
use vstd::prelude::*;

verus! {

/// How many points are compressed in one go.
pub const BATCH_SIZE: usize = 10_000;

/// `std::str::from_utf8` on bytes that are all ASCII: the same characters,
/// one for each byte.
#[verifier::external_body]
fn ascii_str<'a>(bytes: &'a [u8; 11]) -> (out: &'a str)
    requires
        forall|i: int| 0 <= i < 11 ==> bytes@[i] < 128,
    ensures
        out@ == as_chars(bytes@),
{
    std::str::from_utf8(bytes).unwrap()
}

/// The eleven bytes that the search encodes for a public spend key: the
/// network byte and the first ten bytes of the key.
pub open spec fn prefix_bytes(key: Seq<u8>) -> Seq<u8> {
    seq![NETWORK_BYTE] + key.subrange(0, 10)
}

/// Whether the pattern accepts the start of the addresses with the public
/// spend key `key`.
pub open spec fn accepts(pattern: Pattern, key: Seq<u8>) -> bool {
    pattern.accepts(prefix_text(key))
}

/// The network byte followed by the first ten bytes of the key.
pub fn address_prefix(key: &[u8; 32]) -> (out: [u8; 11])
    ensures
        out@ == prefix_bytes(key@),
{
    let out: [u8; 11] = [
        NETWORK_BYTE,
        key[0],
        key[1],
        key[2],
        key[3],
        key[4],
        key[5],
        key[6],
        key[7],
        key[8],
        key[9],
    ];
    assert(out@ =~= prefix_bytes(key@));
    out
}

/// The first eleven characters of an address. They are symbols of the base58
/// alphabet, so the bytes that hold them are text as they stand.
#[derive(Clone, Copy, Debug)]
pub struct EncodedPrefix {
    symbols: [u8; 11],
}

impl View for EncodedPrefix {
    type V = Seq<char>;

    /// The eleven characters.
    closed spec fn view(&self) -> Seq<char> {
        as_chars(self.symbols@)
    }
}

impl EncodedPrefix {
    /// Every symbol is printable ASCII.
    pub closed spec fn wf(&self) -> bool {
        is_printable(self.symbols@)
    }

    /// The start of every address with the public spend key `key`.
    pub fn of_key(key: &[u8; 32]) -> (out: EncodedPrefix)
        ensures
            out.wf(),
            out@ == prefix_text(key@),
    {
        let bytes = address_prefix(key);
        let symbols = encode_11(&bytes);
        proof {
            assert(bytes@.subrange(0, 8) =~= seq![NETWORK_BYTE] + key@.subrange(0, 7));
        }
        EncodedPrefix { symbols }
    }

    /// The characters as text.
    pub fn as_str(&self) -> (out: &str)
        requires
            self.wf(),
        ensures
            out@ == self@,
    {
        ascii_str(&self.symbols)
    }

    /// The characters as ASCII bytes.
    pub fn to_bytes(&self) -> (out: [u8; 11])
        ensures
            as_chars(out@) == self@,
    {
        self.symbols
    }
}

/// Tries the pattern on the start of the addresses of one key.
pub fn key_matches(pattern: &Pattern, key: &[u8; 32]) -> (out: bool)
    ensures
        out == accepts(*pattern, key@),
{
    let prefix = EncodedPrefix::of_key(key);
    pattern.matches(prefix.as_str())
}

/// Finds the first key of the batch that the pattern accepts.
pub fn scan_batch(keys: &Vec<[u8; 32]>, pattern: &Pattern) -> (out: Option<usize>)
    ensures
        match out {
            Some(i) => i < keys@.len() && accepts(*pattern, keys@[i as int]@) && forall|j: int|
                0 <= j < i ==> !accepts(*pattern, (#[trigger] keys@[j])@),
            None => forall|j: int| 0 <= j < keys@.len() ==> !accepts(*pattern, (#[trigger] keys@[j])@),
        },
{
    let mut i: usize = 0;
    while i < keys.len()
        invariant
            i <= keys@.len(),
            forall|j: int| 0 <= j < i ==> !accepts(*pattern, (#[trigger] keys@[j])@),
        decreases keys@.len() - i,
    {
        if key_matches(pattern, &keys[i]) {
            return Some(i);
        }
        i += 1;
    }
    None
}

/// A candidate that the pattern accepted.
#[derive(Clone, Copy, Debug, PartialEq, Eq)]
pub struct Candidate {
    /// Its number in the walk, counted from the origin.
    pub tries: u64,
    /// Its public spend key, compressed.
    pub key: [u8; 32],
}

/// Draws the next `count` points of the walk, compresses them as one batch
/// and scans them in the order of the walk.
///
/// The answer is the first candidate of the batch that the pattern accepts,
/// if there is one; the walker has moved past the whole batch either way.
pub fn search_batch(walker: &mut PointWalker, pattern: &Pattern, count: usize) -> (out: Option<
    Candidate,
>)
    requires
        old(walker).wf(),
        old(walker).steps() + count <= u64::MAX,
    ensures
        final(walker).wf(),
        final(walker).seed() == old(walker).seed(),
        final(walker).origin() == old(walker).origin(),
        final(walker).steps() == old(walker).steps() + count,
        match out {
            Some(c) => {
                &&& old(walker).steps() <= c.tries < old(walker).steps() + count
                &&& c.key@ == walk(old(walker).origin(), c.tries as nat)
                &&& is_point_encoding(c.key@)
                &&& accepts(*pattern, c.key@)
                &&& forall|t: int|
                    old(walker).steps() <= t < c.tries ==> !accepts(
                        *pattern,
                        #[trigger] walk(old(walker).origin(), t as nat),
                    )
                &&& forall|a: nat|
                    a < group_order() && old(walker).origin() == #[trigger] base_multiple(a)
                        ==> c.key@ == base_multiple((a + c.tries as nat) % group_order())
            },
            None => forall|t: int|
                old(walker).steps() <= t < old(walker).steps() + count ==> !accepts(
                    *pattern,
                    #[trigger] walk(old(walker).origin(), t as nat),
                ),
        },
{
    let ghost first = walker.steps();
    let ghost origin = walker.origin();
    let points = walker.next_batch(count);
    let keys = compress_batch(&points);
    let found = scan_batch(&keys, pattern);
    proof {
        assert forall|i: int| 0 <= i < count implies (#[trigger] keys@[i])@ == walk(
            origin,
            (first + i) as nat,
        ) by {
            assert(keys@[i]@ == points@[i]@);
        }
    }
    match found {
        Some(i) => {
            let tries: u64 = walker.drawn() - (count - i) as u64;
            let key = keys[i];
            proof {
                assert(key@ == points@[i as int]@);
                assert forall|t: int| first <= t < tries implies !accepts(
                    *pattern,
                    #[trigger] walk(origin, t as nat),
                ) by {
                    assert(keys@[t - first]@ == walk(origin, t as nat));
                }
                assert forall|a: nat|
                    a < group_order() && origin == #[trigger] base_multiple(a) implies key@
                    == base_multiple((a + tries as nat) % group_order()) by {
                    assert(points@[i as int]@ == base_multiple(
                        (a + first as nat + i as nat) % group_order(),
                    ));
                }
            }
            Some(Candidate { tries, key })
        },
        None => {
            proof {
                assert forall|t: int| first <= t < first + count implies !accepts(
                    *pattern,
                    #[trigger] walk(origin, t as nat),
                ) by {
                    assert(keys@[t - first]@ == walk(origin, t as nat));
                }
            }
            None
        },
    }
}

} // verus!
