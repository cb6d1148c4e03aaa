//! Scalars and points of the Ed25519 group, as far as the search needs them.
//!
//! The arithmetic is `curve25519-dalek`'s. What this module adds is a
//! vocabulary in which the rest of the library can say what that arithmetic
//! gave: a scalar is the number below the group order that its bytes spell,
//! and a point is known by its canonical 32-byte encoding.
use curve25519_dalek::edwards::CompressedEdwardsY;
use curve25519_dalek::edwards::EdwardsPoint;
use vstd::prelude::*;

verus! {

/// `curve25519_dalek::edwards::EdwardsPoint`, carried through as an opaque
/// value.
#[verifier::external_type_specification]
#[verifier::external_body]
pub struct ExEdwardsPoint(curve25519_dalek::edwards::EdwardsPoint);

/// The order of the base point: `2^252 + 27742317777372353535851937790883648493`.
pub open spec fn group_order() -> nat {
    7237005577332262213973186563042994240857116359379907606001950938285454250989nat
}

/// The number that `bytes` spell, least significant byte first.
pub open spec fn le_value(bytes: Seq<u8>) -> nat
    decreases bytes.len(),
{
    if bytes.len() == 0 {
        0
    } else {
        bytes[0] as nat + 256 * le_value(bytes.drop_first())
    }
}

/// The `n` little-endian bytes of `value`, which is to be below `256^n`.
pub open spec fn le_bytes(value: nat, n: nat) -> Seq<u8>
    decreases n,
{
    if n == 0 {
        Seq::empty()
    } else {
        seq![(value % 256) as u8] + le_bytes(value / 256, (n - 1) as nat)
    }
}

/// Bytes are the little-endian bytes of their own value.
pub proof fn lemma_le_bytes_of_value(bytes: Seq<u8>)
    ensures
        le_bytes(le_value(bytes), bytes.len()) == bytes,
    decreases bytes.len(),
{
    if bytes.len() > 0 {
        let rest = bytes.drop_first();
        lemma_le_bytes_of_value(rest);
        let v = le_value(bytes);
        assert(v % 256 == bytes[0] as nat && v / 256 == le_value(rest)) by {
            let hi = le_value(rest) as int;
            let lo = bytes[0] as int;
            vstd::arithmetic::div_mod::lemma_fundamental_div_mod_converse(
                lo + 256 * hi,
                256,
                hi,
                lo,
            );
        }
        assert(seq![bytes[0]] + rest =~= bytes);
    }
}

/// The canonical encoding of a point: what `EdwardsPoint::compress` gives
/// for it.
pub uninterp spec fn point_encoding(p: EdwardsPoint) -> Seq<u8>;

/// The encoding of `k` times the base point (`EdwardsPoint::mul_base` on the
/// scalar `k`).
pub uninterp spec fn base_multiple(k: nat) -> Seq<u8>;

/// The encoding of the sum of the points that `a` and `b` encode (`+` on
/// `EdwardsPoint`).
pub uninterp spec fn point_sum(a: Seq<u8>, b: Seq<u8>) -> Seq<u8>;

/// The encoding of the point that `CompressedEdwardsY::decompress` finds in
/// `bytes`, if it finds one.
pub uninterp spec fn decoded_point(bytes: Seq<u8>) -> Option<Seq<u8>>;

/// `bytes` is the canonical encoding of a point.
pub open spec fn is_point_encoding(bytes: Seq<u8>) -> bool {
    bytes.len() == 32 && decoded_point(bytes) == Some(bytes)
}

/// An integer modulo the group order, held as 32 little-endian bytes.
#[derive(Clone, Copy, Debug)]
pub struct Scalar {
    bytes: [u8; 32],
}

/// A point of the curve group.
#[derive(Clone, Copy, Debug)]
pub struct CurvePoint {
    inner: EdwardsPoint,
}

impl View for Scalar {
    type V = nat;

    /// The number that the bytes spell.
    closed spec fn view(&self) -> nat {
        le_value(self.bytes@)
    }
}

impl View for CurvePoint {
    type V = Seq<u8>;

    /// The canonical encoding of the point.
    closed spec fn view(&self) -> Seq<u8> {
        point_encoding(self.inner)
    }
}

/// `Scalar::from_bytes_mod_order_wide`: reduces a 512-bit little-endian
/// number modulo the group order.
#[verifier::external_body]
fn dalek_reduce_wide(bytes: &[u8; 64]) -> (out: Scalar)
    ensures
        out.wf(),
        out@ == le_value(bytes@) % group_order(),
{
    Scalar { bytes: curve25519_dalek::scalar::Scalar::from_bytes_mod_order_wide(bytes).to_bytes() }
}

/// `Scalar::from_canonical_bytes`: accepts exactly the encodings of numbers
/// below the group order, and keeps the bytes.
#[verifier::external_body]
fn dalek_from_canonical(bytes: &[u8; 32]) -> (out: Option<Scalar>)
    ensures
        out is Some <==> le_value(bytes@) < group_order(),
        out matches Some(s) ==> s.bytes@ == bytes@,
{
    let found: Option<curve25519_dalek::scalar::Scalar> =
        curve25519_dalek::scalar::Scalar::from_canonical_bytes(*bytes).into();
    found.map(|s| Scalar { bytes: s.to_bytes() })
}

/// `Scalar::from(u64)`: the scalar with that value.
#[verifier::external_body]
fn dalek_from_u64(n: u64) -> (out: Scalar)
    ensures
        out.wf(),
        out@ == n,
{
    Scalar { bytes: curve25519_dalek::scalar::Scalar::from(n).to_bytes() }
}

/// `+` on `curve25519_dalek::scalar::Scalar`: addition modulo the group
/// order. The operands are reduced on the way in, so the claim holds of any
/// bytes.
#[verifier::external_body]
fn dalek_scalar_add(a: &Scalar, b: &Scalar) -> (out: Scalar)
    ensures
        out.wf(),
        out@ == (a@ + b@) % group_order(),
{
    let x = curve25519_dalek::scalar::Scalar::from_bytes_mod_order(a.bytes);
    let y = curve25519_dalek::scalar::Scalar::from_bytes_mod_order(b.bytes);
    Scalar { bytes: (x + y).to_bytes() }
}

/// `EdwardsPoint::mul_base`: the scalar times the base point. The result is
/// named, not computed here; the scalar is reduced on the way in.
#[verifier::external_body]
fn dalek_mul_base(s: &Scalar) -> (out: CurvePoint)
    ensures
        out@ == base_multiple(s@ % group_order()),
{
    let x = curve25519_dalek::scalar::Scalar::from_bytes_mod_order(s.bytes);
    CurvePoint { inner: EdwardsPoint::mul_base(&x) }
}

/// `+` on `EdwardsPoint`: the group operation. Besides naming the result,
/// the contract states the one law of the group that the library builds on:
/// multiples of the base point add as their scalars do, modulo the order of
/// the base point. That law is arithmetic of the curve and is not proved
/// here.
#[verifier::external_body]
fn dalek_point_add(a: &CurvePoint, b: &CurvePoint) -> (out: CurvePoint)
    ensures
        out@ == point_sum(a@, b@),
        forall|j: nat, k: nat|
            j < group_order() && k < group_order() && a@ == #[trigger] base_multiple(j) && b@
                == #[trigger] base_multiple(k) ==> out@ == base_multiple(
                (j + k) % group_order(),
            ),
{
    CurvePoint { inner: a.inner + b.inner }
}

/// `EdwardsPoint::compress`: the canonical encoding, which decompresses to
/// the same point again.
#[verifier::external_body]
fn dalek_compress(p: &CurvePoint) -> (out: [u8; 32])
    ensures
        out@ == point_encoding(p.inner),
        is_point_encoding(out@),
{
    p.inner.compress().to_bytes()
}

/// `EdwardsPoint::compress_batch_alloc`: the encodings of all the points, in
/// their order, each the one that `compress` gives for that point.
#[verifier::external_body]
fn dalek_compress_batch(points: &Vec<CurvePoint>) -> (out: Vec<[u8; 32]>)
    ensures
        out@.len() == points@.len(),
        forall|i: int| 0 <= i < points@.len() ==> (#[trigger] out@[i])@ == points@[i]@,
        forall|i: int| 0 <= i < points@.len() ==> is_point_encoding((#[trigger] out@[i])@),
{
    let inner: Vec<EdwardsPoint> = points.iter().map(|p| p.inner).collect();
    EdwardsPoint::compress_batch_alloc(&inner).iter().map(|c| c.to_bytes()).collect()
}

/// `CompressedEdwardsY::decompress`: the point that the bytes encode, where
/// they encode one.
#[verifier::external_body]
fn dalek_decompress(bytes: &[u8; 32]) -> (out: Option<CurvePoint>)
    ensures
        match out {
            Some(p) => decoded_point(bytes@) == Some(p@),
            None => decoded_point(bytes@) is None,
        },
{
    CompressedEdwardsY(*bytes).decompress().map(|inner| CurvePoint { inner })
}

impl Scalar {
    /// The bytes spell a number below the group order.
    pub open spec fn wf(&self) -> bool {
        self@ < group_order()
    }

    /// The little-endian bytes.
    pub closed spec fn spec_bytes(&self) -> Seq<u8> {
        self.bytes@
    }

    /// The view is the value of the bytes, and the bytes are the 32
    /// little-endian bytes of the view.
    pub proof fn lemma_view_is_value(&self)
        ensures
            self@ == le_value(self.spec_bytes()),
            self.spec_bytes().len() == 32,
            self.spec_bytes() == le_bytes(self@, 32),
    {
        lemma_le_bytes_of_value(self.bytes@);
    }

    /// Reduces 64 uniformly random bytes to a scalar that is as good as
    /// uniform.
    pub fn from_bytes_mod_order_wide(bytes: &[u8; 64]) -> (out: Scalar)
        ensures
            out.wf(),
            out@ == le_value(bytes@) % group_order(),
    {
        dalek_reduce_wide(bytes)
    }

    /// The scalar that `bytes` spell, if they spell a number below the group
    /// order. Nothing is reduced silently.
    pub fn from_canonical_bytes(bytes: &[u8; 32]) -> (out: Option<Scalar>)
        ensures
            out is Some <==> le_value(bytes@) < group_order(),
            out matches Some(s) ==> s.wf() && s.spec_bytes() == bytes@ && s@ == le_value(bytes@),
    {
        dalek_from_canonical(bytes)
    }

    /// The scalar with the value `n`.
    pub fn from_u64(n: u64) -> (out: Scalar)
        ensures
            out.wf(),
            out@ == n,
    {
        dalek_from_u64(n)
    }

    /// The sum modulo the group order.
    pub fn add(&self, other: &Scalar) -> (out: Scalar)
        ensures
            out.wf(),
            out@ == (self@ + other@) % group_order(),
    {
        dalek_scalar_add(self, other)
    }

    /// The scalar `tries` further on: `self + tries` modulo the group order.
    pub fn add_u64(&self, tries: u64) -> (out: Scalar)
        ensures
            out.wf(),
            out@ == (self@ + tries as nat) % group_order(),
    {
        let offset = dalek_from_u64(tries);
        dalek_scalar_add(self, &offset)
    }

    /// The little-endian bytes.
    pub fn to_bytes(&self) -> (out: [u8; 32])
        ensures
            out@ == self.spec_bytes(),
            le_value(out@) == self@,
    {
        self.bytes
    }

    /// The public point of this scalar: the scalar times the base point.
    pub fn public_point(&self) -> (out: CurvePoint)
        ensures
            out@ == base_multiple(self@ % group_order()),
            self.wf() ==> out@ == base_multiple(self@),
    {
        proof {
            if self.wf() {
                assert(self@ % group_order() == self@) by (nonlinear_arith)
                    requires
                        self@ < group_order(),
                ;
            }
        }
        dalek_mul_base(self)
    }
}

impl CurvePoint {
    /// The base point itself, the step of every walk.
    pub fn base_point() -> (out: CurvePoint)
        ensures
            out@ == base_multiple(1),
    {
        let one = dalek_from_u64(1);
        one.public_point()
    }

    /// The sum of two points.
    ///
    /// Where both are multiples of the base point, by `j` and by `k`, the
    /// sum is the multiple by `j + k` modulo the group order.
    pub fn add(&self, other: &CurvePoint) -> (out: CurvePoint)
        ensures
            out@ == point_sum(self@, other@),
            forall|j: nat, k: nat|
                j < group_order() && k < group_order() && self@ == #[trigger] base_multiple(j)
                    && other@ == #[trigger] base_multiple(k) ==> out@ == base_multiple(
                    (j + k) % group_order(),
                ),
    {
        dalek_point_add(self, other)
    }

    /// The canonical 32-byte encoding.
    pub fn compress(&self) -> (out: [u8; 32])
        ensures
            out@ == self@,
            is_point_encoding(out@),
    {
        dalek_compress(self)
    }

    /// The point that `bytes` encode, where they encode one. The encoding
    /// of the point found is canonical and may differ from `bytes`.
    pub fn decompress(bytes: &[u8; 32]) -> (out: Option<CurvePoint>)
        ensures
            match out {
                Some(p) => decoded_point(bytes@) == Some(p@),
                None => decoded_point(bytes@) is None,
            },
    {
        dalek_decompress(bytes)
    }
}

/// Compresses a batch of points in one go. The result holds, in the same
/// order, for each point exactly what [`CurvePoint::compress`] gives for it.
pub fn compress_batch(points: &Vec<CurvePoint>) -> (out: Vec<[u8; 32]>)
    ensures
        out@.len() == points@.len(),
        forall|i: int| 0 <= i < points@.len() ==> (#[trigger] out@[i])@ == points@[i]@,
        forall|i: int| 0 <= i < points@.len() ==> is_point_encoding((#[trigger] out@[i])@),
{
    dalek_compress_batch(points)
}

/// Compresses the points one at a time. It is what [`compress_batch`] is
/// measured against: the two agree on every batch.
pub fn compress_each(points: &Vec<CurvePoint>) -> (out: Vec<[u8; 32]>)
    ensures
        out@.len() == points@.len(),
        forall|i: int| 0 <= i < points@.len() ==> (#[trigger] out@[i])@ == points@[i]@,
        forall|i: int| 0 <= i < points@.len() ==> is_point_encoding((#[trigger] out@[i])@),
{
    let mut out: Vec<[u8; 32]> = Vec::new();
    let mut i: usize = 0;
    while i < points.len()
        invariant
            i <= points@.len(),
            out@.len() == i,
            forall|k: int| 0 <= k < i ==> (#[trigger] out@[k])@ == points@[k]@,
            forall|k: int| 0 <= k < i ==> is_point_encoding((#[trigger] out@[k])@),
        decreases points@.len() - i,
    {
        out.push(points[i].compress());
        i += 1;
    }
    out
}

} // verus!
