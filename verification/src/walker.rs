//! A walk along the curve: one scalar multiplication to start with, then one
//! point addition for every further candidate.
use crate::curve::{base_multiple, group_order, point_sum, CurvePoint, Scalar};
use vstd::prelude::*;

verus! {

/// The encoding of the point reached from `start` by adding the base point
/// `n` times.
pub open spec fn walk(start: Seq<u8>, n: nat) -> Seq<u8>
    decreases n,
{
    if n == 0 {
        start
    } else {
        point_sum(walk(start, (n - 1) as nat), base_multiple(1))
    }
}

/// Stepping past the group order and reducing afterwards is the same as
/// reducing at every step.
pub proof fn lemma_step_mod(j: nat, n: nat)
    ensures
        (((j + n) % group_order()) + 1) % group_order() == (j + n + 1) % group_order(),
{
    let l = group_order() as int;
    let x = (j + n) as int;
    assert(((x % l) + 1) % l == (x + 1) % l) by {
        vstd::arithmetic::div_mod::lemma_add_mod_noop(x, 1, l);
        vstd::arithmetic::div_mod::lemma_small_mod(1, l as nat);
    }
}

/// An endless sequence of candidate points. Point number `n` is the origin
/// plus `n` times the base point; for a walker made by [`PointWalker::new`]
/// that is the public point of the scalar `seed + n`.
pub struct PointWalker {
    seed: Scalar,
    origin: Ghost<Seq<u8>>,
    point: CurvePoint,
    offset: CurvePoint,
    steps: u64,
}

impl PointWalker {
    /// The scalar that the walk was seeded with.
    pub closed spec fn seed(&self) -> Scalar {
        self.seed
    }

    /// The encoding of point number 0.
    pub closed spec fn origin(&self) -> Seq<u8> {
        self.origin@
    }

    /// The encoding of the point that comes next.
    pub closed spec fn current(&self) -> Seq<u8> {
        self.point@
    }

    /// How many points were handed out.
    pub closed spec fn steps(&self) -> u64 {
        self.steps
    }

    /// The point that comes next is the one that `steps` additions lead to,
    /// and if the origin is the base point times `a`, it is the base point
    /// times `a + steps`.
    pub closed spec fn wf(&self) -> bool {
        &&& self.seed.wf()
        &&& self.offset@ == base_multiple(1)
        &&& self.point@ == walk(self.origin@, self.steps as nat)
        &&& forall|a: nat|
            a < group_order() && self.origin@ == #[trigger] base_multiple(a) ==> self.point@
                == base_multiple((a + self.steps as nat) % group_order())
    }

    /// What [`PointWalker::wf`] says, for callers outside this module.
    pub proof fn lemma_wf(&self)
        requires
            self.wf(),
        ensures
            self.seed().wf(),
            self.current() == walk(self.origin(), self.steps() as nat),
            forall|a: nat|
                a < group_order() && self.origin() == #[trigger] base_multiple(a)
                    ==> self.current() == base_multiple(
                    (a + self.steps() as nat) % group_order(),
                ),
    {
    }

    /// A walk that starts at the public point of `seed`.
    pub fn new(seed: Scalar) -> (walker: PointWalker)
        requires
            seed.wf(),
        ensures
            walker.wf(),
            walker.seed() == seed,
            walker.steps() == 0,
            walker.origin() == base_multiple(seed@),
    {
        let origin = seed.public_point();
        let offset = CurvePoint::base_point();
        let walker = PointWalker { seed, origin: Ghost(origin@), point: origin, offset, steps: 0 };
        proof {
            assert forall|a: nat|
                a < group_order() && walker.origin@ == #[trigger] base_multiple(a) implies walker.point@
                == base_multiple((a + walker.steps as nat) % group_order()) by {
                vstd::arithmetic::div_mod::lemma_small_mod(a, group_order());
            }
        }
        walker
    }

    /// A walk on behalf of somebody else: it starts at `base`, the public
    /// point that they gave out, plus the public point of `seed`.
    pub fn with_base(seed: Scalar, base: &CurvePoint) -> (walker: PointWalker)
        requires
            seed.wf(),
        ensures
            walker.wf(),
            walker.seed() == seed,
            walker.steps() == 0,
            walker.origin() == point_sum(base@, base_multiple(seed@)),
            forall|b: nat|
                b < group_order() && base@ == #[trigger] base_multiple(b) ==> walker.origin()
                    == base_multiple((b + seed@) % group_order()),
    {
        let own = seed.public_point();
        let origin = base.add(&own);
        let offset = CurvePoint::base_point();
        let walker = PointWalker { seed, origin: Ghost(origin@), point: origin, offset, steps: 0 };
        proof {
            assert forall|a: nat|
                a < group_order() && walker.origin@ == #[trigger] base_multiple(a) implies walker.point@
                == base_multiple((a + walker.steps as nat) % group_order()) by {
                vstd::arithmetic::div_mod::lemma_small_mod(a, group_order());
            }
        }
        walker
    }

    /// Hands out the next point and moves on by one addition.
    pub fn advance(&mut self) -> (out: CurvePoint)
        requires
            old(self).wf(),
            old(self).steps() < u64::MAX,
        ensures
            final(self).wf(),
            final(self).seed() == old(self).seed(),
            final(self).origin() == old(self).origin(),
            final(self).steps() == old(self).steps() + 1,
            out@ == old(self).current(),
    {
        let out = self.point;
        let next = self.point.add(&self.offset);
        proof {
            assert(1 < group_order());
            assert forall|a: nat|
                a < group_order() && self.origin@ == #[trigger] base_multiple(a) implies next@
                == base_multiple((a + (self.steps + 1) as nat) % group_order()) by {
                let j = (a + self.steps as nat) % group_order();
                assert(self.point@ == base_multiple(j));
                assert(self.offset@ == base_multiple(1));
                lemma_step_mod(a, self.steps as nat);
                assert(next@ == base_multiple((j + 1) % group_order()));
            }
        }
        self.point = next;
        self.steps = self.steps + 1;
        out
    }

    /// Hands out the next `count` points, in the order of the walk.
    pub fn next_batch(&mut self, count: usize) -> (out: Vec<CurvePoint>)
        requires
            old(self).wf(),
            old(self).steps() + count <= u64::MAX,
        ensures
            final(self).wf(),
            final(self).seed() == old(self).seed(),
            final(self).origin() == old(self).origin(),
            final(self).steps() == old(self).steps() + count,
            out@.len() == count,
            forall|i: int|
                0 <= i < count ==> (#[trigger] out@[i])@ == walk(
                    old(self).origin(),
                    (old(self).steps() + i) as nat,
                ),
            forall|i: int, a: nat|
                0 <= i < count && a < group_order() && old(self).origin() == #[trigger] base_multiple(
                    a,
                ) ==> (#[trigger] out@[i])@ == base_multiple(
                    (a + old(self).steps() as nat + i as nat) % group_order(),
                ),
    {
        let mut out: Vec<CurvePoint> = Vec::with_capacity(count);
        let mut i: usize = 0;
        while i < count
            invariant
                i <= count,
                self.wf(),
                self.seed() == old(self).seed(),
                self.origin() == old(self).origin(),
                self.steps() == old(self).steps() + i,
                old(self).steps() + count <= u64::MAX,
                out@.len() == i,
                forall|k: int|
                    0 <= k < i ==> (#[trigger] out@[k])@ == walk(
                        old(self).origin(),
                        (old(self).steps() + k) as nat,
                    ),
                forall|k: int, a: nat|
                    0 <= k < i && a < group_order() && old(self).origin()
                        == #[trigger] base_multiple(a) ==> (#[trigger] out@[k])@ == base_multiple(
                        (a + old(self).steps() as nat + k as nat) % group_order(),
                    ),
            decreases count - i,
        {
            proof {
                self.lemma_wf();
            }
            let point = self.advance();
            out.push(point);
            i += 1;
        }
        out
    }

    /// How many points were handed out so far.
    pub fn drawn(&self) -> (out: u64)
        ensures
            out == self.steps(),
    {
        self.steps
    }

    /// The secret scalar of candidate number `tries`: the seed plus `tries`,
    /// modulo the group order.
    pub fn scalar_at(&self, tries: u64) -> (out: Scalar)
        ensures
            out.wf(),
            out@ == (self.seed()@ + tries as nat) % group_order(),
    {
        self.seed.add_u64(tries)
    }
}

} // verus!
