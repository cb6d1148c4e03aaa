//! The work of one worker, and the split-key protocol.
//!
//! A worker seeds a walk at random, scans it batch by batch and, on the
//! first match, claims the run; only the worker whose claim succeeds builds
//! and returns a result. In split-key mode the walk starts at a public
//! point that somebody else gave out, so that the worker never learns the
//! key that it helps to find.
//!
//! What the shared flag answers is not known beforehand. The worker
//! therefore asks through a [`Watch`], which notes every answer, and its
//! contract says how the call ends for the answers that were given.
use crate::curve::{
    base_multiple, group_order, is_point_encoding, le_bytes, point_sum, CurvePoint, Scalar,
};
use crate::keys::{
    address_text, hex_text, monero_address, prefix_text, private_key_text, public_key_text,
    FoundResult,
};
use crate::pattern::Pattern;
use crate::search::{accepts, search_batch, Candidate, BATCH_SIZE};
use crate::state::{step, RunModel, Step, Watch, BATCH_SIZE_U64};
use crate::walker::{walk, PointWalker};
use vstd::prelude::*;

verus! {

/// `rand::Rng::fill` on the thread's generator: 64 bytes, of which nothing
/// is known beforehand.
#[verifier::external_body]
fn random_wide() -> (out: [u8; 64]) {
    let mut x = [0u8; 64];
    rand::Rng::fill(&mut rand::thread_rng(), &mut x[..]);
    x
}

/// A scalar drawn at random, uniform up to a negligible bias.
pub fn rand_scalar() -> (out: Scalar)
    ensures
        out.wf(),
{
    let wide = random_wide();
    Scalar::from_bytes_mod_order_wide(&wide)
}

/// A private scalar and the public point that belongs to it. Only the public
/// half is ever given out.
#[derive(Clone, Copy, Debug)]
pub struct SplitKeyFragment {
    /// The half that stays with its owner.
    pub private: Scalar,
    /// The half that is given out.
    pub public: CurvePoint,
}

impl SplitKeyFragment {
    /// The public half is the private half times the base point.
    pub open spec fn wf(&self) -> bool {
        self.private.wf() && self.public@ == base_multiple(self.private@)
    }

    /// The fragment for a given private scalar.
    pub fn new(private: Scalar) -> (out: SplitKeyFragment)
        requires
            private.wf(),
        ensures
            out.wf(),
            out.private == private,
    {
        SplitKeyFragment { private, public: private.public_point() }
    }

    /// Both halves in writing, the private one first.
    pub fn to_text(&self) -> (out: (String, String))
        requires
            self.private.wf(),
        ensures
            out.0@ == hex_text(self.private.spec_bytes()),
            out.1@ == hex_text(self.public@),
    {
        (private_key_text(&self.private), public_key_text(&self.public))
    }
}

/// A fresh fragment with a random private half.
pub fn generate_fragment() -> (out: SplitKeyFragment)
    ensures
        out.wf(),
{
    SplitKeyFragment::new(rand_scalar())
}

/// A fresh fragment, in writing: the private half to keep, the public half
/// to give out.
pub fn calculate_part_split_key() -> (out: (String, String))
    ensures
        exists|f: SplitKeyFragment|
            f.wf() && out.0@ == hex_text(f.private.spec_bytes()) && out.1@ == hex_text(f.public@),
{
    let fragment = generate_fragment();
    let out = fragment.to_text();
    assert(fragment.wf() && out.0@ == hex_text(fragment.private.spec_bytes()) && out.1@
        == hex_text(fragment.public@));
    out
}

/// The point from which a helper walks: the public point that was given out
/// plus the helper's own.
///
/// Where the two are the public points of `a` and of `b`, the sum is the
/// public point of `a + b`.
pub fn search_with_base(public_point: &CurvePoint, offset_point: &CurvePoint) -> (out: CurvePoint)
    ensures
        out@ == point_sum(public_point@, offset_point@),
        forall|a: nat, b: nat|
            a < group_order() && b < group_order() && public_point@ == #[trigger] base_multiple(a)
                && offset_point@ == #[trigger] base_multiple(b) ==> out@ == base_multiple(
                (a + b) % group_order(),
            ),
{
    public_point.add(offset_point)
}

/// The whole private key of two private fragments: their sum modulo the
/// group order. Whether it belongs to the public point that was given out is
/// for the caller to check.
pub fn join(private_a: &Scalar, private_b: &Scalar) -> (out: Scalar)
    ensures
        out.wf(),
        out@ == (private_a@ + private_b@) % group_order(),
{
    private_a.add(private_b)
}

/// The public point that two fragments stand for together. It is the sum of
/// their public points and, which is the same, the public point of their
/// joined private halves.
pub fn joined_public_point(a: &SplitKeyFragment, b: &SplitKeyFragment) -> (out: CurvePoint)
    ensures
        out@ == point_sum(a.public@, b.public@),
        a.wf() && b.wf() ==> out@ == base_multiple((a.private@ + b.private@) % group_order()),
{
    search_with_base(&a.public, &b.public)
}

/// True if `r` is the result for the candidate with the public spend key
/// `key` and the secret scalar `secret`, with `view` as its view key.
pub open spec fn is_result_for(r: FoundResult, key: Seq<u8>, secret: nat, view: Scalar) -> bool {
    &&& r.address@ == address_text(key, base_multiple(view@))
    &&& r.address@.len() == 95
    &&& r.address@.subrange(0, 11) == prefix_text(key)
    &&& r.spend_key@ == hex_text(le_bytes(secret, 32))
    &&& r.view_key@ == hex_text(view.spec_bytes())
}

/// Builds the result for a candidate: the address of its public spend key
/// and of the view key's public point, and both private scalars in writing.
pub fn found_result(secret: &Scalar, key: &[u8; 32], view: &Scalar) -> (out: FoundResult)
    requires
        secret.wf(),
        view.wf(),
        is_point_encoding(key@),
    ensures
        is_result_for(out, key@, secret@, *view),
{
    let public_view = view.public_point().compress();
    proof {
        secret.lemma_view_is_value();
    }
    FoundResult {
        address: monero_address(key, &public_view),
        spend_key: private_key_text(secret),
        view_key: private_key_text(view),
    }
}

/// Puts two private fragments together and gives the key pair a view key of
/// its own: the address of the joined key, the joined key and the view key.
pub fn join_with_view(private_a: &Scalar, private_b: &Scalar, view: &Scalar) -> (out: FoundResult)
    requires
        view.wf(),
    ensures
        is_result_for(
            out,
            base_multiple((private_a@ + private_b@) % group_order()),
            (private_a@ + private_b@) % group_order(),
            *view,
        ),
{
    let spend = join(private_a, private_b);
    let key = spend.public_point().compress();
    found_result(&spend, &key, view)
}

/// Puts two private fragments together, with a view key drawn at random.
pub fn join_split_key(private_a: &Scalar, private_b: &Scalar) -> (out: FoundResult)
    ensures
        exists|view: Scalar|
            view.wf() && is_result_for(
                out,
                base_multiple((private_a@ + private_b@) % group_order()),
                (private_a@ + private_b@) % group_order(),
                view,
            ),
{
    let view = rand_scalar();
    let out = join_with_view(private_a, private_b, &view);
    assert(view.wf() && is_result_for(
        out,
        base_multiple((private_a@ + private_b@) % group_order()),
        (private_a@ + private_b@) % group_order(),
        view,
    ));
    out
}

/// How a worker's call ended.
#[derive(Clone, Debug)]
pub enum WorkerExit {
    /// This worker found a match and its claim of the run succeeded.
    Found(FoundResult),
    /// The run was over: the flag was set when the worker looked, or a match
    /// of its own came too late and was discarded.
    Stopped,
    /// The batches that were asked for are scanned and the run goes on.
    Exhausted,
}

/// What a worker does once a batch is scanned.
#[derive(Clone, Copy, Debug, PartialEq, Eq)]
pub enum BatchStep {
    /// The match is this worker's to deliver: its claim of the run was won,
    /// so the flag is set, and the call ends with the result.
    Deliver(Candidate),
    /// The match came too late: the claim was lost, the match is dropped and
    /// the call ends without a result.
    Discard,
    /// Nothing matched and the flag was seen set: the call ends, and the
    /// batch is not counted.
    Halt,
    /// Nothing matched and the run goes on: the batch is counted and the
    /// next one is scanned.
    GoOn,
}

/// The step that follows a scan. With a match the worker claims the run,
/// and `claimed` is what [`Watch::try_claim`] answered; without one it
/// looks at the flag, and `stopped` is what [`Watch::is_stopped`]
/// answered. The answer that was not asked for does not count.
pub open spec fn batch_step(found: Option<Candidate>, claimed: bool, stopped: bool) -> BatchStep {
    match found {
        Some(c) => if claimed {
            BatchStep::Deliver(c)
        } else {
            BatchStep::Discard
        },
        None => if stopped {
            BatchStep::Halt
        } else {
            BatchStep::GoOn
        },
    }
}

/// Decides the step that follows a scan, from what the scan found and what
/// the shared state answered.
pub fn settle_batch(found: Option<Candidate>, claimed: bool, stopped: bool) -> (out: BatchStep)
    ensures
        out == batch_step(found, claimed, stopped),
{
    match found {
        Some(c) => if claimed {
            BatchStep::Deliver(c)
        } else {
            BatchStep::Discard
        },
        None => if stopped {
            BatchStep::Halt
        } else {
            BatchStep::GoOn
        },
    }
}

/// The operation on the shared state that belongs to a step: the claim
/// where there was a match, the report of the batch where the worker goes
/// on, and none where it halts.
pub open spec fn operation_of(step: BatchStep) -> Option<Step> {
    match step {
        BatchStep::Deliver(_) => Some(Step::Claim),
        BatchStep::Discard => Some(Step::Claim),
        BatchStep::Halt => None,
        BatchStep::GoOn => Some(Step::BatchReported),
    }
}

/// The step that a worker takes on the shared state `m` after a scan: the
/// claim is won exactly if the flag is clear, and the flag is seen as it
/// is.
pub open spec fn step_on(m: RunModel, found: Option<Candidate>) -> BatchStep {
    batch_step(found, !m.stopped, m.stopped)
}

/// The shared state after that step.
pub open spec fn state_after(m: RunModel, found: Option<Candidate>) -> RunModel {
    match operation_of(step_on(m, found)) {
        Some(operation) => step(m, operation),
        None => m,
    }
}

/// What a worker's step does to the shared state.
///
/// A result is delivered exactly where there is a match and the flag is
/// clear, and then the flag is set and one more result counts as delivered.
/// A match that meets the flag set is dropped and changes nothing. A worker
/// that sees the flag set halts and leaves the counter alone. Only a batch
/// without a match, with the flag clear, is counted, and it adds exactly
/// one batch.
pub proof fn lemma_step_on_shared_state(m: RunModel, found: Option<Candidate>)
    ensures
        step_on(m, found) is Deliver <==> found is Some && !m.stopped,
        step_on(m, found) is Deliver ==> state_after(m, found) == (RunModel {
            stopped: true,
            delivered: m.delivered + 1,
            ..m
        }),
        step_on(m, found) is Discard <==> found is Some && m.stopped,
        step_on(m, found) is Discard ==> state_after(m, found) == m,
        step_on(m, found) is Halt <==> found is None && m.stopped,
        step_on(m, found) is Halt ==> state_after(m, found) == m,
        step_on(m, found) is GoOn <==> found is None && !m.stopped,
        step_on(m, found) is GoOn ==> state_after(m, found) == (RunModel {
            iterations: m.iterations + BATCH_SIZE_U64,
            ..m
        }),
        m.stopped ==> state_after(m, found).stopped,
        state_after(m, found).iterations >= m.iterations,
{
}

/// The encoding of the point at which a worker's walk starts.
pub open spec fn walk_origin(seed: nat, split_key: Option<CurvePoint>) -> Seq<u8> {
    match split_key {
        Some(base) => point_sum(base@, base_multiple(seed)),
        None => base_multiple(seed),
    }
}

/// True if none of the first `limit` candidates of the walk from `origin` is
/// accepted by the pattern.
pub open spec fn none_accepted(pattern: Pattern, origin: Seq<u8>, limit: nat) -> bool {
    forall|t: nat| t < limit ==> !accepts(pattern, #[trigger] walk(origin, t))
}

/// True if `r` is what a worker seeded with `seed` returns for candidate
/// number `tries` of its walk, with `view` as the view key: the candidate is
/// the first of the walk that the pattern accepts, the address is that of
/// the candidate's public key, and the secret is the seed plus `tries`. In a
/// walk of the worker's own the public key is the public point of that
/// secret.
pub open spec fn is_find_of(
    r: FoundResult,
    seed: nat,
    split_key: Option<CurvePoint>,
    pattern: Pattern,
    tries: nat,
    view: Scalar,
) -> bool {
    let key = walk(walk_origin(seed, split_key), tries);
    &&& view.wf()
    &&& accepts(pattern, key)
    &&& none_accepted(pattern, walk_origin(seed, split_key), tries)
    &&& is_result_for(r, key, (seed + tries) % group_order(), view)
    &&& (split_key is None ==> key == base_multiple((seed + tries) % group_order()))
}

/// True if `r` is what a worker seeded with `seed` returns for one of the
/// candidates from number `from` up to, but not including, number `to`.
pub open spec fn is_find_between(
    r: FoundResult,
    seed: nat,
    split_key: Option<CurvePoint>,
    pattern: Pattern,
    from: nat,
    to: nat,
) -> bool {
    exists|tries: nat, view: Scalar|
        from <= tries < to && #[trigger] is_find_of(r, seed, split_key, pattern, tries, view)
}

/// True if the pattern accepts one of the candidates of the walk from
/// number `from` up to, but not including, number `to`.
pub open spec fn some_accepted(pattern: Pattern, origin: Seq<u8>, from: nat, to: nat) -> bool {
    exists|t: nat| from <= t < to && accepts(pattern, #[trigger] walk(origin, t))
}

/// The largest number of batches that one call scans.
pub const MAX_BATCHES: u64 = 1_000_000_000_000;

/// How many batches a call for `batches` batches scans, at most.
pub open spec fn batches_of(batches: u64) -> nat {
    if batches > MAX_BATCHES {
        MAX_BATCHES as nat
    } else {
        batches as nat
    }
}

/// The answer "no", `n` times.
pub open spec fn noes(n: nat) -> Seq<bool> {
    Seq::new(n, |i: int| false)
}

/// True if `exit` is how a worker seeded with `seed` ends a call for
/// `batches` batches, given the `answers` that the shared state gave it
/// during the call and the number `counted` of batches that it reported.
///
/// Every batch that was reported held no match and met the flag clear, so
/// the answers begin with one "no" for each. What follows decides:
/// - no further answer: all the batches that may be scanned are scanned, and
///   the call is exhausted;
/// - a claim that was won: the call ends with the result of the first
///   candidate, in the next batch, that the pattern accepts;
/// - a claim that was lost: the next batch held a match, which is dropped,
///   and the call ends stopped;
/// - the flag seen set: the next batch held no match, is not reported, and
///   the call ends stopped.
pub open spec fn is_run_of(
    exit: WorkerExit,
    seed: nat,
    split_key: Option<CurvePoint>,
    pattern: Pattern,
    batches: u64,
    answers: Seq<bool>,
    counted: nat,
) -> bool {
    let origin = walk_origin(seed, split_key);
    let reach = counted * BATCH_SIZE as nat;
    let next = reach + BATCH_SIZE as nat;
    &&& counted <= batches_of(batches)
    &&& none_accepted(pattern, origin, reach)
    &&& match exit {
        WorkerExit::Exhausted => counted == batches_of(batches) && answers == noes(counted),
        WorkerExit::Found(r) => {
            &&& counted < batches_of(batches)
            &&& answers == noes(counted).push(true)
            &&& is_find_between(r, seed, split_key, pattern, reach, next)
        },
        WorkerExit::Stopped => {
            &&& counted < batches_of(batches)
            &&& {
                ||| answers == noes(counted).push(false) && some_accepted(
                    pattern,
                    origin,
                    reach,
                    next,
                )
                ||| answers == noes(counted).push(true) && none_accepted(pattern, origin, next)
            }
        },
    }
}

/// True if batch number `i` of the walk holds a candidate that the pattern
/// accepts.
pub open spec fn batch_has_match(pattern: Pattern, origin: Seq<u8>, i: nat) -> bool {
    some_accepted(pattern, origin, i * BATCH_SIZE as nat, (i + 1) * BATCH_SIZE as nat)
}

/// The answers are those of a flag that is clear whenever this worker asks:
/// every claim is won and every look at the flag sees it clear.
pub open spec fn flag_was_clear(pattern: Pattern, origin: Seq<u8>, answers: Seq<bool>) -> bool {
    forall|i: int|
        0 <= i < answers.len() ==> #[trigger] answers[i] == batch_has_match(
            pattern,
            origin,
            i as nat,
        )
}

/// The answers are those of a flag that is set whenever this worker asks:
/// every claim is lost and every look at the flag sees it set.
pub open spec fn flag_was_set(pattern: Pattern, origin: Seq<u8>, answers: Seq<bool>) -> bool {
    forall|i: int|
        0 <= i < answers.len() ==> #[trigger] answers[i] == !batch_has_match(
            pattern,
            origin,
            i as nat,
        )
}

/// While the flag is clear a worker is never stopped: it delivers a result
/// exactly if a candidate within reach is accepted, and it has then reported
/// the batches before the one with the match and no other.
pub proof fn lemma_clear_flag_delivers(
    exit: WorkerExit,
    seed: nat,
    split_key: Option<CurvePoint>,
    pattern: Pattern,
    batches: u64,
    answers: Seq<bool>,
    counted: nat,
)
    requires
        is_run_of(exit, seed, split_key, pattern, batches, answers, counted),
        flag_was_clear(pattern, walk_origin(seed, split_key), answers),
    ensures
        !(exit is Stopped),
        exit is Found <==> some_accepted(
            pattern,
            walk_origin(seed, split_key),
            0,
            batches_of(batches) * BATCH_SIZE as nat,
        ),
        exit is Found ==> batch_has_match(pattern, walk_origin(seed, split_key), counted)
            && forall|i: nat|
            i < counted ==> !#[trigger] batch_has_match(pattern, walk_origin(seed, split_key), i),
        exit is Exhausted ==> counted == batches_of(batches),
{
    let origin = walk_origin(seed, split_key);
    let reach = counted * BATCH_SIZE as nat;
    let next = reach + BATCH_SIZE as nat;
    assert(next == (counted + 1) * BATCH_SIZE as nat);
    if !(exit is Exhausted) {
        assert(answers.len() == counted + 1);
        assert(answers[counted as int] == batch_has_match(pattern, origin, counted));
        assert(next <= batches_of(batches) * BATCH_SIZE as nat);
    }
    if exit is Found {
        let (tries, view) = choose|tries: nat, view: Scalar|
            reach <= tries < next && #[trigger] is_find_of(
                exit->Found_0,
                seed,
                split_key,
                pattern,
                tries,
                view,
            );
        assert(accepts(pattern, walk(origin, tries)));
        assert forall|i: nat| i < counted implies !#[trigger] batch_has_match(
            pattern,
            origin,
            i,
        ) by {
            assert((i + 1) * BATCH_SIZE as nat <= reach);
        }
    }
}

/// While the flag is set a worker delivers nothing and reports nothing: it
/// scans one batch, drops what it may have found there, and stops.
pub proof fn lemma_set_flag_stops(
    exit: WorkerExit,
    seed: nat,
    split_key: Option<CurvePoint>,
    pattern: Pattern,
    batches: u64,
    answers: Seq<bool>,
    counted: nat,
)
    requires
        is_run_of(exit, seed, split_key, pattern, batches, answers, counted),
        flag_was_set(pattern, walk_origin(seed, split_key), answers),
        batches >= 1,
    ensures
        exit is Stopped,
        counted == 0,
        answers.len() == 1,
{
    let origin = walk_origin(seed, split_key);
    if counted >= 1 {
        assert(answers.len() >= 1);
        assert(answers[0] == false);
        assert(batch_has_match(pattern, origin, 0));
        let t = choose|t: nat| 0 <= t < BATCH_SIZE as nat && accepts(pattern, #[trigger] walk(origin, t));
        assert(t < counted * BATCH_SIZE as nat);
    } else if exit is Found {
        assert(answers[0] == true);
        let (tries, view) = choose|tries: nat, view: Scalar|
            0 <= tries < BATCH_SIZE as nat && #[trigger] is_find_of(
                exit->Found_0,
                seed,
                split_key,
                pattern,
                tries,
                view,
            );
        assert(accepts(pattern, walk(origin, tries)));
        assert(batch_has_match(pattern, origin, 0));
    }
}

/// Scans up to `batches` batches of the walk that `seed` starts, and no more
/// than [`MAX_BATCHES`].
///
/// After every scan the worker asks the shared state one question, the
/// claim where something matched and the flag where nothing did, and takes
/// the step that [`settle_batch`] gives for the answer:
/// [`BatchStep::Deliver`] ends the call with the result of the match,
/// [`BatchStep::Discard`] and [`BatchStep::Halt`] end it without one, and
/// [`BatchStep::GoOn`], and no other step, adds the batch to the counter.
///
/// The watch tells afterwards what was asked and reported: the call ends as
/// [`is_run_of`] says for the answers that were given.
pub fn calculate_from(seed: Scalar, watch: &mut Watch, pattern: &Pattern, batches: u64) -> (exit:
    WorkerExit)
    requires
        seed.wf(),
    ensures
        final(watch).base() == old(watch).base(),
        final(watch).counted() >= old(watch).counted(),
        final(watch).answers().len() >= old(watch).answers().len(),
        final(watch).answers().take(old(watch).answers().len() as int) == old(watch).answers(),
        is_run_of(
            exit,
            seed@,
            old(watch).base(),
            *pattern,
            batches,
            final(watch).answers().skip(old(watch).answers().len() as int),
            (final(watch).counted() - old(watch).counted()) as nat,
        ),
{
    let limit = if batches > MAX_BATCHES {
        MAX_BATCHES
    } else {
        batches
    };
    let mut walker = match watch.split_key() {
        Some(base) => PointWalker::with_base(seed, base),
        None => PointWalker::new(seed),
    };
    let ghost origin = walk_origin(seed@, watch.base());
    let ghost before = watch.answers();
    let ghost counted = watch.counted();
    let mut done: u64 = 0;
    proof {
        assert(before + noes(0) =~= before);
    }
    while done < limit
        invariant
            done <= limit <= MAX_BATCHES,
            limit == batches_of(batches),
            seed.wf(),
            walker.wf(),
            walker.seed() == seed,
            walker.origin() == origin,
            origin == walk_origin(seed@, watch.base()),
            walker.steps() == done * BATCH_SIZE,
            none_accepted(*pattern, origin, (done * BATCH_SIZE) as nat),
            watch.base() == old(watch).base(),
            before == old(watch).answers(),
            counted == old(watch).counted(),
            watch.answers() == before + noes(done as nat),
            watch.counted() == counted + done,
        decreases limit - done,
    {
        let ghost first = walker.steps() as nat;
        let ghost next = first + BATCH_SIZE as nat;
        let found = search_batch(&mut walker, pattern, BATCH_SIZE);
        proof {
            let reach: nat = match found {
                Some(c) => c.tries as nat,
                None => next,
            };
            assert forall|t: nat| t < reach implies !accepts(
                *pattern,
                #[trigger] walk(origin, t),
            ) by {
                if t >= first {
                    let at = t as int;
                    assert(walk(origin, at as nat) == walk(origin, t));
                }
            }
        }
        let claimed = match found {
            Some(_) => watch.try_claim(),
            None => false,
        };
        let stopped = match found {
            Some(_) => false,
            None => watch.is_stopped(),
        };
        let ghost answer = if found is Some {
            claimed
        } else {
            stopped
        };
        proof {
            assert(watch.answers() == (before + noes(done as nat)).push(answer));
            assert(watch.answers().take(before.len() as int) =~= before);
            assert(watch.answers().skip(before.len() as int) =~= noes(done as nat).push(answer));
        }
        match settle_batch(found, claimed, stopped) {
            BatchStep::Deliver(candidate) => {
                let view = rand_scalar();
                let secret = walker.scalar_at(candidate.tries);
                let result = found_result(&secret, &candidate.key, &view);
                proof {
                    let tries = candidate.tries as nat;
                    if watch.base() is None {
                        assert(origin == base_multiple(seed@));
                    }
                    assert(is_find_of(result, seed@, watch.base(), *pattern, tries, view));
                    assert(first <= tries < next);
                    assert(is_find_between(result, seed@, watch.base(), *pattern, first, next));
                }
                return WorkerExit::Found(result);
            },
            BatchStep::Discard => {
                proof {
                    let late = found->Some_0;
                    assert(accepts(*pattern, walk(origin, late.tries as nat)));
                    assert(some_accepted(*pattern, origin, first, next));
                }
                return WorkerExit::Stopped;
            },
            BatchStep::Halt => {
                return WorkerExit::Stopped;
            },
            BatchStep::GoOn => {
                watch.add_batch();
                done += 1;
                proof {
                    assert(watch.answers() =~= before + noes(done as nat));
                }
            },
        }
    }
    proof {
        assert(watch.answers().take(before.len() as int) =~= before);
        assert(watch.answers().skip(before.len() as int) =~= noes(done as nat));
    }
    WorkerExit::Exhausted
}

/// One worker: seeds a walk at random and scans up to `batches` batches of
/// it, as [`calculate_from`] does. A call that ends
/// [`WorkerExit::Exhausted`] is repeated by the caller with a fresh seed.
///
/// Whatever seed was drawn, the call ends as [`is_run_of`] says for that
/// seed and for the answers that the shared state gave.
pub fn calculate(watch: &mut Watch, pattern: &Pattern, batches: u64) -> (exit: WorkerExit)
    ensures
        final(watch).base() == old(watch).base(),
        final(watch).counted() >= old(watch).counted(),
        final(watch).answers().len() >= old(watch).answers().len(),
        final(watch).answers().take(old(watch).answers().len() as int) == old(watch).answers(),
        exists|seed: Scalar|
            seed.wf() && #[trigger] is_run_of(
                exit,
                seed@,
                old(watch).base(),
                *pattern,
                batches,
                final(watch).answers().skip(old(watch).answers().len() as int),
                (final(watch).counted() - old(watch).counted()) as nat,
            ),
{
    let seed = rand_scalar();
    let ghost before = watch.answers();
    let ghost counted = watch.counted();
    let ghost base = watch.base();
    let exit = calculate_from(seed, watch, pattern, batches);
    assert(seed.wf() && is_run_of(
        exit,
        seed@,
        base,
        *pattern,
        batches,
        watch.answers().skip(before.len() as int),
        (watch.counted() - counted) as nat,
    ));
    exit
}

} // verus!
