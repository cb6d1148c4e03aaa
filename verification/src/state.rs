//! What the workers of one run share: a counter of candidates tried and a
//! flag that ends the run.
//!
//! The flag only ever goes from clear to set, and the worker that sets it by
//! [`SearchState::try_claim`] is the one whose result counts. The counter
//! only grows. [`RunModel`] states both as a machine whose steps are the
//! operations below, and proves what follows for every order in which
//! workers may take them. A worker asks through a [`Watch`], which keeps
//! book of what it was answered.
use crate::curve::CurvePoint;
use crate::pattern::Pattern;
use std::sync::atomic::AtomicBool;
use std::sync::atomic::AtomicU64;
use std::sync::atomic::Ordering;
use vstd::prelude::*;
use vstd::string::*;

verus! {

/// What one scanned batch adds to the counter.
pub const BATCH_SIZE_U64: u64 = 10_000;

/// The shared state of one run. It is made when the run starts and dropped
/// when it ends.
pub struct SearchState {
    iter: AtomicU64,
    die: AtomicBool,
    split_key: Option<CurvePoint>,
}

impl SearchState {
    /// The public point on whose behalf the run searches, in split-key mode.
    pub closed spec fn base(&self) -> Option<CurvePoint> {
        self.split_key
    }

    /// A fresh run: nothing tried, not stopped. With a `split_key` the
    /// workers walk from that point instead of from the public point of
    /// their own seed.
    pub fn new(split_key: Option<CurvePoint>) -> (state: SearchState)
        ensures
            state.base() == split_key,
    {
        SearchState { iter: AtomicU64::new(0), die: AtomicBool::new(false), split_key }
    }

    /// The public point on whose behalf the run searches, in split-key mode.
    pub fn split_key(&self) -> (out: Option<&CurvePoint>)
        ensures
            match out {
                Some(point) => self.base() == Some(*point),
                None => self.base() is None,
            },
    {
        self.split_key.as_ref()
    }

    /// The number of candidates that were reported as tried.
    pub fn iterations(&self) -> u64 {
        self.iter.load(Ordering::SeqCst)
    }

    /// Reports one batch that was scanned without a match.
    pub fn add_batch(&self) {
        self.iter.fetch_add(BATCH_SIZE_U64, Ordering::SeqCst);
    }

    /// Whether the run is over.
    pub fn is_stopped(&self) -> bool {
        self.die.load(Ordering::SeqCst)
    }

    /// Ends the run from outside. There is no way back.
    pub fn stop(&self) {
        self.die.store(true, Ordering::SeqCst);
    }

    /// Sets the flag if it is clear, in one step, and says whether this call
    /// was the one that set it. A worker with a match may deliver it only
    /// after `true`.
    pub fn try_claim(&self) -> bool {
        claim_won(self.die.compare_exchange(false, true, Ordering::SeqCst, Ordering::SeqCst))
    }
}

/// One worker's view of the shared state of a run. Besides passing the
/// worker's questions on, it keeps book, for the proofs alone, of every
/// answer that the worker was given and of every batch that it reported, so
/// that what the worker does can be held against what it was told.
pub struct Watch<'a> {
    state: &'a SearchState,
    answers: Ghost<Seq<bool>>,
    counted: Ghost<nat>,
}

impl<'a> Watch<'a> {
    /// The public point on whose behalf the run searches, in split-key mode.
    pub closed spec fn base(&self) -> Option<CurvePoint> {
        self.state.base()
    }

    /// The answers that this worker got to its claims and to its looks at
    /// the flag, in the order in which it asked.
    pub closed spec fn answers(&self) -> Seq<bool> {
        self.answers@
    }

    /// How many batches this worker reported.
    pub closed spec fn counted(&self) -> nat {
        self.counted@
    }

    /// A worker's view of `state`, with nothing asked and nothing reported
    /// yet.
    pub fn new(state: &'a SearchState) -> (watch: Watch<'a>)
        ensures
            watch.base() == state.base(),
            watch.answers() == Seq::<bool>::empty(),
            watch.counted() == 0,
    {
        Watch { state, answers: Ghost(Seq::empty()), counted: Ghost(0) }
    }

    /// The public point on whose behalf the run searches, in split-key mode.
    pub fn split_key(&self) -> (out: Option<&CurvePoint>)
        ensures
            match out {
                Some(point) => self.base() == Some(*point),
                None => self.base() is None,
            },
    {
        self.state.split_key()
    }

    /// Claims the run by [`SearchState::try_claim`] and notes the answer.
    pub fn try_claim(&mut self) -> (won: bool)
        ensures
            final(self).answers() == old(self).answers().push(won),
            final(self).counted() == old(self).counted(),
            final(self).base() == old(self).base(),
    {
        let won = self.state.try_claim();
        self.answers = Ghost(self.answers@.push(won));
        won
    }

    /// Looks at the flag by [`SearchState::is_stopped`] and notes the
    /// answer.
    pub fn is_stopped(&mut self) -> (stopped: bool)
        ensures
            final(self).answers() == old(self).answers().push(stopped),
            final(self).counted() == old(self).counted(),
            final(self).base() == old(self).base(),
    {
        let stopped = self.state.is_stopped();
        self.answers = Ghost(self.answers@.push(stopped));
        stopped
    }

    /// Reports one batch by [`SearchState::add_batch`] and notes it.
    pub fn add_batch(&mut self)
        ensures
            final(self).answers() == old(self).answers(),
            final(self).counted() == old(self).counted() + 1,
            final(self).base() == old(self).base(),
    {
        self.state.add_batch();
        self.counted = Ghost(self.counted@ + 1);
    }
}

/// What an exchange of "clear" for "set" on the flag amounts to: the claim is
/// won if the exchange took place, and lost if it found the flag set
/// already.
pub fn claim_won(exchange: Result<bool, bool>) -> (won: bool)
    ensures
        won == exchange is Ok,
{
    exchange.is_ok()
}

/// Where the caller stands with its run.
#[derive(Clone, Copy, Debug, PartialEq, Eq, Structural)]
pub enum RunPhase {
    /// Nothing was started yet.
    Idle,
    /// Workers are searching.
    Running,
    /// The run ended with a result.
    Found,
    /// The run was stopped from outside.
    Stopped,
}

/// What the caller of a search keeps about it: how it was set up and how it
/// went.
pub struct State {
    /// How many threads to use.
    pub threads: usize,
    /// The pattern to look for, once there is one.
    pub pattern: Option<Pattern>,
    /// The pattern to look for, as text.
    pub pattern_string: String,
    /// Where the run stands.
    pub phase: RunPhase,
    /// Candidates per second, as last measured.
    pub speed: u64,
    /// What was found so far, one entry after the other.
    pub history: String,
    /// The public point to search on behalf of, in split-key mode.
    pub split_key: Option<CurvePoint>,
}

impl Default for State {
    fn default() -> (state: State)
        ensures
            state.threads == 1,
            state.pattern is None,
            state.pattern_string@ == Seq::<char>::empty(),
            state.phase == RunPhase::Idle,
            state.speed == 0,
            state.history@ == Seq::<char>::empty(),
            state.split_key is None,
    {
        State {
            threads: 1,
            pattern: None,
            pattern_string: String::new(),
            phase: RunPhase::Idle,
            speed: 0,
            history: String::new(),
            split_key: None,
        }
    }
}

impl State {
    /// Are we currently iterating?
    pub fn iterating(&self) -> (out: bool)
        ensures
            out == (self.phase == RunPhase::Running),
    {
        self.phase == RunPhase::Running
    }

    /// Starts a run with these settings, unless one is running: then nothing
    /// changes and the answer is `false`.
    pub fn start(&mut self, threads: usize, pattern: Pattern, split_key: Option<CurvePoint>) -> (started:
        bool)
        ensures
            started == (old(self).phase != RunPhase::Running),
            !started ==> *final(self) == *old(self),
            started ==> {
                &&& final(self).phase == RunPhase::Running
                &&& final(self).threads == threads
                &&& final(self).pattern == Some(pattern)
                &&& final(self).pattern_string@ == pattern@
                &&& final(self).split_key == split_key
                &&& final(self).speed == old(self).speed
                &&& final(self).history == old(self).history
            },
    {
        if self.phase == RunPhase::Running {
            return false;
        }
        self.threads = threads;
        self.pattern_string = String::from_str(pattern.as_str());
        self.pattern = Some(pattern);
        self.split_key = split_key;
        self.phase = RunPhase::Running;
        true
    }

    /// Stops the run that is going on. Without one nothing changes and the
    /// answer is `false`.
    pub fn stop(&mut self) -> (stopped: bool)
        ensures
            stopped == (old(self).phase == RunPhase::Running),
            !stopped ==> *final(self) == *old(self),
            stopped ==> *final(self) == (State { phase: RunPhase::Stopped, ..*old(self) }),
    {
        if self.phase == RunPhase::Running {
            self.phase = RunPhase::Stopped;
            true
        } else {
            false
        }
    }

    /// Takes in the result of the run that is going on: `entry` is added to
    /// the history and the run is over. A result that arrives when no run is
    /// going on, such as a second one for the same run, is dropped and the
    /// answer is `false`.
    pub fn found(&mut self, entry: &str) -> (taken: bool)
        ensures
            taken == (old(self).phase == RunPhase::Running),
            !taken ==> *final(self) == *old(self),
            taken ==> {
                &&& final(self).phase == RunPhase::Found
                &&& final(self).history@ == old(self).history@ + entry@
                &&& final(self).threads == old(self).threads
                &&& final(self).pattern == old(self).pattern
                &&& final(self).pattern_string == old(self).pattern_string
                &&& final(self).speed == old(self).speed
                &&& final(self).split_key == old(self).split_key
            },
    {
        if self.phase == RunPhase::Running {
            self.history.append(entry);
            self.phase = RunPhase::Found;
            true
        } else {
            false
        }
    }
}

/// The shared state as a machine. `iterations` counts without a limit; the
/// counter of [`SearchState`] holds it modulo `2^64`.
pub struct RunModel {
    /// Candidates reported as tried.
    pub iterations: int,
    /// The flag.
    pub stopped: bool,
    /// How many workers were told that their result counts.
    pub delivered: int,
}

/// One operation on the shared state, by whichever worker or caller.
pub enum Step {
    /// [`SearchState::add_batch`].
    BatchReported,
    /// [`SearchState::try_claim`].
    Claim,
    /// [`SearchState::stop`].
    StopRequested,
}

/// The state that [`SearchState::new`] makes.
pub open spec fn initial() -> RunModel {
    RunModel { iterations: 0, stopped: false, delivered: 0 }
}

/// The state after one operation.
pub open spec fn step(m: RunModel, s: Step) -> RunModel {
    match s {
        Step::BatchReported => RunModel { iterations: m.iterations + BATCH_SIZE_U64, ..m },
        Step::Claim => if m.stopped {
            m
        } else {
            RunModel { stopped: true, delivered: m.delivered + 1, ..m }
        },
        Step::StopRequested => RunModel { stopped: true, ..m },
    }
}

/// The state after a sequence of operations, in the order in which they took
/// effect.
pub open spec fn run(m: RunModel, steps: Seq<Step>) -> RunModel
    decreases steps.len(),
{
    if steps.len() == 0 {
        m
    } else {
        step(run(m, steps.drop_last()), steps.last())
    }
}

/// Between any two moments of a run the counter does not go down, the flag
/// does not clear, and no delivered result is taken back.
pub proof fn lemma_run_is_monotonic(m: RunModel, steps: Seq<Step>, t1: int, t2: int)
    requires
        0 <= t1 <= t2 <= steps.len(),
    ensures
        run(m, steps.take(t1)).iterations <= run(m, steps.take(t2)).iterations,
        run(m, steps.take(t1)).stopped ==> run(m, steps.take(t2)).stopped,
        run(m, steps.take(t1)).delivered <= run(m, steps.take(t2)).delivered,
    decreases t2 - t1,
{
    if t1 < t2 {
        lemma_run_is_monotonic(m, steps, t1, t2 - 1);
        assert(steps.take(t2).drop_last() == steps.take(t2 - 1));
    }
}

/// However many workers find a match and in whatever order the operations
/// fall, at most one result is delivered, and once one is, the flag is set.
pub proof fn lemma_at_most_one_result(steps: Seq<Step>)
    ensures
        0 <= run(initial(), steps).delivered <= 1,
        run(initial(), steps).delivered == 1 ==> run(initial(), steps).stopped,
        !run(initial(), steps).stopped ==> run(initial(), steps).delivered == 0,
    decreases steps.len(),
{
    if steps.len() > 0 {
        lemma_at_most_one_result(steps.drop_last());
    }
}

/// A claim after a delivered result delivers nothing: the later match is
/// discarded.
pub proof fn lemma_second_claim_is_discarded(steps: Seq<Step>)
    requires
        run(initial(), steps).delivered == 1,
    ensures
        step(run(initial(), steps), Step::Claim) == run(initial(), steps),
{
    lemma_at_most_one_result(steps);
}

} // verus!
