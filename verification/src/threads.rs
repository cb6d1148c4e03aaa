//! How many workers a run gets.
//!
//! The machine's parallelism is read once by the caller and handed in: the
//! library keeps no ambient state.
use vstd::prelude::*;

verus! {

/// What was done to the requested worker count. A correction is advice to
/// show, never a failure.
#[derive(Clone, Copy, Debug, PartialEq, Eq, Structural)]
pub enum ThreadNotice {
    /// The request was within range and stands.
    Accepted,
    /// Zero was asked for: half of what the machine offers is used.
    DefaultedToHalf,
    /// More was asked for than the machine offers: all of it is used.
    ClampedToMax,
}

/// The parallelism of the machine, fixed at startup.
#[derive(Clone, Copy, Debug, PartialEq, Eq, Structural)]
pub struct Threads {
    /// Every hardware thread.
    pub max: usize,
    /// Half of them, rounded down.
    pub half: usize,
}

/// A worker count together with what had to be done to get it.
#[derive(Clone, Copy, Debug, PartialEq, Eq, Structural)]
pub struct ThreadChoice {
    /// Number of workers to start.
    pub threads: usize,
    /// Whether and how the request was corrected.
    pub notice: ThreadNotice,
}

/// The count that a request is corrected to.
pub open spec fn corrected_threads(requested: usize, limits: Threads) -> ThreadChoice {
    if requested == 0 {
        ThreadChoice { threads: limits.half, notice: ThreadNotice::DefaultedToHalf }
    } else if requested > limits.max {
        ThreadChoice { threads: limits.max, notice: ThreadNotice::ClampedToMax }
    } else {
        ThreadChoice { threads: requested, notice: ThreadNotice::Accepted }
    }
}

impl Threads {
    /// Limits for a machine that reports `available` hardware threads.
    pub fn new(available: usize) -> (limits: Threads)
        ensures
            limits.max == available,
            limits.half == available / 2,
    {
        Threads { max: available, half: available / 2 }
    }

    /// Brings a requested worker count into range: zero means half of the
    /// machine, and more than the machine has means all of it.
    pub fn clamp(&self, requested: usize) -> (choice: ThreadChoice)
        ensures
            choice == corrected_threads(requested, *self),
            self.half <= self.max ==> choice.threads <= self.max,
    {
        if requested == 0 {
            ThreadChoice { threads: self.half, notice: ThreadNotice::DefaultedToHalf }
        } else if requested > self.max {
            ThreadChoice { threads: self.max, notice: ThreadNotice::ClampedToMax }
        } else {
            ThreadChoice { threads: requested, notice: ThreadNotice::Accepted }
        }
    }
}

} // verus!
