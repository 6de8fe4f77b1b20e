//! A budget of time for a batch of work: once it is spent, the rest of the
//! batch waits for the next pass.
use vstd::prelude::*;

verus! {

/// The milliseconds that one pass of decoding may take.
pub const DECODE_MILLIS: u128 = 15;

/// The milliseconds that one pass of painting may take.
pub const PAINT_MILLIS: u128 = 10;

/// What to do with the next item of a batch.
#[derive(Debug, Clone, Copy, PartialEq, Eq, Structural)]
pub enum Step {
    /// Work on it.
    Work,
    /// Leave it for the next pass.
    Defer,
}

/// The budget of one pass over a batch.
#[derive(Debug, Clone, Copy, PartialEq, Eq, Structural)]
pub struct Budget {
    pub limit: u128,
    pub stopped: bool,
}

impl Budget {
    /// A budget of `limit` milliseconds, of which nothing is spent.
    pub fn new(limit: u128) -> (budget: Budget)
        ensures
            budget == (Budget { limit, stopped: false }),
    {
        Budget { limit, stopped: false }
    }

    /// What to do with the next item, `elapsed` milliseconds into the
    /// pass. Work goes on while no more than the limit has elapsed; once an
    /// item was deferred, all that follow are deferred too.
    pub fn next(&mut self, elapsed: u128) -> (step: Step)
        ensures
            final(self).limit == old(self).limit,
            final(self).stopped == (old(self).stopped || elapsed > old(self).limit),
            step == (if final(self).stopped {
                Step::Defer
            } else {
                Step::Work
            }),
    {
        if self.stopped {
            return Step::Defer;
        }
        if elapsed > self.limit {
            self.stopped = true;
            return Step::Defer;
        }
        Step::Work
    }
}

} // verus!
