//! Running something again after it failed: how often, and after what
//! pause.
//!
//! The caller runs the operation and sleeps; a [`Retry`] counts the failures
//! and says after each attempt whether another one follows.

use vstd::prelude::*;

verus! {

/// Attempts made for one receive or send before it is given up.
pub const RETRY_ATTEMPTS: usize = 3;

/// The pause before another attempt, in milliseconds.
pub const RETRY_BACKOFF_MS: u64 = 3000;

/// What follows an attempt.
#[derive(Clone, Copy, Debug, PartialEq, Eq, Structural)]
pub enum NextStep {
    /// The attempt succeeded: stop.
    Done,
    /// The attempt failed and no other follows: stop with its error.
    GiveUp,
    /// The attempt failed: sleep this many milliseconds, then try again.
    Backoff { millis: u64 },
}

/// The state of a sequence of attempts.
#[derive(Clone, Copy, Debug, PartialEq, Eq, Structural)]
pub struct Retry {
    /// The number of attempts allowed, if it is limited.
    pub attempts: Option<usize>,
    /// The pause before another attempt, in milliseconds.
    pub backoff_ms: u64,
    /// The number of attempts that have failed.
    pub failures: usize,
}

/// The number of failures once one more is counted; it stays at the largest
/// number that can be held.
pub open spec fn one_more(failures: usize) -> usize {
    if failures < usize::MAX {
        (failures + 1) as usize
    } else {
        failures
    }
}

/// Whether the last failure of `failures` was the last attempt allowed.
pub open spec fn exhausted(attempts: Option<usize>, failures: usize) -> bool {
    match attempts {
        Some(limit) => failures >= limit,
        None => false,
    }
}

impl Retry {
    /// A sequence of at most `attempts` attempts, none of which has been
    /// made yet.
    pub fn bounded(attempts: usize, backoff_ms: u64) -> (retry: Retry)
        ensures
            retry == (Retry { attempts: Some(attempts), backoff_ms, failures: 0 }),
    {
        Retry { attempts: Some(attempts), backoff_ms, failures: 0 }
    }

    /// A sequence of attempts that only success or a shutdown ends.
    pub fn unbounded(backoff_ms: u64) -> (retry: Retry)
        ensures
            retry == (Retry { attempts: None, backoff_ms, failures: 0 }),
    {
        Retry { attempts: None, backoff_ms, failures: 0 }
    }

    /// Takes note of how an attempt ended and says what follows.
    ///
    /// Success ends the sequence. A failure is counted; it ends the
    /// sequence if it was the last attempt allowed or if the shutdown flag
    /// is set, and else another attempt follows after the pause.
    pub fn record(&mut self, succeeded: bool, shutdown: bool) -> (step: NextStep)
        ensures
            final(self).attempts == old(self).attempts,
            final(self).backoff_ms == old(self).backoff_ms,
            succeeded ==> step == NextStep::Done && final(self).failures == old(self).failures,
            !succeeded ==> final(self).failures == one_more(old(self).failures),
            !succeeded && (shutdown || exhausted(old(self).attempts, one_more(old(self).failures)))
                ==> step == NextStep::GiveUp,
            !succeeded && !shutdown && !exhausted(old(self).attempts, one_more(old(self).failures))
                ==> step == (NextStep::Backoff { millis: old(self).backoff_ms }),
    {
        if succeeded {
            return NextStep::Done;
        }
        if self.failures < usize::MAX {
            self.failures = self.failures + 1;
        }
        let spent = match self.attempts {
            Some(limit) => self.failures >= limit,
            None => false,
        };
        if shutdown || spent {
            NextStep::GiveUp
        } else {
            NextStep::Backoff { millis: self.backoff_ms }
        }
    }
}

} // verus!
