//! The retry policy of the transport: a bounded number of attempts with a
//! fixed pause between them.

use vstd::prelude::*;

verus! {

/// How often a request is attempted, and how long to wait in between.
#[derive(Clone, Copy, Debug, PartialEq, Eq, Structural)]
pub struct RetryPolicy {
    /// The pause between two attempts, in milliseconds. It does not grow.
    pub backoff_ms: u64,
    /// The number of attempts, the first one included.
    pub max_attempts: u8,
}

/// What the transport does next.
#[derive(Clone, Copy, Debug, PartialEq, Eq, Structural)]
pub enum TransportNext {
    /// Wait, then send the request.
    Attempt { wait_ms: u64 },
    /// Hand the answer on.
    Done,
    /// Give up: the last failure is surfaced as `MaxRetriesExceeded`.
    GiveUp,
}

impl RetryPolicy {
    /// The first step: an attempt without a wait, unless the policy allows
    /// no attempt at all.
    pub open spec fn first(self) -> TransportNext {
        if self.max_attempts == 0 {
            TransportNext::GiveUp
        } else {
            TransportNext::Attempt { wait_ms: 0 }
        }
    }

    /// The step after an attempt, `attempts_made` counting that attempt.
    /// Every failure is answered alike, whatever its cause: by a new
    /// attempt while there is one left.
    pub open spec fn after(self, attempts_made: nat, succeeded: bool) -> TransportNext {
        if succeeded {
            TransportNext::Done
        } else if attempts_made < self.max_attempts {
            TransportNext::Attempt { wait_ms: self.backoff_ms }
        } else {
            TransportNext::GiveUp
        }
    }

    /// The first step.
    pub fn begin(&self) -> (r: TransportNext)
        ensures
            r == self.first(),
    {
        if self.max_attempts == 0 {
            TransportNext::GiveUp
        } else {
            TransportNext::Attempt { wait_ms: 0 }
        }
    }

    /// The step after an attempt, `attempts_made` counting that attempt.
    pub fn after_attempt(&self, attempts_made: u8, succeeded: bool) -> (r: TransportNext)
        ensures
            r == self.after(attempts_made as nat, succeeded),
    {
        if succeeded {
            TransportNext::Done
        } else if attempts_made < self.max_attempts {
            TransportNext::Attempt { wait_ms: self.backoff_ms }
        } else {
            TransportNext::GiveUp
        }
    }

    /// The number of attempts that are made, from `made` attempts on, on a
    /// request that fails each time.
    pub open spec fn attempts_when_failing(self, made: nat) -> nat
        decreases self.max_attempts - made,
    {
        if self.after(made, false) is Attempt {
            self.attempts_when_failing(made + 1)
        } else {
            made
        }
    }
}

/// A request that fails each time is attempted exactly as often as the
/// policy says, with the fixed pause before each new attempt, and then
/// given up.
pub proof fn lemma_attempts_are_bounded(policy: RetryPolicy, made: nat)
    requires
        made <= policy.max_attempts,
        policy.max_attempts > 0,
    ensures
        policy.attempts_when_failing(made) == policy.max_attempts,
        policy.after(policy.max_attempts as nat, false) is GiveUp,
        made < policy.max_attempts ==> policy.after(made, false) == (TransportNext::Attempt {
            wait_ms: policy.backoff_ms,
        }),
    decreases policy.max_attempts - made,
{
    if made < policy.max_attempts {
        lemma_attempts_are_bounded(policy, made + 1);
    }
}

} // verus!
