//! Speculative execution: further attempts at a request that are started
//! while an earlier one is still awaited.

use vstd::prelude::*;

verus! {

/// When further attempts at a request are started: `retry_interval_ms`
/// after the attempt before, and no more than `max_retry_count` of them.
#[derive(Clone, Copy, Debug, PartialEq, Eq, Structural)]
pub struct SimpleSpeculativeExecutionPolicy {
    pub max_retry_count: usize,
    pub retry_interval_ms: u64,
}

/// The delay after which the next speculative attempt is started, when
/// `fired` were started before: none for a request that is not idempotent,
/// since both of two attempts may take effect, and none beyond the limit of
/// attempts.
pub open spec fn speculative_delay(
    policy: SimpleSpeculativeExecutionPolicy,
    is_idempotent: bool,
    fired: usize,
) -> Option<u64> {
    if is_idempotent && fired < policy.max_retry_count {
        Some(policy.retry_interval_ms)
    } else {
        None
    }
}

impl SimpleSpeculativeExecutionPolicy {
    /// The delay after which the next speculative attempt is started, if
    /// one is.
    pub fn next_attempt_delay(&self, is_idempotent: bool, fired: usize) -> (delay: Option<u64>)
        ensures
            delay == speculative_delay(*self, is_idempotent, fired),
    {
        if is_idempotent && fired < self.max_retry_count {
            Some(self.retry_interval_ms)
        } else {
            None
        }
    }
}

/// A request that is not idempotent is never attempted speculatively.
pub proof fn lemma_no_speculation_unless_idempotent(
    policy: SimpleSpeculativeExecutionPolicy,
    fired: usize,
)
    ensures
        speculative_delay(policy, false, fired) is None,
{
}

/// No more speculative attempts are started than the policy allows.
pub proof fn lemma_speculation_is_bounded(
    policy: SimpleSpeculativeExecutionPolicy,
    is_idempotent: bool,
    fired: usize,
)
    requires
        speculative_delay(policy, is_idempotent, fired) is Some,
    ensures
        fired < policy.max_retry_count,
{
}

} // verus!
