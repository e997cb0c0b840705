//! The acquisition pipeline's retry policy.
//!
//! Fetching a data source is retried with a fixed backoff until it succeeds
//! or an attempt budget is exhausted. Both sources share one policy; what
//! happens on exhaustion — surface the error, or end the process — is the
//! policy's explicit choice, not the call site's.

use vstd::prelude::*;

verus! {

/// Attempts a source is given before the run gives up on it.
pub const DEFAULT_ATTEMPT_BUDGET: u64 = 100;

/// Seconds slept between attempts.
pub const DEFAULT_BACKOFF_SECS: u64 = 10;

/// What the run does once a source's attempt budget is exhausted.
#[derive(Debug, Clone, Copy, PartialEq, Eq, Structural)]
pub enum Exhaustion {
    /// Surface a fatal error to the run controller.
    Propagate,
    /// End the process directly.
    ExitProcess,
}

/// How one data source is retried.
#[derive(Debug, Clone, Copy, PartialEq, Eq, Structural)]
pub struct RetryPolicy {
    pub budget: u64,
    pub backoff_secs: u64,
    pub on_exhaustion: Exhaustion,
}

/// What to do after a failed attempt.
#[derive(Debug, Clone, Copy, PartialEq, Eq, Structural)]
pub enum RetryDecision {
    /// Sleep for the backoff and try again.
    Retry,
    /// The budget is exhausted: stop, per the policy's exhaustion choice.
    GiveUp,
}

impl RetryPolicy {
    /// At least one attempt is made.
    pub open spec fn wf(self) -> bool {
        self.budget >= 1
    }

    /// The default policy: 100 attempts, 10 seconds apart.
    pub fn standard(on_exhaustion: Exhaustion) -> (r: RetryPolicy)
        ensures
            r.budget == DEFAULT_ATTEMPT_BUDGET,
            r.backoff_secs == DEFAULT_BACKOFF_SECS,
            r.on_exhaustion == on_exhaustion,
            r.wf(),
    {
        RetryPolicy {
            budget: DEFAULT_ATTEMPT_BUDGET,
            backoff_secs: DEFAULT_BACKOFF_SECS,
            on_exhaustion,
        }
    }
}

/// How many attempts a source has cost so far.
#[derive(Debug, Clone, Copy, PartialEq, Eq, Structural)]
pub struct RetryState {
    pub attempts: u64,
}

impl RetryState {
    /// A fresh source: nothing attempted.
    pub fn new() -> (r: RetryState)
        ensures
            r.attempts == 0,
    {
        RetryState { attempts: 0 }
    }

    /// Accounts one failed attempt: the run retries until the failure that
    /// exhausts the budget, and gives up exactly then.
    pub fn record_failure(&mut self, policy: &RetryPolicy) -> (r: RetryDecision)
        requires
            old(self).attempts < policy.budget,
        ensures
            final(self).attempts == old(self).attempts + 1,
            r is GiveUp <==> final(self).attempts == policy.budget,
    {
        self.attempts = self.attempts + 1;
        if self.attempts >= policy.budget {
            RetryDecision::GiveUp
        } else {
            RetryDecision::Retry
        }
    }
}

/// The acquisition loop's decision core, on the attempts' outcomes alone:
/// the first `budget` outcomes are consulted in order, and the result is
/// the position of the first success, or `None` when the whole budget
/// fails. The run then proceeds with the successful attempt's value, or
/// ends per the policy's exhaustion choice.
pub fn acquisition_result(outcomes: &Vec<bool>, policy: &RetryPolicy) -> (r: Option<usize>)
    requires
        policy.wf(),
        outcomes@.len() >= policy.budget,
    ensures
        r is Some ==> {
            &&& 0 <= r->Some_0 < policy.budget
            &&& outcomes@[r->Some_0 as int]
            &&& forall|k: int| 0 <= k < r->Some_0 ==> !outcomes@[k]
        },
        r is None <==> forall|k: int| 0 <= k < policy.budget ==> !outcomes@[k],
{
    let mut st = RetryState::new();
    let n = outcomes.len();
    loop
        invariant
            st.attempts < policy.budget,
            policy.wf(),
            n == outcomes@.len(),
            outcomes@.len() >= policy.budget,
            forall|k: int| 0 <= k < st.attempts ==> !outcomes@[k],
        decreases policy.budget - st.attempts,
    {
        let ghost a0 = st.attempts as int;
        assert((st.attempts as nat) < (n as nat));
        let idx = st.attempts as usize;
        assert(idx as int == a0);
        if outcomes[idx] {
            return Some(idx);
        }
        proof {
            assert(!outcomes@[a0]);
        }
        match st.record_failure(policy) {
            RetryDecision::GiveUp => {
                assert(forall|k: int| 0 <= k < policy.budget ==> !outcomes@[k]);
                return None;
            },
            RetryDecision::Retry => {},
        }
        proof {
            assert(forall|k: int| 0 <= k < st.attempts ==> !outcomes@[k]);
        }
    }
}

} // verus!
