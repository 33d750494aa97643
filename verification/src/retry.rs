//! Bounded connection retry.
//!
//! A connect against a named peer makes up to a caller-supplied number
//! of sequential handshake attempts, sleeping a fixed backoff between
//! them; the first success wins, and an exhausted budget fails with an
//! explicit "failed to connect" error naming the peer and its address.
//! The loop that performs the attempts lives with the transport; the
//! decisions it takes each turn are here.

use vstd::prelude::*;

verus! {

/// What the connect loop does next.
#[derive(Clone, Copy, PartialEq, Eq, Structural, Debug)]
pub enum RetryDecision {
    /// Perform another handshake attempt.
    Attempt,
    /// The budget is spent: fail with the "failed to connect" error.
    GiveUp,
}

/// Whether another attempt may be made after `attempts_made` failures
/// out of a budget of `budget`.
pub open spec fn spec_retry_decision(attempts_made: u32, budget: u32) -> RetryDecision {
    if attempts_made < budget {
        RetryDecision::Attempt
    } else {
        RetryDecision::GiveUp
    }
}

/// The retry ledger of one logical connect.
pub struct RetryState {
    pub attempts_made: u32,
    pub budget: u32,
}

impl RetryState {
    /// A fresh ledger allowing up to `retries` attempts.
    pub fn new(retries: u32) -> (r: Self)
        ensures
            r.attempts_made == 0,
            r.budget == retries,
    {
        RetryState { attempts_made: 0, budget: retries }
    }

    /// Whether to attempt again or to give up.
    pub fn decide(&self) -> (r: RetryDecision)
        ensures
            r == spec_retry_decision(self.attempts_made, self.budget),
    {
        if self.attempts_made < self.budget {
            RetryDecision::Attempt
        } else {
            RetryDecision::GiveUp
        }
    }

    /// Records one failed attempt.
    pub fn record_failure(&mut self)
        requires
            old(self).attempts_made < old(self).budget,
        ensures
            final(self).attempts_made == old(self).attempts_made + 1,
            final(self).budget == old(self).budget,
    {
        self.attempts_made = self.attempts_made + 1;
    }
}

/// One whole connect with a budget, played against the outcomes of the
/// individual attempts: attempts are made in order from `made`; the
/// k-th succeeds exactly when `outcomes[k]`; the loop stops at the
/// first success or when the budget is spent. The result is how many
/// attempts were performed in all and whether one succeeded.
pub open spec fn spec_connect_run(budget: int, outcomes: Seq<bool>, made: int) -> (int, bool)
    decreases budget - made,
{
    if made < 0 || made >= budget {
        (made, false)
    } else if outcomes[made] {
        (made + 1, true)
    } else {
        spec_connect_run(budget, outcomes, made + 1)
    }
}

/// Retry bound: against an unreachable peer — every attempt fails — a
/// connect with a budget of `budget` performs exactly `budget`
/// handshake attempts and then gives up with the failure; no attempt
/// follows the last.
pub proof fn lemma_retry_bound(budget: int, outcomes: Seq<bool>)
    requires
        budget >= 0,
        outcomes.len() >= budget,
        forall|i: int| 0 <= i < budget ==> !outcomes[i],
    ensures
        spec_connect_run(budget, outcomes, 0) == (budget, false),
{
    lemma_retry_bound_from(budget, outcomes, 0);
}

/// The failing run, from any number of attempts already made.
proof fn lemma_retry_bound_from(budget: int, outcomes: Seq<bool>, made: int)
    requires
        0 <= made <= budget,
        outcomes.len() >= budget,
        forall|i: int| 0 <= i < budget ==> !outcomes[i],
    ensures
        spec_connect_run(budget, outcomes, made) == (budget, false),
    decreases budget - made,
{
    if made < budget {
        lemma_retry_bound_from(budget, outcomes, made + 1);
    }
}

/// A connect stops at the first success: when attempt `k` is the first
/// to succeed within the budget, exactly `k + 1` attempts are
/// performed.
pub proof fn lemma_retry_stops_at_success(budget: int, outcomes: Seq<bool>, k: int)
    requires
        0 <= k < budget,
        outcomes.len() >= budget,
        outcomes[k],
        forall|i: int| 0 <= i < k ==> !outcomes[i],
    ensures
        spec_connect_run(budget, outcomes, 0) == (k + 1, true),
{
    lemma_retry_success_from(budget, outcomes, k, 0);
}

/// The successful run, from any number of attempts already made.
proof fn lemma_retry_success_from(budget: int, outcomes: Seq<bool>, k: int, made: int)
    requires
        0 <= made <= k < budget,
        outcomes.len() >= budget,
        outcomes[k],
        forall|i: int| made <= i < k ==> !outcomes[i],
    ensures
        spec_connect_run(budget, outcomes, made) == (k + 1, true),
    decreases k - made,
{
    if made < k {
        lemma_retry_success_from(budget, outcomes, k, made + 1);
    }
}

} // verus!
