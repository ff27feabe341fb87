//! The commitment waiter: deciding, between sync rounds, whether a
//! submitted transaction has reached a terminal status.
//!
//! The engine does not sleep or loop; the caller runs the loop — sync, ask
//! the waiter, sleep, repeat — and the waiter only decides. The retry policy
//! is explicit: a bounded number of attempts and a poll interval that backs
//! off by doubling, saturating at the largest delay. Cancellation is
//! cooperative: the caller passes its cancellation signal in, and the waiter
//! honors it between polls, never mid-request. Running out of attempts is
//! advisory — the transaction may still commit later — which is why it is
//! reported as `CommitmentTimeout`, never as a ledger-level failure.
use vstd::prelude::*;
use crate::store::{Store, spec_transaction};
use crate::types::{EngineError, TransactionStatus};

verus! {

/// An explicit retry policy: how many polls remain and how long to sleep
/// before the next one.
#[derive(Clone, Copy, PartialEq, Eq, Structural, Debug)]
pub struct WaitPolicy {
    pub remaining_attempts: u32,
    pub poll_interval_ms: u64,
}

/// What the waiter decides after one look at the store.
#[derive(Clone, Copy, PartialEq, Eq, Structural, Debug)]
pub enum WaitDecision {
    /// The transaction committed at this block: done.
    Committed { block: u32 },
    /// The network committed a conflicting transaction: done, unsuccessfully.
    Discarded,
    /// The caller asked to stop; honored between polls.
    Cancelled,
    /// The attempts are exhausted: report `CommitmentTimeout` and stop.
    TimedOut,
    /// Not terminal yet: sleep, sync, and ask again under the next policy.
    Poll { delay_ms: u64, next: WaitPolicy },
}

/// The poll interval after one backoff step: doubled, saturating.
pub open spec fn spec_next_interval(ms: u64) -> u64 {
    if ms > u64::MAX / 2 {
        u64::MAX
    } else {
        (ms * 2) as u64
    }
}

/// The waiter's decision as a function of the store snapshot, the policy and
/// the cancellation signal.
pub open spec fn spec_wait_step(
    s: crate::store::StoreV,
    tx_id: u64,
    policy: WaitPolicy,
    cancelled: bool,
) -> WaitDecision {
    if cancelled {
        WaitDecision::Cancelled
    } else {
        match spec_transaction(s, tx_id) {
            Some(t) => match t.status {
                TransactionStatus::Committed { block } => WaitDecision::Committed { block },
                TransactionStatus::Discarded => WaitDecision::Discarded,
                TransactionStatus::Pending => if policy.remaining_attempts == 0 {
                    WaitDecision::TimedOut
                } else {
                    WaitDecision::Poll {
                        delay_ms: policy.poll_interval_ms,
                        next: WaitPolicy {
                            remaining_attempts: (policy.remaining_attempts - 1) as u32,
                            poll_interval_ms: spec_next_interval(policy.poll_interval_ms),
                        },
                    }
                },
            },
            None => if policy.remaining_attempts == 0 {
                WaitDecision::TimedOut
            } else {
                WaitDecision::Poll {
                    delay_ms: policy.poll_interval_ms,
                    next: WaitPolicy {
                        remaining_attempts: (policy.remaining_attempts - 1) as u32,
                        poll_interval_ms: spec_next_interval(policy.poll_interval_ms),
                    },
                }
            },
        }
    }
}

/// One waiter step: decides from the current snapshot whether the
/// transaction reached a terminal status, whether to give up, or how to poll
/// next. Each poll decision strictly decreases the remaining attempts, so a
/// caller that follows the decisions makes at most the policy's number of
/// polls.
pub fn wait_step(store: &Store, tx_id: u64, policy: WaitPolicy, cancelled: bool) -> (d:
    WaitDecision)
    ensures
        d == spec_wait_step(store@, tx_id, policy, cancelled),
        d matches WaitDecision::Poll { next, .. } ==> next.remaining_attempts
            < policy.remaining_attempts,
{
    if cancelled {
        return WaitDecision::Cancelled;
    }
    let status = match store.get_transaction(tx_id) {
        Some(t) => Some(t.status),
        None => None,
    };
    match status {
        Some(TransactionStatus::Committed { block }) => WaitDecision::Committed { block },
        Some(TransactionStatus::Discarded) => WaitDecision::Discarded,
        _ => {
            if policy.remaining_attempts == 0 {
                WaitDecision::TimedOut
            } else {
                let doubled = if policy.poll_interval_ms > u64::MAX / 2 {
                    u64::MAX
                } else {
                    policy.poll_interval_ms * 2
                };
                WaitDecision::Poll {
                    delay_ms: policy.poll_interval_ms,
                    next: WaitPolicy {
                        remaining_attempts: policy.remaining_attempts - 1,
                        poll_interval_ms: doubled,
                    },
                }
            }
        },
    }
}

/// The error a caller reports when the waiter gives up: advisory, the
/// transaction may still commit later.
pub fn timeout_error() -> (e: EngineError)
    ensures
        e == EngineError::CommitmentTimeout,
{
    EngineError::CommitmentTimeout
}

} // verus!
