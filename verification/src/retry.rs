//! The enumeration retry policy: device-list enumeration is fallible and
//! transient, so a failed attempt is retried a bounded number of times
//! with a fixed delay between attempts, and when every attempt failed the
//! engine degrades to the last snapshot it knew rather than pretending no
//! device exists.
//!
//! The session here only decides — whether another attempt is owed and
//! how long to wait first; performing the attempt and sleeping is the
//! surrounding application's business.

use vstd::prelude::*;

use crate::snapshot::Snapshot;

verus! {

/// A named, parameterized retry policy: how many attempts in all, and the
/// fixed delay between them.
#[derive(PartialEq, Eq, Structural, Clone, Copy, Debug)]
pub struct RetryPolicy {
    pub max_attempts: u32,
    pub delay_secs: u64,
}

impl RetryPolicy {
    pub fn new(max_attempts: u32, delay_secs: u64) -> (r: RetryPolicy)
        ensures
            r == (RetryPolicy { max_attempts, delay_secs }),
    {
        RetryPolicy { max_attempts, delay_secs }
    }

    /// The policy the property-store enumeration runs under: two attempts,
    /// two seconds apart.
    pub fn pnp_enumeration() -> (r: RetryPolicy)
        ensures
            r == (RetryPolicy { max_attempts: 2u32, delay_secs: 2u64 }),
    {
        RetryPolicy { max_attempts: 2, delay_secs: 2 }
    }
}

/// What to do after a failed attempt.
#[derive(PartialEq, Eq, Structural, Clone, Copy, Debug)]
pub enum RetryDecision {
    /// Wait this many seconds, then attempt again.
    Retry(u64),
    /// The attempt budget is spent; surface the failure.
    GiveUp,
}

/// One enumeration round's worth of attempts against a policy.
pub struct EnumerationSession {
    policy: RetryPolicy,
    attempts: u32,
}

impl EnumerationSession {
    /// The policy the session runs under.
    pub closed spec fn policy(self) -> RetryPolicy {
        self.policy
    }

    /// Failed attempts seen so far.
    pub closed spec fn attempts(self) -> u32 {
        self.attempts
    }

    /// A fresh session: no attempt made yet.
    pub fn new(policy: RetryPolicy) -> (r: EnumerationSession)
        ensures
            r.policy() == policy,
            r.attempts() == 0,
    {
        EnumerationSession { policy, attempts: 0 }
    }

    /// Count one failed attempt: retry after the policy's delay while the
    /// budget lasts, give up on the attempt that exhausts it.
    pub fn on_failure(&mut self) -> (d: RetryDecision)
        requires
            old(self).attempts() < u32::MAX,
        ensures
            final(self).policy() == old(self).policy(),
            final(self).attempts() == old(self).attempts() + 1,
            d == (if final(self).attempts() >= old(self).policy().max_attempts {
                RetryDecision::GiveUp
            } else {
                RetryDecision::Retry(old(self).policy().delay_secs)
            }),
    {
        self.attempts = self.attempts + 1;
        if self.attempts >= self.policy.max_attempts {
            RetryDecision::GiveUp
        } else {
            RetryDecision::Retry(self.policy.delay_secs)
        }
    }
}

/// What one enumeration round settles on: the snapshot to carry forward,
/// and whether it is a degraded (stale) one because enumeration failed.
pub struct EnumerationOutcome {
    pub snapshot: Snapshot,
    pub degraded: bool,
}

/// Settle an enumeration round: a fresh snapshot is taken as is; when
/// every attempt failed, the engine keeps the last known snapshot
/// unchanged — or an empty one if there never was one — and flags the
/// outcome as degraded so the failure is surfaced as a warning.
pub fn settle_enumeration(fresh: Option<Snapshot>, last_known: Option<&Snapshot>) -> (r:
    EnumerationOutcome)
    requires
        fresh matches Some(s) ==> s.wf(),
        last_known matches Some(s) ==> s.wf(),
    ensures
        r.snapshot.wf(),
        match fresh {
            Some(s) => r.snapshot@ == s@ && !r.degraded,
            None => r.degraded && (match last_known {
                Some(prior) => r.snapshot@ == prior@,
                None => r.snapshot@.len() == 0,
            }),
        },
{
    match fresh {
        Some(snapshot) => EnumerationOutcome { snapshot, degraded: false },
        None => match last_known {
            Some(prior) => EnumerationOutcome { snapshot: prior.clone(), degraded: true },
            None => EnumerationOutcome { snapshot: Snapshot::new(), degraded: true },
        },
    }
}

} // verus!
