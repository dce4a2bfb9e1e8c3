use std::time::Duration;
use vstd::prelude::*;

use crate::config::{millis_duration, Zone};
use crate::error::Error;

verus! {

/// What to do after one attempt of an operation.
#[derive(Debug)]
pub enum RetryStep<T> {
    /// The attempt succeeded with this value.
    Succeeded(T),
    /// The attempt failed: wait this long, then try again.
    RetryAfter(Duration),
    /// The attempt failed and no retry is left.
    Failed(Error),
}

/// The three decisions of the retry policy.
pub enum Decision {
    Succeed,
    Retry,
    GiveUp,
}

/// The decision after attempt number `attempts + 1`, when `retries`
/// attempts may follow the first.
pub open spec fn retry_decision(attempts: nat, retries: nat, ok: bool) -> Decision {
    if ok {
        Decision::Succeed
    } else if attempts < retries {
        Decision::Retry
    } else {
        Decision::GiveUp
    }
}

/// Whether the operation succeeded, and after how many attempts, when its
/// attempts from number `attempts + 1` on report `outcomes`; `None` when
/// the outcomes run out first.
pub open spec fn retry_run(retries: nat, outcomes: Seq<bool>, attempts: nat) -> Option<(bool, nat)>
    decreases outcomes.len() - attempts,
{
    if attempts >= outcomes.len() {
        None
    } else {
        match retry_decision(attempts, retries, outcomes[attempts as int]) {
            Decision::Succeed => Some((true, attempts + 1)),
            Decision::Retry => retry_run(retries, outcomes, attempts + 1),
            Decision::GiveUp => Some((false, attempts + 1)),
        }
    }
}

/// `failures` failed attempts followed by a successful one.
pub open spec fn fail_then_succeed(failures: nat) -> Seq<bool> {
    Seq::new(failures + 1, |i: int| i == failures)
}

proof fn lemma_run_from(retries: nat, failures: nat, k: nat)
    requires
        k <= failures,
        k <= retries,
    ensures
        retry_run(retries, fail_then_succeed(failures), k) == if failures <= retries {
            Some((true, failures + 1))
        } else {
            Some((false, retries + 1))
        },
    decreases failures - k,
{
    if k < failures && k < retries {
        lemma_run_from(retries, failures, k + 1);
    }
}

/// An operation that fails `failures` times and then succeeds succeeds
/// overall, on attempt `failures + 1`, when `retries` is at least
/// `failures`; otherwise it fails after `retries + 1` attempts.
pub proof fn lemma_fail_then_succeed(retries: nat, failures: nat)
    ensures
        retry_run(retries, fail_then_succeed(failures), 0) == if failures <= retries {
            Some((true, failures + 1))
        } else {
            Some((false, retries + 1))
        },
{
    lemma_run_from(retries, failures, 0);
}

/// The retry policy of one operation: a fixed pause before each retry.
pub struct Retry {
    /// The pause before each retry, one per retry.
    pub delays: Vec<Duration>,
    /// How many attempts were reported so far.
    pub attempts: u64,
}

impl Retry {
    /// Whether another attempt may be reported.
    pub open spec fn wf(&self) -> bool {
        &&& self.attempts <= self.delays@.len()
        &&& self.delays@.len() < u64::MAX
    }

    /// The policy of an operation of `zone`, before its first attempt.
    pub fn new(zone: &Zone) -> (r: Retry)
        requires
            zone.retries.0 < u64::MAX,
        ensures
            r.wf(),
            r.attempts == 0,
            r.delays@.len() == zone.retries.0,
            forall|i: int|
                0 <= i < r.delays@.len() ==> r.delays@[i] == millis_duration(
                    zone.retry_delay_ms.0,
                ),
    {
        Retry { delays: zone.retry_iter(), attempts: 0 }
    }

    /// Takes in the outcome of the next attempt and says what to do.
    pub fn on_outcome<T>(&mut self, outcome: Result<T, Error>) -> (r: RetryStep<T>)
        requires
            old(self).wf(),
        ensures
            final(self).delays == old(self).delays,
            final(self).attempts == old(self).attempts + 1,
            match outcome {
                Ok(v) => r == RetryStep::Succeeded(v),
                Err(e) => if old(self).attempts < old(self).delays@.len() {
                    &&& final(self).wf()
                    &&& r == RetryStep::<T>::RetryAfter(old(self).delays@[old(self).attempts as int])
                } else {
                    r == RetryStep::<T>::Failed(
                        Error::RetriesFailed { attempts: final(self).attempts, source: Box::new(e) },
                    )
                },
            },
            retry_decision(old(self).attempts as nat, old(self).delays@.len(), outcome is Ok) == match r {
                RetryStep::Succeeded(_) => Decision::Succeed,
                RetryStep::RetryAfter(_) => Decision::Retry,
                RetryStep::Failed(_) => Decision::GiveUp,
            },
    {
        let attempt = self.attempts;
        self.attempts = attempt + 1;
        match outcome {
            Ok(v) => RetryStep::Succeeded(v),
            Err(e) => {
                if (attempt as usize) < self.delays.len() {
                    RetryStep::RetryAfter(self.delays[attempt as usize])
                } else {
                    RetryStep::Failed(
                        Error::RetriesFailed { attempts: attempt + 1, source: Box::new(e) },
                    )
                }
            },
        }
    }
}

} // verus!
