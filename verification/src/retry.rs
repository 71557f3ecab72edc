//! Bounded retry with a fixed pause between attempts, as a state machine:
//! the caller runs the operation and reports each outcome.

use crate::command::CommandCode;
use crate::frame::FrameError;
use vstd::prelude::*;

verus! {

/// The pause after a failed attempt, in milliseconds.
pub const SLEEP_TIME_BETWEEN_RETRIES_MS: u64 = 400;

/// Why one attempt to deliver a command failed.
#[derive(Clone, Copy, Debug, PartialEq, Eq, Structural)]
pub enum AttemptError {
    /// The transport failed while the command was sent.
    Transport,
    /// The reply could not be decoded.
    Frame(FrameError),
    /// The device answered with an opcode other than `Success`.
    Rejected(CommandCode),
}

/// Why a retried operation failed for good.
#[derive(Clone, Copy, Debug, PartialEq, Eq, Structural)]
pub enum RetryError {
    /// The operation was to be tried zero times.
    NoAttempts,
    /// Every attempt failed; `last` is the error of the final one.
    Exhausted { attempts: u16, last: AttemptError },
}

/// What the caller of a retried operation does next.
#[derive(Clone, Copy, Debug, PartialEq, Eq, Structural)]
pub enum RetryStep {
    /// Run the operation, with this attempt index.
    Invoke(u16),
    /// The operation has succeeded.
    Done,
    /// The operation has failed for good.
    Failed(RetryError),
}

/// The progress of one retried operation.
#[derive(Clone, Copy, Debug, PartialEq, Eq, Structural)]
pub struct Retry {
    pub max_attempts: u16,
    pub attempts: u16,
    pub last: Option<AttemptError>,
    pub succeeded: bool,
}

impl Retry {
    /// No more attempts were made than allowed, and every failed attempt
    /// left its error.
    pub open spec fn wf(&self) -> bool {
        &&& self.attempts <= self.max_attempts
        &&& (self.attempts > 0 && !self.succeeded ==> self.last is Some)
        &&& (self.succeeded ==> self.attempts > 0)
    }

    /// The state before the first attempt.
    pub open spec fn fresh(max_attempts: u16) -> Retry {
        Retry { max_attempts, attempts: 0, last: None, succeeded: false }
    }

    /// What comes next in this state.
    pub open spec fn step(&self) -> RetryStep {
        if self.succeeded {
            RetryStep::Done
        } else if self.max_attempts < 1 {
            RetryStep::Failed(RetryError::NoAttempts)
        } else if self.attempts < self.max_attempts {
            RetryStep::Invoke(self.attempts)
        } else {
            RetryStep::Failed(
                RetryError::Exhausted { attempts: self.attempts, last: self.last.unwrap() },
            )
        }
    }

    /// The state after one more attempt with the given outcome.
    pub open spec fn after(&self, outcome: Result<(), AttemptError>) -> Retry {
        match outcome {
            Ok(_) => Retry {
                max_attempts: self.max_attempts,
                attempts: (self.attempts + 1) as u16,
                last: self.last,
                succeeded: true,
            },
            Err(e) => Retry {
                max_attempts: self.max_attempts,
                attempts: (self.attempts + 1) as u16,
                last: Some(e),
                succeeded: false,
            },
        }
    }

    /// The state after one failed attempt for each of `errors`, in order.
    pub open spec fn after_failures(&self, errors: Seq<AttemptError>) -> Retry
        decreases errors.len(),
    {
        if errors.len() == 0 {
            *self
        } else {
            self.after_failures(errors.drop_last()).after(Err(errors.last()))
        }
    }

    /// Starts an operation that may be tried `max_attempts` times.
    pub fn new(max_attempts: u16) -> (r: Retry)
        ensures
            r == Retry::fresh(max_attempts),
            r.wf(),
    {
        Retry { max_attempts, attempts: 0, last: None, succeeded: false }
    }

    /// Says what to do next: run the operation once more, or stop with
    /// its success or with the final error.
    pub fn next(&self) -> (s: RetryStep)
        requires
            self.wf(),
        ensures
            s == self.step(),
    {
        if self.succeeded {
            RetryStep::Done
        } else if self.max_attempts < 1 {
            RetryStep::Failed(RetryError::NoAttempts)
        } else if self.attempts < self.max_attempts {
            RetryStep::Invoke(self.attempts)
        } else {
            match self.last {
                Some(last) => RetryStep::Failed(
                    RetryError::Exhausted { attempts: self.attempts, last },
                ),
                None => RetryStep::Failed(RetryError::NoAttempts),
            }
        }
    }

    /// Takes in the outcome of the attempt that `next` asked for. The
    /// result says whether the caller is to pause before going on, which
    /// is so after every failure.
    pub fn record(&mut self, outcome: Result<(), AttemptError>) -> (pause: bool)
        requires
            old(self).wf(),
            old(self).step() is Invoke,
        ensures
            *final(self) == old(self).after(outcome),
            final(self).wf(),
            pause == outcome is Err,
    {
        self.attempts = self.attempts + 1;
        match outcome {
            Ok(_) => {
                self.succeeded = true;
                false
            },
            Err(e) => {
                self.last = Some(e);
                true
            },
        }
    }
}

/// The state after `errors.len()` failures in a row from a fresh start.
proof fn lemma_failures_state(max_attempts: u16, errors: Seq<AttemptError>)
    requires
        errors.len() <= max_attempts,
    ensures
        Retry::fresh(max_attempts).after_failures(errors) == (Retry {
            max_attempts,
            attempts: errors.len() as u16,
            last: if errors.len() == 0 {
                None
            } else {
                Some(errors.last())
            },
            succeeded: false,
        }),
    decreases errors.len(),
{
    if errors.len() > 0 {
        lemma_failures_state(max_attempts, errors.drop_last());
    }
}

/// An operation that is to be tried zero times fails at once: it is never
/// asked to run.
pub proof fn lemma_retry_none(max_attempts: u16)
    requires
        max_attempts < 1,
    ensures
        Retry::fresh(max_attempts).step() == RetryStep::Failed(RetryError::NoAttempts),
{
}

/// An operation that fails every time is asked to run exactly
/// `max_attempts` times, with the indices `0`, `1`, and so on, and then
/// fails for good with the error of its final run.
pub proof fn lemma_retry_all_fail(max_attempts: u16, errors: Seq<AttemptError>)
    requires
        max_attempts >= 1,
        errors.len() == max_attempts,
    ensures
        forall|k: int|
            0 <= k < max_attempts ==> (#[trigger] Retry::fresh(max_attempts).after_failures(
                errors.take(k),
            )).step() == RetryStep::Invoke(k as u16),
        Retry::fresh(max_attempts).after_failures(errors).step() == RetryStep::Failed(
            RetryError::Exhausted { attempts: max_attempts, last: errors.last() },
        ),
{
    lemma_failures_state(max_attempts, errors);
    assert forall|k: int| 0 <= k < max_attempts implies (#[trigger] Retry::fresh(
        max_attempts,
    ).after_failures(errors.take(k))).step() == RetryStep::Invoke(k as u16) by {
        lemma_failures_state(max_attempts, errors.take(k));
    }
}

/// An attempt that succeeds ends the operation, whatever came before.
pub proof fn lemma_retry_success(r: Retry)
    requires
        r.wf(),
        r.step() is Invoke,
    ensures
        r.after(Ok(())).step() == RetryStep::Done,
{
}

} // verus!
