//! How one execution of the target ended, and which endings count as crashes.

use vstd::prelude::*;

verus! {

/// The one signal whose delivery marks an execution as a crash
/// (a segmentation fault).
pub const CRASH_SIGNAL: i32 = 11;

/// The result of running the target once.
#[derive(Clone, Copy, Debug, PartialEq, Eq, Structural)]
pub enum Outcome {
    /// The target returned on its own, with this exit code.
    Normal(i32),
    /// The target was ended by this signal before its time budget ran out.
    Signaled(i32),
    /// The target was still running when its time budget ran out.
    TimedOut,
}

impl Outcome {
    /// A crash is an execution ended by `CRASH_SIGNAL`, and nothing else.
    pub open spec fn spec_is_crash(self) -> bool {
        self == Outcome::Signaled(CRASH_SIGNAL)
    }

    /// Whether this outcome is a crash.
    #[verifier::when_used_as_spec(spec_is_crash)]
    pub fn is_crash(self) -> (crash: bool)
        ensures
            crash == self.spec_is_crash(),
    {
        match self {
            Outcome::Signaled(signal) => signal == CRASH_SIGNAL,
            _ => false,
        }
    }
}

/// What the operating system reports of a target that has ended: the signal
/// that ended it, if one did, and the exit code, if it returned one.
pub open spec fn spec_classify_exit(signal: Option<i32>, code: Option<i32>) -> Outcome {
    match signal {
        Some(number) => Outcome::Signaled(number),
        None => match code {
            Some(value) => Outcome::Normal(value),
            None => Outcome::Normal(0),
        },
    }
}

/// Classifies a target that ended within its budget. A signal takes
/// precedence over an exit code; a target that reports neither is taken to
/// have returned 0.
pub fn classify_exit(signal: Option<i32>, code: Option<i32>) -> (outcome: Outcome)
    ensures
        outcome == spec_classify_exit(signal, code),
{
    match signal {
        Some(number) => Outcome::Signaled(number),
        None => match code {
            Some(value) => Outcome::Normal(value),
            None => Outcome::Normal(0),
        },
    }
}

} // verus!
