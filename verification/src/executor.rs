//! Supervision of one run of the target: when to look again, when to end it
//! by force, and what the run is reported as.
//!
//! The caller spawns the target and looks at it without blocking. Each look
//! is handed to `Supervisor::step`, which answers with what to do next. The
//! supervisor itself never waits, reads no clock and touches no process.

use crate::outcome::{classify_exit, spec_classify_exit, Outcome};
use vstd::prelude::*;

verus! {

/// The wall-clock time, in milliseconds, that one run of the target may take.
pub const TIME_BUDGET_MS: u64 = 500;

/// What one non-blocking look at the target showed.
#[derive(Clone, Copy, Debug, PartialEq, Eq, Structural)]
pub enum Poll {
    /// The target is still running, this long after it was spawned.
    Running { elapsed_ms: u64 },
    /// The target has ended: by this signal, if by one, and with this exit
    /// code, if it returned one.
    Exited { signal: Option<i32>, code: Option<i32> },
}

/// What the caller is to do after a look at the target.
#[derive(Clone, Copy, Debug, PartialEq, Eq, Structural)]
pub enum Directive {
    /// Look again.
    PollAgain,
    /// End the target by force, then look again. Should ending it fail, the
    /// next look asks for it once more.
    Kill,
    /// The run is over, with this outcome.
    Done(Outcome),
}

/// A look that found the target running at or past the end of its budget.
pub open spec fn over_budget(poll: Poll) -> bool {
    poll matches Poll::Running { elapsed_ms } && elapsed_ms >= TIME_BUDGET_MS
}

/// The state of one supervised run: whether the target has been seen to
/// overrun its budget.
#[derive(Clone, Copy, Debug, PartialEq, Eq, Structural)]
pub struct Supervisor {
    pub overran: bool,
}

impl Supervisor {
    /// The state and directive that follow a look at the target.
    ///
    /// A target seen running within its budget is looked at again. One seen
    /// running at or past the end of its budget is to be killed, at that
    /// look and at every later one that still finds it running. A target
    /// that has ended is reported as timed out if it ever overran, whatever
    /// ended it, and by its signal or exit code otherwise.
    pub open spec fn spec_step(self, poll: Poll) -> (Supervisor, Directive) {
        match poll {
            Poll::Running { elapsed_ms } => if self.overran || elapsed_ms >= TIME_BUDGET_MS {
                (Supervisor { overran: true }, Directive::Kill)
            } else {
                (self, Directive::PollAgain)
            },
            Poll::Exited { signal, code } => if self.overran {
                (self, Directive::Done(Outcome::TimedOut))
            } else {
                (self, Directive::Done(spec_classify_exit(signal, code)))
            },
        }
    }

    /// The state of a run whose target was just spawned.
    pub fn start() -> (fresh: Supervisor)
        ensures
            fresh == (Supervisor { overran: false }),
    {
        Supervisor { overran: false }
    }

    /// Decides what follows a look at the target.
    pub fn step(self, poll: Poll) -> (next: (Supervisor, Directive))
        ensures
            next == self.spec_step(poll),
    {
        match poll {
            Poll::Running { elapsed_ms } => {
                if self.overran || elapsed_ms >= TIME_BUDGET_MS {
                    (Supervisor { overran: true }, Directive::Kill)
                } else {
                    (self, Directive::PollAgain)
                }
            },
            Poll::Exited { signal, code } => {
                if self.overran {
                    (self, Directive::Done(Outcome::TimedOut))
                } else {
                    (self, Directive::Done(classify_exit(signal, code)))
                }
            },
        }
    }
}

/// The state of a run after the looks in `polls`, in order.
pub open spec fn state_after(polls: Seq<Poll>) -> Supervisor
    decreases polls.len(),
{
    if polls.len() == 0 {
        Supervisor { overran: false }
    } else {
        state_after(polls.drop_last()).spec_step(polls.last()).0
    }
}

/// The directive that the last look of a non-empty `polls` is answered with.
pub open spec fn last_directive(polls: Seq<Poll>) -> Directive
    recommends
        polls.len() > 0,
{
    state_after(polls.drop_last()).spec_step(polls.last()).1
}

/// A run counts as overrun exactly when some look found the target running
/// at or past the end of its budget.
pub proof fn lemma_overran_iff_seen_over_budget(polls: Seq<Poll>)
    ensures
        state_after(polls).overran <==> exists|i: int|
            0 <= i < polls.len() && over_budget(#[trigger] polls[i]),
    decreases polls.len(),
{
    if polls.len() > 0 {
        let earlier = polls.drop_last();
        lemma_overran_iff_seen_over_budget(earlier);
        if state_after(polls).overran {
            if state_after(earlier).overran {
                let i = choose|i: int| 0 <= i < earlier.len() && over_budget(#[trigger] earlier[i]);
                assert(over_budget(polls[i]));
            } else {
                assert(over_budget(polls[polls.len() - 1]));
            }
        }
        if exists|i: int| 0 <= i < polls.len() && over_budget(#[trigger] polls[i]) {
            let i = choose|i: int| 0 <= i < polls.len() && over_budget(#[trigger] polls[i]);
            if i < earlier.len() {
                assert(over_budget(earlier[i]));
            }
        }
    }
}

/// The target is never killed within its budget: a kill is directed at a
/// look exactly when that look finds the target running and it, or an
/// earlier look, was at or past the end of the budget.
pub proof fn lemma_kill_only_over_budget(polls: Seq<Poll>)
    requires
        polls.len() > 0,
    ensures
        last_directive(polls) == Directive::Kill <==> polls.last() is Running && exists|i: int|
            0 <= i < polls.len() && over_budget(#[trigger] polls[i]),
{
    let earlier = polls.drop_last();
    lemma_overran_iff_seen_over_budget(earlier);
    if polls.last() is Running {
        if exists|i: int| 0 <= i < polls.len() && over_budget(#[trigger] polls[i]) {
            let i = choose|i: int| 0 <= i < polls.len() && over_budget(#[trigger] polls[i]);
            if i < earlier.len() {
                assert(over_budget(earlier[i]));
            }
        }
        if last_directive(polls) == Directive::Kill {
            if state_after(earlier).overran {
                let i = choose|i: int| 0 <= i < earlier.len() && over_budget(#[trigger] earlier[i]);
                assert(over_budget(polls[i]));
            } else {
                assert(over_budget(polls[polls.len() - 1]));
            }
        }
    }
}

/// How a run that ends is reported: as timed out if any look before the end
/// found it at or past its budget, and by its signal or exit code otherwise.
pub proof fn lemma_reported_outcome(polls: Seq<Poll>, signal: Option<i32>, code: Option<i32>)
    ensures
        last_directive(polls.push(Poll::Exited { signal, code })) == Directive::Done(
            if exists|i: int| 0 <= i < polls.len() && over_budget(#[trigger] polls[i]) {
                Outcome::TimedOut
            } else {
                spec_classify_exit(signal, code)
            },
        ),
{
    let all = polls.push(Poll::Exited { signal, code });
    assert(all.drop_last() =~= polls);
    lemma_overran_iff_seen_over_budget(polls);
}

/// A run is reported as a crash exactly when the target was ended by the
/// crash signal without ever having been seen to overrun its budget.
pub proof fn lemma_crash_reported_iff(polls: Seq<Poll>, signal: Option<i32>, code: Option<i32>)
    ensures
        (last_directive(polls.push(Poll::Exited { signal, code })) matches Directive::Done(outcome)
            && outcome.spec_is_crash()) <==> (signal == Some(crate::outcome::CRASH_SIGNAL)
            && forall|i: int| 0 <= i < polls.len() ==> !over_budget(#[trigger] polls[i])),
{
    lemma_reported_outcome(polls, signal, code);
}

} // verus!
