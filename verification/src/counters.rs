//! The two running totals of a fuzzing session, cases run and crashes found,
//! and why the second never overtakes the first.

use crate::outcome::Outcome;
use vstd::prelude::*;
use vstd::relations::injective_on;
use vstd::set_lib::{lemma_int_range, lemma_len_subset, lemma_map_size, set_int_range};

verus! {

/// The two totals as contracts see them.
pub struct Tally {
    pub cases: nat,
    pub crashes: nat,
}

/// Whether an iteration ran the target at all. `None` stands for a run that
/// could not be made.
pub open spec fn ran(result: Option<Outcome>) -> bool {
    result.is_some()
}

/// Whether an iteration found a crash.
pub open spec fn crashed(result: Option<Outcome>) -> bool {
    result matches Some(outcome) && outcome.spec_is_crash()
}

/// The totals after one more iteration: a run that could not be made counts
/// for nothing, every other run is a case, and a crash is counted each time
/// it is found.
pub open spec fn credit(before: Tally, result: Option<Outcome>) -> Tally {
    Tally {
        cases: if ran(result) {
            before.cases + 1
        } else {
            before.cases
        },
        crashes: if crashed(result) {
            before.crashes + 1
        } else {
            before.crashes
        },
    }
}

/// The totals of a session in which the iterations of all workers ended with
/// `results`, in the order in which they were credited.
pub open spec fn tally_of(results: Seq<Option<Outcome>>) -> Tally {
    Tally {
        cases: results.filter(|result: Option<Outcome>| ran(result)).len(),
        crashes: results.filter(|result: Option<Outcome>| crashed(result)).len(),
    }
}

/// Crediting one more iteration is one step of `credit`.
pub proof fn lemma_tally_step(results: Seq<Option<Outcome>>, result: Option<Outcome>)
    ensures
        tally_of(results.push(result)) == credit(tally_of(results), result),
{
    results.lemma_filter_len_push(|result: Option<Outcome>| ran(result), result);
    results.lemma_filter_len_push(|result: Option<Outcome>| crashed(result), result);
}

/// However the iterations of a session end, there are never more crashes
/// than cases.
pub proof fn lemma_crashes_never_exceed_cases(results: Seq<Option<Outcome>>)
    ensures
        tally_of(results).crashes <= tally_of(results).cases,
        tally_of(results).cases <= results.len(),
    decreases results.len(),
{
    if results.len() == 0 {
        assert(results.filter(|result: Option<Outcome>| ran(result)).len() == 0);
        assert(results.filter(|result: Option<Outcome>| crashed(result)).len() == 0);
    } else {
        lemma_crashes_never_exceed_cases(results.drop_last());
        lemma_tally_step(results.drop_last(), results.last());
        assert(results.drop_last().push(results.last()) =~= results);
    }
}

/// The totals never go down: at a later point of a session both are at
/// least what they were at an earlier one.
pub proof fn lemma_totals_never_decrease(results: Seq<Option<Outcome>>, earlier: int)
    requires
        0 <= earlier <= results.len(),
    ensures
        tally_of(results.take(earlier)).cases <= tally_of(results).cases,
        tally_of(results.take(earlier)).crashes <= tally_of(results).crashes,
{
    results.lemma_filter_take_len(|result: Option<Outcome>| ran(result), earlier);
    results.lemma_filter_take_len(|result: Option<Outcome>| crashed(result), earlier);
}

/// The totals of one session.
#[derive(Clone, Copy, Debug)]
pub struct Counters {
    cases: usize,
    crashes: usize,
}

impl View for Counters {
    type V = Tally;

    closed spec fn view(&self) -> Tally {
        Tally { cases: self.cases as nat, crashes: self.crashes as nat }
    }
}

impl Counters {
    #[verifier::type_invariant]
    spec fn well_formed(self) -> bool {
        self.crashes <= self.cases
    }

    /// Both totals at zero.
    pub fn new() -> (fresh: Counters)
        ensures
            fresh@ == (Tally { cases: 0, crashes: 0 }),
    {
        Counters { cases: 0, crashes: 0 }
    }

    /// Cases run so far.
    pub fn cases(&self) -> (total: usize)
        ensures
            total == self@.cases,
    {
        self.cases
    }

    /// Crashes found so far, which is never more than the cases run.
    pub fn crashes(&self) -> (total: usize)
        ensures
            total == self@.crashes,
            total <= self@.cases,
    {
        proof {
            use_type_invariant(self);
        }
        self.crashes
    }

    /// The totals after one more iteration that ended with `result`.
    pub fn credited(self, result: Option<Outcome>) -> (next: Counters)
        requires
            self@.cases < usize::MAX,
        ensures
            next@ == credit(self@, result),
    {
        proof {
            use_type_invariant(self);
        }
        match result {
            None => self,
            Some(outcome) => {
                if outcome.is_crash() {
                    Counters { cases: self.cases + 1, crashes: self.crashes + 1 }
                } else {
                    Counters { cases: self.cases + 1, crashes: self.crashes }
                }
            },
        }
    }
}

/// One iteration of one worker.
pub struct Run {
    pub worker: usize,
    pub iteration: u64,
}

/// One increment of one of the two totals, made on behalf of one iteration.
/// Where the totals are kept apart and each is incremented on its own, a
/// session is a sequence of such increments, in the order they took effect.
pub enum Tick {
    /// The total of cases went up by one.
    Case(Run),
    /// The total of crashes went up by one.
    Crash(Run),
}

/// The positions of `ticks` at which the total of cases went up.
pub open spec fn case_ticks(ticks: Seq<Tick>) -> Set<int> {
    Set::new(|at: int| 0 <= at < ticks.len() && ticks[at] is Case)
}

/// The positions of `ticks` at which the total of crashes went up.
pub open spec fn crash_ticks(ticks: Seq<Tick>) -> Set<int> {
    Set::new(|at: int| 0 <= at < ticks.len() && ticks[at] is Crash)
}

/// The rule that workers follow where they increment the totals one by one:
/// the crash of an iteration is credited once at most, and only after the
/// case of that iteration.
pub open spec fn case_before_crash(ticks: Seq<Tick>) -> bool {
    &&& forall|i: int, j: int|
        0 <= i < j < ticks.len() && (#[trigger] ticks[i]) is Crash && (#[trigger] ticks[j]) is Crash
            ==> ticks[i] != ticks[j]
    &&& forall|j: int|
        0 <= j < ticks.len() && (#[trigger] ticks[j]) is Crash ==> exists|i: int|
            0 <= i < j && #[trigger] ticks[i] == Tick::Case(ticks[j]->Crash_0)
}

/// The position of the case that the crash at position `crash` follows.
pub open spec fn case_of(ticks: Seq<Tick>, crash: int) -> int {
    choose|i: int| 0 <= i < crash && #[trigger] ticks[i] == Tick::Case(ticks[crash]->Crash_0)
}

/// Under the rule `case_before_crash`, whoever reads the total of crashes,
/// and the total of cases then or later, never finds more crashes than
/// cases, however the increments of the workers interleave.
pub proof fn lemma_observed_crashes_never_exceed_cases(
    ticks: Seq<Tick>,
    crashes_read: int,
    cases_read: int,
)
    requires
        case_before_crash(ticks),
        0 <= crashes_read <= cases_read <= ticks.len(),
    ensures
        crash_ticks(ticks.take(crashes_read)).finite(),
        case_ticks(ticks.take(cases_read)).finite(),
        crash_ticks(ticks.take(crashes_read)).len() <= case_ticks(ticks.take(cases_read)).len(),
{
    let crashes = crash_ticks(ticks.take(crashes_read));
    let cases = case_ticks(ticks.take(cases_read));
    lemma_int_range(0, crashes_read);
    lemma_int_range(0, cases_read);
    assert(crashes.subset_of(set_int_range(0, crashes_read)));
    assert(cases.subset_of(set_int_range(0, cases_read)));
    lemma_len_subset(crashes, set_int_range(0, crashes_read));
    lemma_len_subset(cases, set_int_range(0, cases_read));

    let pair = |crash: int| case_of(ticks, crash);
    assert forall|j: int| crashes.contains(j) implies 0 <= pair(j) < j && ticks[pair(j)]
        == Tick::Case(ticks[j]->Crash_0) by {
        assert(ticks.take(crashes_read)[j] == ticks[j]);
        assert(ticks[j] is Crash);
    }
    assert(injective_on(pair, crashes)) by {
        assert forall|a: int, b: int|
            crashes.contains(a) && crashes.contains(b) && #[trigger] pair(a) == #[trigger] pair(
                b,
            ) implies a == b by {
            assert(ticks.take(crashes_read)[a] == ticks[a]);
            assert(ticks.take(crashes_read)[b] == ticks[b]);
            if a < b {
                assert(ticks[a] != ticks[b]);
            } else if b < a {
                assert(ticks[b] != ticks[a]);
            }
        }
    }
    let paired = crashes.map(pair);
    lemma_map_size(crashes, paired, pair);
    assert(paired.subset_of(cases)) by {
        assert forall|i: int| paired.contains(i) implies cases.contains(i) by {
            let j = choose|j: int| crashes.contains(j) && pair(j) == i;
            assert(ticks.take(cases_read)[i] == ticks[i]);
        }
    }
    lemma_len_subset(paired, cases);
}

} // verus!
