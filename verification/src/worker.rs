//! One iteration of a worker: choosing a seed, deriving a candidate input
//! from it, and deciding what follows from how the target took it.
//!
//! A worker repeats three steps for ever. `next_case` makes the input to
//! try. The caller runs the target on it, under a `Supervisor`. `conclude`
//! then says whether the run counts as a case and whether it left a crash
//! to keep.

use crate::corpus::{Corpus, SeedView};
use crate::crash::{record, CrashRecord};
use crate::mutator::{mutate, mutate_with, overwrite_all, Draw, MUTATION_STEPS};
use crate::outcome::Outcome;
use crate::text::{decimal_text, lemma_decimal_text_injective, to_decimal};
use vstd::prelude::*;
use vstd::string::StringExecFns;

verus! {

/// The number of workers that a session runs side by side.
pub const WORKERS: usize = 16;

/// One input to try, and the seed it was derived from.
#[derive(Debug)]
pub struct Case {
    /// The index in the corpus of the seed that was mutated.
    pub seed_index: usize,
    /// The candidate input.
    pub input: Vec<u8>,
}

impl Case {
    /// Whether this is the case that the random draws `pick` (for the seed)
    /// and `draws` (for the mutation) give over the seeds of `corpus`.
    pub open spec fn is_drawn_from(&self, corpus: Seq<SeedView>, pick: usize, draws: Seq<Draw>) -> bool
        recommends
            corpus.len() > 0,
    {
        &&& self.seed_index as int == pick as int % corpus.len() as int
        &&& self.input@ == overwrite_all(corpus[self.seed_index as int].bytes, draws)
    }
}

/// The case that given random draws lead to: `pick`, taken modulo the size
/// of the corpus, selects the seed, and `draws` are applied to a copy of it.
pub fn plan_case(corpus: &Corpus, pick: usize, draws: &[Draw]) -> (case: Case)
    ensures
        corpus@.len() > 0,
        case.is_drawn_from(corpus@, pick, draws@),
        case.seed_index < corpus@.len(),
        case.input@.len() == corpus@[case.seed_index as int].bytes.len(),
        case.input@.len() > 0,
{
    let count = corpus.len();
    let seed_index = pick % count;
    let seed = corpus.seed(seed_index);
    let input = mutate_with(seed.bytes.as_slice(), draws);
    Case { seed_index, input }
}

/// Makes the next case to try: one random draw selects the seed, then
/// `MUTATION_STEPS` random overwrite steps are applied to a copy of it.
pub fn next_case(corpus: &Corpus) -> (case: Case)
    ensures
        corpus@.len() > 0,
        exists|pick: usize, draws: Seq<Draw>|
            draws.len() == MUTATION_STEPS && #[trigger] case.is_drawn_from(corpus@, pick, draws),
        case.seed_index < corpus@.len(),
        case.input@.len() == corpus@[case.seed_index as int].bytes.len(),
        case.input@.len() > 0,
{
    let pick = rand::random::<usize>();
    let count = corpus.len();
    let seed_index = pick % count;
    let seed = corpus.seed(seed_index);
    let input = mutate(seed.bytes.as_slice());
    let case = Case { seed_index, input };
    proof {
        let draws = choose|draws: Seq<Draw>|
            draws.len() == MUTATION_STEPS && case.input@ == #[trigger] overwrite_all(
                seed.bytes@,
                draws,
            );
        assert(case.is_drawn_from(corpus@, pick, draws));
    }
    case
}

/// What follows from one iteration. Where both a case and a crash are to be
/// credited, the case comes first.
#[derive(Debug)]
pub struct Report {
    /// Whether the iteration counts towards the total of cases.
    pub counted: bool,
    /// The crash to keep and to count, if the run was one.
    pub crash: Option<CrashRecord>,
}

/// Decides what follows from a run of the target on `input`.
///
/// `result` is the outcome of the run, or `None` where the target could not
/// be run at all. A run that could not be made counts for nothing. Every
/// other run counts as a case, and a crash among them is to be kept, once
/// for each time it is found.
pub fn conclude(input: Vec<u8>, result: Option<Outcome>) -> (report: Report)
    ensures
        report.counted == result.is_some(),
        report.crash.is_some() == (result matches Some(outcome) && outcome.spec_is_crash()),
        report.crash matches Some(kept) ==> kept.is_record_of(input@),
{
    match result {
        None => Report { counted: false, crash: None },
        Some(outcome) => {
            if outcome.is_crash() {
                Report { counted: true, crash: Some(record(input)) }
            } else {
                Report { counted: true, crash: None }
            }
        },
    }
}

/// The directory that scratch files are kept in, relative to the working
/// directory.
pub fn scratch_dir() -> (dir: &'static str)
    ensures
        dir@ == "tmp_inputs"@,
{
    "tmp_inputs"
}

/// The path of the scratch file of the worker with the given index: in the
/// scratch directory, a file named `tmp` followed by the index in decimal.
pub open spec fn scratch_name(worker: usize) -> Seq<char> {
    "tmp_inputs"@ + "/tmp"@ + decimal_text(worker as nat)
}

/// No two workers share a scratch file.
pub proof fn lemma_scratch_name_injective(a: usize, b: usize)
    requires
        scratch_name(a) == scratch_name(b),
    ensures
        a == b,
{
    let prefix = "tmp_inputs"@ + "/tmp"@;
    let tail_a = decimal_text(a as nat);
    let tail_b = decimal_text(b as nat);
    assert((prefix + tail_a).subrange(prefix.len() as int, (prefix + tail_a).len() as int)
        =~= tail_a);
    assert((prefix + tail_b).subrange(prefix.len() as int, (prefix + tail_b).len() as int)
        =~= tail_b);
    lemma_decimal_text_injective(a as nat, b as nat);
}

/// The scratch file that a worker passes its inputs to the target in. Each
/// worker has its own.
pub fn scratch_file(worker: usize) -> (path: String)
    ensures
        path@ == scratch_name(worker),
{
    let index = to_decimal(worker as u64);
    let mut path = String::from_str(scratch_dir());
    path.append("/tmp");
    path.append(index.as_str());
    path
}

} // verus!
