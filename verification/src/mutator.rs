//! Byte-level mutation: a candidate input is a seed with a few bytes
//! overwritten at randomly drawn positions.

use vstd::prelude::*;
use vstd::slice::slice_to_vec;

verus! {

/// How many overwrite steps one mutation performs.
pub const MUTATION_STEPS: usize = 8;

/// One random draw for one overwrite step: where to write and what.
///
/// `position` is an unreduced draw over the whole `usize` range; it is taken
/// modulo the length of the input it is applied to.
#[derive(Clone, Copy, Debug, PartialEq, Eq, Structural)]
pub struct Draw {
    pub position: usize,
    pub value: u8,
}

/// The index that `draw` lands on in an input of `len` bytes.
pub open spec fn target_of(draw: Draw, len: nat) -> int
    recommends
        len > 0,
{
    draw.position as int % len as int
}

/// One overwrite step. An empty input has no position to write to and is
/// left as it is.
pub open spec fn overwrite(bytes: Seq<u8>, draw: Draw) -> Seq<u8> {
    if bytes.len() == 0 {
        bytes
    } else {
        bytes.update(target_of(draw, bytes.len()), draw.value)
    }
}

/// The overwrite steps of `draws` applied to `bytes` one after another, in
/// order. Later draws win where positions repeat.
pub open spec fn overwrite_all(bytes: Seq<u8>, draws: Seq<Draw>) -> Seq<u8>
    decreases draws.len(),
{
    if draws.len() == 0 {
        bytes
    } else {
        overwrite(overwrite_all(bytes, draws.drop_last()), draws.last())
    }
}

/// Mutation never changes the length of an input.
pub proof fn lemma_overwrite_all_len(bytes: Seq<u8>, draws: Seq<Draw>)
    ensures
        overwrite_all(bytes, draws).len() == bytes.len(),
    decreases draws.len(),
{
    if draws.len() > 0 {
        lemma_overwrite_all_len(bytes, draws.drop_last());
    }
}

/// A position that no draw lands on keeps the byte that the seed had there.
pub proof fn lemma_untouched_byte_kept(bytes: Seq<u8>, draws: Seq<Draw>, index: int)
    requires
        0 <= index < bytes.len(),
        forall|j: int| 0 <= j < draws.len() ==> target_of(#[trigger] draws[j], bytes.len()) != index,
    ensures
        overwrite_all(bytes, draws)[index] == bytes[index],
    decreases draws.len(),
{
    if draws.len() > 0 {
        let earlier = draws.drop_last();
        assert forall|j: int| 0 <= j < earlier.len() implies target_of(
            #[trigger] earlier[j],
            bytes.len(),
        ) != index by {
            assert(earlier[j] == draws[j]);
        }
        lemma_untouched_byte_kept(bytes, earlier, index);
        lemma_overwrite_all_len(bytes, earlier);
        assert(target_of(draws[draws.len() - 1], bytes.len()) != index);
    }
}

/// A position holds the value of the last draw that lands on it.
pub proof fn lemma_last_draw_wins(bytes: Seq<u8>, draws: Seq<Draw>, which: int)
    requires
        bytes.len() > 0,
        0 <= which < draws.len(),
        forall|j: int|
            which < j < draws.len() ==> target_of(#[trigger] draws[j], bytes.len()) != target_of(
                draws[which],
                bytes.len(),
            ),
    ensures
        overwrite_all(bytes, draws)[target_of(draws[which], bytes.len())] == draws[which].value,
    decreases draws.len(),
{
    let earlier = draws.drop_last();
    lemma_overwrite_all_len(bytes, earlier);
    if which < draws.len() - 1 {
        assert(earlier[which] == draws[which]);
        assert forall|j: int| which < j < earlier.len() implies target_of(
            #[trigger] earlier[j],
            bytes.len(),
        ) != target_of(earlier[which], bytes.len()) by {
            assert(earlier[j] == draws[j]);
        }
        lemma_last_draw_wins(bytes, earlier, which);
        assert(target_of(draws[draws.len() - 1], bytes.len()) != target_of(
            draws[which],
            bytes.len(),
        ));
    }
}

/// The positions at which two inputs of equal length differ.
pub open spec fn changed_positions(before: Seq<u8>, after: Seq<u8>) -> Set<int> {
    Set::new(|i: int| 0 <= i < before.len() && i < after.len() && before[i] != after[i])
}

/// A candidate differs from its seed in no more positions than there were
/// draws.
pub proof fn lemma_changes_bounded_by_draws(bytes: Seq<u8>, draws: Seq<Draw>)
    ensures
        changed_positions(bytes, overwrite_all(bytes, draws)).finite(),
        changed_positions(bytes, overwrite_all(bytes, draws)).len() <= draws.len(),
    decreases draws.len(),
{
    let after = overwrite_all(bytes, draws);
    lemma_overwrite_all_len(bytes, draws);
    if draws.len() == 0 {
        assert(changed_positions(bytes, after) =~= Set::<int>::empty());
    } else {
        let earlier = draws.drop_last();
        let before = overwrite_all(bytes, earlier);
        lemma_changes_bounded_by_draws(bytes, earlier);
        lemma_overwrite_all_len(bytes, earlier);
        if bytes.len() == 0 {
            assert(changed_positions(bytes, after) =~= changed_positions(bytes, before));
        } else {
            let hit = target_of(draws.last(), bytes.len());
            assert(changed_positions(bytes, after).subset_of(
                changed_positions(bytes, before).insert(hit),
            ));
            vstd::set_lib::lemma_len_subset(
                changed_positions(bytes, after),
                changed_positions(bytes, before).insert(hit),
            );
        }
    }
}

/// Mutation leaves an empty input empty, whatever is drawn.
pub proof fn lemma_empty_input_unchanged(draws: Seq<Draw>)
    ensures
        overwrite_all(Seq::<u8>::empty(), draws) == Seq::<u8>::empty(),
{
    lemma_overwrite_all_len(Seq::<u8>::empty(), draws);
    assert(overwrite_all(Seq::<u8>::empty(), draws) =~= Seq::<u8>::empty());
}

/// Mutation is deterministic but for the draws: the same seed under draws
/// that agree step by step gives the same candidate.
pub proof fn lemma_same_draws_same_candidate(seed: Seq<u8>, first: Seq<Draw>, second: Seq<Draw>)
    requires
        first.len() == second.len(),
        forall|step: int| 0 <= step < first.len() ==> first[step] == second[step],
    ensures
        overwrite_all(seed, first) == overwrite_all(seed, second),
{
    assert(first =~= second);
}

/// Different draws show in the candidate: where the last draws to land on
/// some position write different values, the candidates differ.
pub proof fn lemma_different_draws_different_candidates(
    seed: Seq<u8>,
    first: Seq<Draw>,
    second: Seq<Draw>,
    in_first: int,
    in_second: int,
)
    requires
        seed.len() > 0,
        0 <= in_first < first.len(),
        0 <= in_second < second.len(),
        target_of(first[in_first], seed.len()) == target_of(second[in_second], seed.len()),
        first[in_first].value != second[in_second].value,
        forall|j: int|
            in_first < j < first.len() ==> target_of(#[trigger] first[j], seed.len()) != target_of(
                first[in_first],
                seed.len(),
            ),
        forall|j: int|
            in_second < j < second.len() ==> target_of(#[trigger] second[j], seed.len())
                != target_of(second[in_second], seed.len()),
    ensures
        overwrite_all(seed, first) != overwrite_all(seed, second),
{
    lemma_last_draw_wins(seed, first, in_first);
    lemma_last_draw_wins(seed, second, in_second);
}

/// Applies the given draws to a copy of `seed`, in order.
///
/// This is the whole of mutation but for the choice of the draws, so the
/// candidate is a function of the seed and the draws alone.
pub fn mutate_with(seed: &[u8], draws: &[Draw]) -> (candidate: Vec<u8>)
    ensures
        candidate@ == overwrite_all(seed@, draws@),
        candidate.len() == seed.len(),
{
    let mut candidate = slice_to_vec(seed);
    let len = candidate.len();
    let mut step: usize = 0;
    while step < draws.len()
        invariant
            step <= draws.len(),
            len == seed.len(),
            candidate.len() == len,
            candidate@ == overwrite_all(seed@, draws@.take(step as int)),
        decreases draws.len() - step,
    {
        let draw = draws[step];
        proof {
            assert(draws@.take(step + 1).drop_last() =~= draws@.take(step as int));
            assert(draws@.take(step + 1).last() == draw);
        }
        if len > 0 {
            candidate.set(draw.position % len, draw.value);
        }
        step = step + 1;
    }
    proof {
        assert(draws@.take(step as int) =~= draws@);
    }
    candidate
}

/// `rand::random` draws one value of `T` from the calling thread's random
/// generator. Nothing is claimed of the value: every value of the type has to
/// be expected, and two calls need not agree. The generator is seeded from
/// the operating system on a thread's first draw, and that draw panics
/// should the operating system have no entropy to give.
pub assume_specification<T>[ rand::random::<T> ]() -> (value: T)
    where rand::distributions::Standard: rand::distributions::Distribution<T>;

/// Mutates `seed` with `MUTATION_STEPS` freshly drawn overwrite steps.
///
/// Each step draws a position and then a value from the thread's random
/// generator. An empty seed is handed back unchanged, and nothing is drawn
/// for it.
pub fn mutate(seed: &[u8]) -> (candidate: Vec<u8>)
    ensures
        candidate.len() == seed.len(),
        exists|draws: Seq<Draw>|
            draws.len() == MUTATION_STEPS && candidate@ == #[trigger] overwrite_all(seed@, draws),
{
    if seed.len() == 0 {
        proof {
            let any = Seq::new(MUTATION_STEPS as nat, |step: int| Draw { position: 0, value: 0 });
            lemma_empty_input_unchanged(any);
            assert(seed@ =~= Seq::<u8>::empty());
            assert(seed@ == overwrite_all(seed@, any));
        }
        return slice_to_vec(seed);
    }
    let mut draws: Vec<Draw> = Vec::new();
    let mut step: usize = 0;
    while step < MUTATION_STEPS
        invariant
            step <= MUTATION_STEPS,
            draws.len() == step,
        decreases MUTATION_STEPS - step,
    {
        let position = rand::random::<usize>();
        let value = rand::random::<u8>();
        draws.push(Draw { position, value });
        step = step + 1;
    }
    mutate_with(seed, draws.as_slice())
}

} // verus!
