//! The corpus: the seeds that every candidate input is derived from.
//!
//! A corpus is assembled once, seed by seed, and then frozen. A frozen
//! corpus is never empty, holds no empty seed and no identifier twice, and
//! offers no way to change it, so it can be shared freely between workers.

use vstd::prelude::*;
use vstd::string::StringExecFns;

verus! {

/// One seed: a stable identifier and the bytes to mutate.
#[derive(Debug)]
pub struct Seed {
    pub id: String,
    pub bytes: Vec<u8>,
}

/// A seed as contracts see it.
pub struct SeedView {
    pub id: Seq<char>,
    pub bytes: Seq<u8>,
}

impl View for Seed {
    type V = SeedView;

    open spec fn view(&self) -> SeedView {
        SeedView { id: self.id@, bytes: self.bytes@ }
    }
}

/// Why a seed or a corpus was turned down.
#[derive(Clone, Copy, Debug, PartialEq, Eq, Structural)]
pub enum CorpusError {
    /// There is no seed to start from.
    EmptyCorpus,
    /// The seed has no bytes, so there is nothing in it to mutate.
    EmptySeed,
}

impl CorpusError {
    /// The diagnostic for this error.
    pub open spec fn spec_message(self) -> Seq<char> {
        match self {
            CorpusError::EmptyCorpus => "Corpus is empty"@,
            CorpusError::EmptySeed => "Seed is empty"@,
        }
    }

    /// A one-line diagnostic for the operator.
    pub fn message(self) -> (text: String)
        ensures
            text@ == self.spec_message(),
    {
        match self {
            CorpusError::EmptyCorpus => String::from_str("Corpus is empty"),
            CorpusError::EmptySeed => String::from_str("Seed is empty"),
        }
    }
}

/// No identifier occurs twice among `seeds`.
pub open spec fn distinct_ids(seeds: Seq<SeedView>) -> bool {
    forall|i: int, j: int|
        0 <= i < j < seeds.len() ==> (#[trigger] seeds[i]).id != (#[trigger] seeds[j]).id
}

/// Every one of `seeds` has at least one byte.
pub open spec fn no_empty_seed(seeds: Seq<SeedView>) -> bool {
    forall|i: int| 0 <= i < seeds.len() ==> (#[trigger] seeds[i]).bytes.len() > 0
}

/// `after` is `before` with `seed` put in: in the place of the seed with the
/// same identifier where there is one, and at the end otherwise.
pub open spec fn put_in(before: Seq<SeedView>, seed: SeedView, after: Seq<SeedView>) -> bool {
    &&& forall|i: int|
        0 <= i < before.len() && (#[trigger] before[i]).id == seed.id ==> after == before.update(
            i,
            seed,
        )
    &&& (forall|i: int| 0 <= i < before.len() ==> (#[trigger] before[i]).id != seed.id) ==> after
        == before.push(seed)
}

/// What holds of every frozen corpus: it has a seed, no identifier twice, and
/// no seed without bytes.
pub open spec fn is_corpus(seeds: Seq<SeedView>) -> bool {
    seeds.len() > 0 && distinct_ids(seeds) && no_empty_seed(seeds)
}

/// A corpus under construction.
pub struct CorpusBuilder {
    seeds: Vec<Seed>,
}

/// A frozen corpus.
pub struct Corpus {
    seeds: Vec<Seed>,
}

impl View for CorpusBuilder {
    type V = Seq<SeedView>;

    closed spec fn view(&self) -> Seq<SeedView> {
        self.seeds@.map_values(|seed: Seed| seed@)
    }
}

impl View for Corpus {
    type V = Seq<SeedView>;

    closed spec fn view(&self) -> Seq<SeedView> {
        self.seeds@.map_values(|seed: Seed| seed@)
    }
}

impl CorpusBuilder {
    /// What every builder made by `new` and filled by `insert` satisfies: no
    /// identifier twice, and no seed without bytes.
    pub open spec fn wf(&self) -> bool {
        distinct_ids(self@) && no_empty_seed(self@)
    }

    /// Starts with no seeds.
    pub fn new() -> (builder: CorpusBuilder)
        ensures
            builder@ == Seq::<SeedView>::empty(),
            builder.wf(),
    {
        let builder = CorpusBuilder { seeds: Vec::new() };
        assert(builder@ =~= Seq::<SeedView>::empty());
        builder
    }

    /// How many seeds were accepted so far.
    pub fn len(&self) -> (count: usize)
        ensures
            count == self@.len(),
    {
        self.seeds.len()
    }

    /// Puts a seed in. A seed without bytes is turned down and the builder
    /// left as it was; a seed whose identifier is already there replaces the
    /// earlier one.
    pub fn insert(&mut self, id: String, bytes: Vec<u8>) -> (result: Result<(), CorpusError>)
        requires
            old(self).wf(),
        ensures
            final(self).wf(),
            bytes@.len() == 0 ==> result == Err::<(), CorpusError>(CorpusError::EmptySeed)
                && final(self)@ == old(self)@,
            bytes@.len() > 0 ==> result.is_ok() && put_in(
                old(self)@,
                SeedView { id: id@, bytes: bytes@ },
                final(self)@,
            ),
    {
        if bytes.len() == 0 {
            return Err(CorpusError::EmptySeed);
        }
        let ghost seed = SeedView { id: id@, bytes: bytes@ };
        let mut at: usize = 0;
        while at < self.seeds.len()
            invariant
                at <= self.seeds.len(),
                *self == *old(self),
                old(self).wf(),
                seed == (SeedView { id: id@, bytes: bytes@ }),
                seed.bytes.len() > 0,
                forall|i: int| 0 <= i < at ==> (#[trigger] self@[i]).id != id@,
            decreases self.seeds.len() - at,
        {
            assert(self@[at as int] == self.seeds[at as int]@);
            if self.seeds[at].id == id {
                self.seeds.set(at, Seed { id, bytes });
                assert(self@ =~= old(self)@.update(at as int, seed));
                return Ok(());
            }
            at = at + 1;
        }
        self.seeds.push(Seed { id, bytes });
        assert(self@ =~= old(self)@.push(seed));
        Ok(())
    }

    /// Freezes the corpus. A corpus without a seed is turned down.
    pub fn finish(self) -> (result: Result<Corpus, CorpusError>)
        requires
            self.wf(),
        ensures
            self@.len() == 0 ==> result == Err::<Corpus, CorpusError>(CorpusError::EmptyCorpus),
            self@.len() > 0 ==> result.is_ok() && result.unwrap()@ == self@ && is_corpus(
                result.unwrap()@,
            ),
    {
        if self.seeds.len() == 0 {
            Err(CorpusError::EmptyCorpus)
        } else {
            Ok(Corpus { seeds: self.seeds })
        }
    }
}

impl Corpus {
    #[verifier::type_invariant]
    spec fn well_formed(self) -> bool {
        is_corpus(self@)
    }

    /// The number of seeds, which is never zero.
    pub fn len(&self) -> (count: usize)
        ensures
            count == self@.len(),
            is_corpus(self@),
    {
        proof {
            use_type_invariant(self);
        }
        self.seeds.len()
    }

    /// The seed at `index`.
    pub fn seed(&self, index: usize) -> (seed: &Seed)
        requires
            index < self@.len(),
        ensures
            seed@ == self@[index as int],
            seed.bytes@.len() > 0,
    {
        proof {
            use_type_invariant(self);
            assert(self@[index as int] == self.seeds[index as int]@);
        }
        &self.seeds[index]
    }
}

} // verus!
