//! The decision core of a mutation-based blackbox fuzzer.
//!
//! The library turns seeds into mutated candidate inputs, decides how a
//! running target is supervised, classifies how it ended, and derives the
//! artifact under which a crashing input is kept. Everything that touches
//! the operating system (files, processes, threads, clocks) is left to the
//! caller, which feeds plain values in and acts on plain values handed back.
//!
//! - `corpus`: the seeds, assembled once and then frozen.
//! - `mutator`: candidate inputs as seeds with a few bytes overwritten.
//! - `executor`: supervision of one run of the target under a time budget.
//! - `outcome`: how a run ended, and which endings are crashes.
//! - `crash`: fingerprints and artifacts of crashing inputs.
//! - `worker`: one iteration, from choosing a seed to what follows the run.
//! - `counters`: the totals of cases and crashes.
//! - `stats`: the figures of the progress report.
//! - `text`: numbers as text, for file names.

pub mod corpus;
pub mod counters;
pub mod crash;
pub mod executor;
pub mod mutator;
pub mod outcome;
pub mod stats;
pub mod text;
pub mod worker;
