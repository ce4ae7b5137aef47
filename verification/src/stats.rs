//! The figures of the periodic progress report.

use vstd::prelude::*;

verus! {

/// The time between two progress reports, in seconds.
pub const REPORT_INTERVAL_SECS: u64 = 1;

/// One progress report.
#[derive(Clone, Copy, Debug, PartialEq, Eq, Structural)]
pub struct Stats {
    /// Cases run so far.
    pub cases: usize,
    /// Whole seconds since the start.
    pub elapsed_secs: u64,
    /// Cases per whole second, or `None` before the first second is over.
    pub cases_per_sec: Option<u64>,
    /// Crashes found so far.
    pub crashes: usize,
}

/// The report for the given counter readings, `elapsed_ms` milliseconds
/// after the start. Both the seconds and the rate are rounded down.
pub open spec fn spec_summarize(cases: usize, crashes: usize, elapsed_ms: u64) -> Stats {
    Stats {
        cases,
        elapsed_secs: (elapsed_ms / 1000) as u64,
        cases_per_sec: if elapsed_ms < 1000 {
            None
        } else {
            Some((cases as int / (elapsed_ms as int / 1000)) as u64)
        },
        crashes,
    }
}

/// Computes the figures of one progress report.
pub fn summarize(cases: usize, crashes: usize, elapsed_ms: u64) -> (stats: Stats)
    ensures
        stats == spec_summarize(cases, crashes, elapsed_ms),
{
    let elapsed_secs = elapsed_ms / 1000;
    let cases_per_sec = if elapsed_secs == 0 {
        None
    } else {
        Some(cases as u64 / elapsed_secs)
    };
    Stats { cases, elapsed_secs, cases_per_sec, crashes }
}

} // verus!
