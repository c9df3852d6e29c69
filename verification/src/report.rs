//! The results aggregator: the statistics of a run under one report.

use crate::prepare::PreparedBenchmark;
use crate::sampler::{run_benchmark, BenchmarkResult};
use crate::stats::field_of;
use vstd::prelude::*;

verus! {

/// The report of one run.
#[derive(Debug, Clone)]
pub struct ResultsOutput {
    pub timestamp: String,
    pub engine: String,
    pub benchmarks: Vec<BenchmarkResult>,
}

/// The name under which this engine is reported.
pub const ENGINE_NAME: &'static str = "cedar";

/// Runs the prepared scenarios one at a time, in order, each with `warmup`
/// discarded calls and `samples` measured calls.
pub fn run_all(benches: &Vec<PreparedBenchmark>, warmup: usize, samples: usize) -> (results: Vec<
    BenchmarkResult,
>)
    ensures
        results@.len() == benches@.len(),
        forall|i: int|
            0 <= i < benches@.len() ==> (#[trigger] results@[i]).name@ == benches@[i].name@
                && results@[i].results.samples == field_of(samples as int)
                && results@[i].results.gc_count is None,
{
    let mut results: Vec<BenchmarkResult> = Vec::new();
    let mut i: usize = 0;
    while i < benches.len()
        invariant
            i <= benches@.len(),
            results@.len() == i,
            forall|k: int|
                0 <= k < i ==> (#[trigger] results@[k]).name@ == benches@[k].name@
                    && results@[k].results.samples == field_of(samples as int)
                    && results@[k].results.gc_count is None,
        decreases benches.len() - i,
    {
        let result = run_benchmark(&benches[i], warmup, samples);
        results.push(result);
        i = i + 1;
    }
    results
}

/// Puts the results of a run, in their order, under the run's time stamp and
/// the engine's name.
pub fn assemble(timestamp: String, engine: String, results: Vec<BenchmarkResult>) -> (report:
    ResultsOutput)
    ensures
        report.timestamp == timestamp,
        report.engine == engine,
        report.benchmarks == results,
{
    ResultsOutput { timestamp, engine, benchmarks: results }
}

} // verus!
