//! The sampler: warm-up calls whose timing is discarded, then measured calls,
//! one latency sample each.

use crate::engine::{as_nanos, elapsed, is_authorized, now};
use crate::prepare::PreparedBenchmark;
use crate::stats::{field_of, stats_of, summarize, BenchmarkStats};
use vstd::prelude::*;

verus! {

/// The statistics of one scenario, under the scenario's name.
#[derive(Debug, Clone)]
pub struct BenchmarkResult {
    pub name: String,
    pub results: BenchmarkStats,
}

/// What one sampling run did: how many warm-up calls it made and discarded,
/// and the latencies of the measured calls, in nanoseconds, in the order
/// measured.
#[derive(Debug)]
pub struct SampleRun {
    pub discarded: usize,
    pub latencies: Vec<u64>,
}

/// The sample that stands for an elapsed time: the time in whole nanoseconds,
/// or the largest sample if the time is beyond it.
pub open spec fn sample_of(nanos: int) -> u64 {
    if nanos > u64::MAX {
        u64::MAX
    } else {
        nanos as u64
    }
}

/// The sample that stands for an elapsed time.
pub fn to_sample(nanos: u128) -> (sample: u64)
    ensures
        sample == sample_of(nanos as int),
{
    if nanos > 0xFFFF_FFFF_FFFF_FFFF {
        u64::MAX
    } else {
        nanos as u64
    }
}

/// Asks the engine to decide the prepared scenario. `true` is allow.
pub fn decide(bench: &PreparedBenchmark) -> bool {
    is_authorized(&bench.authorizer, &bench.request, &bench.policy_set, &bench.entities)
}

/// One measured call: the time from just before the decision call to just
/// after it.
pub fn timed_decision(bench: &PreparedBenchmark) -> u64 {
    let start = now();
    let _ = decide(bench);
    let spent = elapsed(&start);
    to_sample(as_nanos(&spent))
}

/// Makes `warmup` decision calls and drops their results. Returns how many
/// calls it made.
pub fn warm_up(bench: &PreparedBenchmark, warmup: usize) -> (calls: usize)
    ensures
        calls == warmup,
{
    let mut calls: usize = 0;
    while calls < warmup
        invariant
            calls <= warmup,
        decreases warmup - calls,
    {
        let _ = decide(bench);
        calls = calls + 1;
    }
    calls
}

/// Makes `samples` measured calls, one after the other, and returns their
/// latencies in the order measured.
pub fn measure(bench: &PreparedBenchmark, samples: usize) -> (latencies: Vec<u64>)
    ensures
        latencies@.len() == samples,
{
    let mut latencies: Vec<u64> = Vec::new();
    while latencies.len() < samples
        invariant
            latencies@.len() <= samples,
        decreases samples - latencies@.len(),
    {
        let sample = timed_decision(bench);
        latencies.push(sample);
    }
    latencies
}

/// Warms the engine up, then measures.
pub fn collect_samples(bench: &PreparedBenchmark, warmup: usize, samples: usize) -> (run: SampleRun)
    ensures
        run.discarded == warmup,
        run.latencies@.len() == samples,
{
    let discarded = warm_up(bench, warmup);
    let latencies = measure(bench, samples);
    SampleRun { discarded, latencies }
}

/// The result of a scenario whose measured latencies are given.
pub fn result_of(name: &String, latencies: &Vec<u64>) -> (r: BenchmarkResult)
    ensures
        r.name@ == name@,
        r.results == stats_of(latencies@),
{
    BenchmarkResult { name: name.clone(), results: summarize(latencies) }
}

/// Runs one prepared scenario: `warmup` discarded calls, then `samples`
/// measured calls, reduced to statistics. The statistics are those of a sample
/// set of exactly `samples` latencies; which latencies, the clock decides.
pub fn run_benchmark(bench: &PreparedBenchmark, warmup: usize, samples: usize) -> (r:
    BenchmarkResult)
    ensures
        r.name@ == bench.name@,
        exists|latencies: Seq<u64>|
            latencies.len() == samples && r.results == #[trigger] stats_of(latencies),
        r.results.samples == field_of(samples as int),
        r.results.gc_count is None,
        samples == 0 ==> r.results == stats_of(Seq::<u64>::empty()),
{
    let run = collect_samples(bench, warmup, samples);
    let r = result_of(&bench.name, &run.latencies);
    assert(samples == 0 ==> run.latencies@ =~= Seq::<u64>::empty());
    r
}

} // verus!
