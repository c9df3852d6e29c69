//! A micro-benchmark harness for the Cedar authorization engine: a fixed
//! catalogue of scenarios, a sampler that times the engine's decision call,
//! and a reducer that turns latency samples into summary statistics.

pub mod attrs;
pub mod benchmarks;
pub mod catalogue;
pub mod engine;
pub mod json;
pub mod policy;
pub mod prepare;
pub mod report;
pub mod sampler;
pub mod stats;
pub mod text;
pub mod wide;

pub use benchmarks::{
    all_benchmarks, complex_partial, complex_satisfied, count_benchmarks, count_large_contradicted,
    count_large_satisfied, count_medium_satisfied, count_small_contradicted, count_small_satisfied,
    medium_partial, medium_satisfied, quantifier_benchmarks, quantifier_large_contradicted,
    quantifier_large_satisfied, quantifier_small_contradicted, quantifier_small_satisfied,
    simple_contradicted, simple_satisfied,
};
pub use policy::{COMPLEX_POLICY, MEDIUM_POLICY, SCHEMA_SRC, SIMPLE_POLICY};
pub use prepare::{PrepareError, PreparedBenchmark};
pub use report::ResultsOutput;
pub use sampler::{run_benchmark, BenchmarkResult};
pub use stats::BenchmarkStats;
