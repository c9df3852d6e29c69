use cedar_bench::report::{assemble, run_all, ENGINE_NAME};
use cedar_bench::sampler::{collect_samples, measure, timed_decision, warm_up};
use cedar_bench::{all_benchmarks, count_benchmarks, quantifier_benchmarks, run_benchmark, simple_satisfied};

#[test]
fn a_run_measures_exactly_the_samples_asked_for() {
    let bench = simple_satisfied().expect("the scenario prepares");
    let run = collect_samples(&bench, 7, 13);
    assert_eq!(run.discarded, 7);
    assert_eq!(run.latencies.len(), 13);
    let run = collect_samples(&bench, 0, 0);
    assert_eq!(run.discarded, 0);
    assert!(run.latencies.is_empty());
    assert_eq!(warm_up(&bench, 5), 5);
    assert_eq!(measure(&bench, 4).len(), 4);
    let _ = timed_decision(&bench);
}

#[test]
fn a_benchmark_reports_its_sample_count() {
    let bench = simple_satisfied().expect("the scenario prepares");
    let result = run_benchmark(&bench, 3, 25);
    assert_eq!(result.name, "cedar/simple-satisfied");
    assert_eq!(result.results.samples, 25);
    assert_eq!(result.results.gc_count, None);
    assert!(result.results.lower_q <= result.results.upper_q);
    assert!(result.results.mean_ns >= 0);
    assert!(result.results.std_dev >= 0);
}

#[test]
fn a_benchmark_without_samples_reports_zeros() {
    let bench = simple_satisfied().expect("the scenario prepares");
    for warmup in [0, 4] {
        let result = run_benchmark(&bench, warmup, 0);
        assert_eq!(result.name, "cedar/simple-satisfied");
        assert_eq!(result.results.samples, 0);
        assert_eq!(result.results.mean_ns, 0);
        assert_eq!(result.results.std_dev, 0);
        assert_eq!(result.results.lower_q, 0);
        assert_eq!(result.results.upper_q, 0);
        assert_eq!(result.results.gc_count, None);
    }
}

#[test]
fn groups_are_prepared_in_catalogue_order() {
    let names = |benches: Vec<cedar_bench::PreparedBenchmark>| -> Vec<String> {
        benches.into_iter().map(|b| b.name).collect()
    };
    assert_eq!(
        names(all_benchmarks().expect("the group prepares")),
        vec![
            "cedar/simple-satisfied",
            "cedar/simple-contradicted",
            "cedar/medium-satisfied",
            "cedar/medium-partial",
            "cedar/complex-satisfied",
            "cedar/complex-partial",
        ]
    );
    assert_eq!(
        names(quantifier_benchmarks().expect("the group prepares")),
        vec![
            "cedar/quantifier/containsall-small-satisfied",
            "cedar/quantifier/containsall-small-contradicted",
            "cedar/quantifier/containsall-large-satisfied",
            "cedar/quantifier/containsall-large-contradicted",
        ]
    );
    assert_eq!(
        names(count_benchmarks().expect("the group prepares")),
        vec![
            "cedar/count/containsall-small-satisfied",
            "cedar/count/containsall-small-contradicted",
            "cedar/count/containsall-medium-satisfied",
            "cedar/count/containsall-large-satisfied",
            "cedar/count/containsall-large-contradicted",
        ]
    );
}

#[test]
fn a_report_keeps_the_results_in_order() {
    let benches = all_benchmarks().expect("the group prepares");
    let results = run_all(&benches, 1, 5);
    assert_eq!(results.len(), 6);
    for (result, bench) in results.iter().zip(benches.iter()) {
        assert_eq!(result.name, bench.name);
        assert_eq!(result.results.samples, 5);
    }
    let report = assemble(String::from("2024-01-01T00:00:00Z"), String::from(ENGINE_NAME), results.clone());
    assert_eq!(report.timestamp, "2024-01-01T00:00:00Z");
    assert_eq!(report.engine, "cedar");
    assert_eq!(report.benchmarks.len(), 6);
    for (kept, given) in report.benchmarks.iter().zip(results.iter()) {
        assert_eq!(kept.name, given.name);
        assert_eq!(kept.results, given.results);
    }
}
