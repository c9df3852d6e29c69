use cedar_bench::sampler::{result_of, to_sample};
use cedar_bench::stats::{
    merge, rank, rank_range, scaled_root, std_dev, summarize, to_field, total, total_squares,
};
use cedar_bench::wide::Wide;
use cedar_bench::BenchmarkStats;

fn zeros() -> BenchmarkStats {
    BenchmarkStats { mean_ns: 0, std_dev: 0, lower_q: 0, upper_q: 0, samples: 0, gc_count: None }
}

#[test]
fn quartiles_are_nearest_rank() {
    let stats = summarize(&vec![10, 20, 30, 40, 50, 60, 70, 80, 90, 100]);
    assert_eq!(stats.lower_q, 30);
    assert_eq!(stats.upper_q, 80);
    assert_eq!(stats.samples, 10);
    assert_eq!(stats.mean_ns, 55);
    assert_eq!(stats.std_dev, 28);
    assert_eq!(stats.gc_count, None);
}

#[test]
fn quartiles_do_not_depend_on_the_order_of_the_samples() {
    let stats = summarize(&vec![100, 30, 70, 10, 90, 50, 20, 80, 40, 60]);
    assert_eq!(stats.lower_q, 30);
    assert_eq!(stats.upper_q, 80);
}

#[test]
fn mean_and_population_standard_deviation() {
    let stats = summarize(&vec![10, 20, 30]);
    assert_eq!(stats.mean_ns, 20);
    assert_eq!(stats.std_dev, 8);
    assert_eq!(stats.lower_q, 10);
    assert_eq!(stats.upper_q, 30);
    assert_eq!(stats.samples, 3);
}

#[test]
fn standard_deviation_divides_by_the_count() {
    // The squared deviations sum to 32; divided by 8 the variance is 4, by 7 it
    // would be more than 4.5.
    assert_eq!(std_dev(&vec![2, 4, 4, 4, 5, 5, 7, 9]), 2);
    // Variance 2.25 by the count, standard deviation 1.5; 3 by the count less one.
    assert_eq!(summarize(&vec![1, 1, 4, 4]).std_dev, 1);
}

#[test]
fn statistics_are_truncated() {
    let stats = summarize(&vec![1, 2]);
    assert_eq!(stats.mean_ns, 1);
    assert_eq!(stats.std_dev, 0);
    let stats = summarize(&vec![0, 0, 0, 7]);
    assert_eq!(stats.mean_ns, 1);
    assert_eq!(stats.std_dev, 3);
}

#[test]
fn no_samples_reduce_to_zeros() {
    assert_eq!(summarize(&Vec::new()), zeros());
    assert_eq!(std_dev(&Vec::new()), 0);
    assert_eq!(total(&Vec::new()), 0);
}

#[test]
fn one_sample_is_its_own_statistics() {
    let stats = summarize(&vec![42]);
    assert_eq!(
        stats,
        BenchmarkStats {
            mean_ns: 42,
            std_dev: 0,
            lower_q: 42,
            upper_q: 42,
            samples: 1,
            gc_count: None
        }
    );
}

#[test]
fn quartile_indices_for_small_counts() {
    // floor(n / 4) and floor(3 n / 4) for n = 2..7.
    let expected = [(0, 1), (0, 2), (1, 3), (1, 3), (1, 4), (1, 5)];
    for (n, (low, high)) in (2u64..8).zip(expected) {
        let samples: Vec<u64> = (0..n).map(|i| 100 + i).collect();
        let stats = summarize(&samples);
        assert_eq!(stats.lower_q, 100 + low, "n = {}", n);
        assert_eq!(stats.upper_q, 100 + high, "n = {}", n);
    }
}

#[test]
fn the_largest_samples_do_not_overflow() {
    let samples = vec![u64::MAX; 1000];
    let stats = summarize(&samples);
    assert_eq!(stats.mean_ns, i64::MAX);
    assert_eq!(stats.std_dev, 0);
    assert_eq!(stats.lower_q, i64::MAX);
    assert_eq!(stats.upper_q, i64::MAX);
    assert_eq!(stats.samples, 1000);
    // Half at zero and half at the top: the deviation is half the range.
    let mut split = vec![0u64; 500];
    split.extend(vec![u64::MAX; 500]);
    assert_eq!(std_dev(&split), u64::MAX / 2);
    assert_eq!(summarize(&split).std_dev, i64::MAX);
    assert_eq!(summarize(&split).mean_ns, i64::MAX);
    assert_eq!(summarize(&split).lower_q, 0);
}

#[test]
fn fields_are_capped() {
    assert_eq!(to_field(0), 0);
    assert_eq!(to_field(i64::MAX as u64), i64::MAX);
    assert_eq!(to_field(i64::MAX as u64 + 1), i64::MAX);
    assert_eq!(to_sample(17), 17);
    assert_eq!(to_sample(u64::MAX as u128), u64::MAX);
    assert_eq!(to_sample(u64::MAX as u128 + 1), u64::MAX);
    assert_eq!(to_sample(u128::MAX), u64::MAX);
}

#[test]
fn sums_are_exact() {
    let samples = vec![u64::MAX, u64::MAX, 3];
    assert_eq!(total(&samples), 2 * (u64::MAX as u128) + 3);
    let squares = total_squares(&samples);
    // 2 * (2^64 - 1)^2 + 9 = 2^129 - 2^66 + 11.
    assert_eq!(squares.hi, 1);
    assert_eq!(squares.lo, u128::MAX - (1u128 << 66) + 12);
}

#[test]
fn ranking_sorts_and_keeps_every_sample() {
    assert_eq!(rank(&vec![5, 1, 4, 1, 5, 9, 2, 6]), vec![1, 1, 2, 4, 5, 5, 6, 9]);
    assert_eq!(rank(&Vec::new()), Vec::<u64>::new());
}

#[test]
fn merging_keeps_both_runs_in_order() {
    assert_eq!(merge(&vec![1, 4, 4, 9], &vec![2, 4, 10, 11]), vec![1, 2, 4, 4, 4, 9, 10, 11]);
    assert_eq!(merge(&Vec::new(), &vec![3, 5]), vec![3, 5]);
    assert_eq!(merge(&vec![3, 5], &Vec::new()), vec![3, 5]);
    assert_eq!(merge(&Vec::new(), &Vec::new()), Vec::<u64>::new());
    assert_eq!(rank_range(&vec![9, 7, 5, 3, 1], 1, 4), vec![3, 5, 7]);
    assert_eq!(rank_range(&vec![9, 7, 5, 3, 1], 2, 2), Vec::<u64>::new());
}

#[test]
fn ranking_agrees_with_sorting() {
    let samples: Vec<u64> = (0..5000u64).map(|i| (i * 2_654_435_761) % 10_007).collect();
    let mut expected = samples.clone();
    expected.sort();
    assert_eq!(rank(&samples), expected);
}

#[test]
fn statistics_do_not_depend_on_the_order_of_the_samples() {
    let samples: Vec<u64> = (0..300u64).map(|i| 500 + (i * 7919) % 1_013).collect();
    let mut reversed = samples.clone();
    reversed.reverse();
    let mut rotated = samples.clone();
    rotated.rotate_left(97);
    assert_eq!(summarize(&samples), summarize(&reversed));
    assert_eq!(summarize(&samples), summarize(&rotated));
}

#[test]
fn scaled_root_is_the_floor() {
    assert_eq!(scaled_root(3, Wide { hi: 0, lo: 600 }), 8);
    assert_eq!(scaled_root(1, Wide { hi: 0, lo: 0 }), 0);
    assert_eq!(scaled_root(1, Wide { hi: 0, lo: 15 }), 3);
    assert_eq!(scaled_root(1, Wide { hi: 0, lo: 16 }), 4);
    assert_eq!(scaled_root(2, Wide { hi: 0, lo: 15 }), 1);
    assert_eq!(scaled_root(2, Wide { hi: 0, lo: 16 }), 2);
    // (2^64 - 1)^2 under n = 1.
    let top = Wide::product(u64::MAX as u128, u64::MAX as u128);
    assert_eq!(scaled_root(1, top), u64::MAX);
}

#[test]
fn statistics_agree_with_floating_point_on_moderate_samples() {
    let samples: Vec<u64> = (0..1000u64).map(|i| 1_000 + (i * 7919) % 5_003).collect();
    let n = samples.len() as f64;
    let mean = samples.iter().map(|&t| t as f64).sum::<f64>() / n;
    let variance = samples.iter().map(|&t| (t as f64 - mean).powi(2)).sum::<f64>() / n;
    let mut sorted: Vec<f64> = samples.iter().map(|&t| t as f64).collect();
    sorted.sort_by(|a, b| a.partial_cmp(b).unwrap());
    let stats = summarize(&samples);
    assert_eq!(stats.mean_ns, mean as i64);
    assert_eq!(stats.std_dev, variance.sqrt() as i64);
    assert_eq!(stats.lower_q, sorted[(n * 0.25) as usize] as i64);
    assert_eq!(stats.upper_q, sorted[(n * 0.75) as usize] as i64);
    assert_eq!(stats.samples, 1000);
}

#[test]
fn a_result_carries_the_name_and_the_statistics() {
    let result = result_of(&String::from("cedar/simple-satisfied"), &vec![10, 20, 30]);
    assert_eq!(result.name, "cedar/simple-satisfied");
    assert_eq!(result.results, summarize(&vec![10, 20, 30]));
}
