//! The statistics reducer: latency samples in, summary statistics out.
//!
//! Samples are whole nanoseconds. Every statistic is defined over the
//! mathematical integers and truncated toward zero; a field that would not fit
//! in an `i64` holds `i64::MAX`. An empty sample set reduces to all zeros.

use crate::wide::{two_to_128, two_to_64, lemma_half_product, Wide};
use vstd::prelude::*;
use vstd::relations::{sorted_by, total_ordering};
use vstd::seq_lib::{lemma_multiset_commutative, lemma_sorted_unique, to_multiset_build};

verus! {

/// Summary statistics of one scenario, in nanoseconds.
#[derive(Debug, Clone, Copy, PartialEq, Eq)]
pub struct BenchmarkStats {
    pub mean_ns: i64,
    pub std_dev: i64,
    pub lower_q: i64,
    pub upper_q: i64,
    pub samples: i64,
    pub gc_count: Option<i64>,
}

/// The sum of the samples.
pub open spec fn sum(s: Seq<u64>) -> int
    decreases s.len(),
{
    if s.len() == 0 {
        0
    } else {
        sum(s.drop_last()) + s.last()
    }
}

/// The sum of the squares of the samples.
pub open spec fn sum_squares(s: Seq<u64>) -> int
    decreases s.len(),
{
    if s.len() == 0 {
        0
    } else {
        sum_squares(s.drop_last()) + s.last() * s.last()
    }
}

/// The sum over the samples `x` of `(n * x - total)^2`. With `n` the number of
/// samples and `total` their sum this is `n^2` times the sum of the squared
/// deviations from the mean, and so `n^3` times the population variance.
pub open spec fn scaled_squared_deviations(s: Seq<u64>, n: int, total: int) -> int
    decreases s.len(),
{
    if s.len() == 0 {
        0
    } else {
        scaled_squared_deviations(s.drop_last(), n, total) + (n * s.last() - total) * (n
            * s.last() - total)
    }
}

/// The arithmetic mean, truncated; 0 for no samples.
pub open spec fn mean_of(s: Seq<u64>) -> int {
    if s.len() == 0 {
        0
    } else {
        sum(s) / (s.len() as int)
    }
}

/// `d` is the truncated square root of `v / c`: it is not negative and
/// `c * d^2 <= v < c * (d + 1)^2`.
pub open spec fn is_scaled_root(c: int, v: int, d: int) -> bool {
    &&& 0 <= d
    &&& c * (d * d) <= v
    &&& v < c * ((d + 1) * (d + 1))
}

/// `d` is the population standard deviation of `s`, truncated: the integer
/// with `d^2 <= variance < (d + 1)^2`, the variance being the sum of the
/// squared deviations from the mean divided by the number of samples.
pub open spec fn is_std_dev(s: Seq<u64>, d: int) -> bool {
    let n = s.len() as int;
    is_scaled_root(n * n * n, scaled_squared_deviations(s, n, sum(s)), d)
}

/// The truncated population standard deviation; 0 for no samples.
pub open spec fn std_dev_of(s: Seq<u64>) -> int {
    if s.len() == 0 {
        0
    } else {
        choose|d: int| is_std_dev(s, d)
    }
}

/// The order in which samples are ranked.
pub open spec fn ascending() -> spec_fn(u64, u64) -> bool {
    |a: u64, b: u64| a <= b
}

/// The samples in ascending order.
pub open spec fn ranked(s: Seq<u64>) -> Seq<u64> {
    s.sort_by(ascending())
}

/// The nearest-rank quartile: the ranked sample at index `floor(n * k / 4)`;
/// 0 for no samples.
pub open spec fn quartile_of(s: Seq<u64>, k: int) -> int {
    if s.len() == 0 {
        0
    } else {
        ranked(s)[(s.len() * k) / 4] as int
    }
}

/// The value that a field holds for the exact statistic `x`.
pub open spec fn field_of(x: int) -> i64 {
    if x > i64::MAX {
        i64::MAX
    } else {
        x as i64
    }
}

/// The statistics of a sample set.
pub open spec fn stats_of(s: Seq<u64>) -> BenchmarkStats {
    BenchmarkStats {
        mean_ns: field_of(mean_of(s)),
        std_dev: field_of(std_dev_of(s)),
        lower_q: field_of(quartile_of(s, 1)),
        upper_q: field_of(quartile_of(s, 3)),
        samples: field_of(s.len() as int),
        gc_count: None,
    }
}

/// The largest square of a 64-bit sample.
pub open spec fn max_square() -> int {
    0xFFFF_FFFF_FFFF_FFFE_0000_0000_0000_0001int
}

/// The ranking order is a total order.
pub proof fn lemma_ascending_is_total()
    ensures
        total_ordering(ascending()),
{
}

/// Only one sequence is an ascending rearrangement of the samples.
pub proof fn lemma_ranked_unique(s: Seq<u64>, r: Seq<u64>)
    requires
        sorted_by(r, ascending()),
        r.to_multiset() == s.to_multiset(),
    ensures
        r == ranked(s),
{
    lemma_ascending_is_total();
    s.lemma_sort_by_ensures(ascending());
    lemma_sorted_unique(r, ranked(s), ascending());
}

/// The sums of a prefix grow with the prefix and stay within their bounds.
pub proof fn lemma_sums_bounded(s: Seq<u64>)
    ensures
        0 <= sum(s) <= s.len() * 0xFFFF_FFFF_FFFF_FFFFint,
        0 <= sum_squares(s) <= s.len() * max_square(),
    decreases s.len(),
{
    if s.len() > 0 {
        lemma_sums_bounded(s.drop_last());
        lemma_half_product(s.last() as int, s.last() as int);
    }
}

/// The scaled squared deviations, multiplied out.
pub proof fn lemma_deviations_expand(s: Seq<u64>, n: int, total: int)
    ensures
        scaled_squared_deviations(s, n, total) == n * n * sum_squares(s) - 2 * n * total * sum(s)
            + s.len() * (total * total),
        scaled_squared_deviations(s, n, total) >= 0,
    decreases s.len(),
{
    if s.len() > 0 {
        let p = s.drop_last();
        let x = s.last() as int;
        let m = p.len() as int;
        lemma_deviations_expand(p, n, total);
        let q = sum_squares(p);
        let t = sum(p);
        assert((n * x - total) * (n * x - total) >= 0) by (nonlinear_arith);
        assert(n * n * q - 2 * n * total * t + m * (total * total) + (n * x - total) * (n * x
            - total) == n * n * (q + x * x) - 2 * n * total * (t + x) + (m + 1) * (total * total))
            by (nonlinear_arith);
    }
}

/// With the true count and sum, the scaled squared deviations are the count
/// times `n * sum_squares - sum^2`, which is therefore not negative.
pub proof fn lemma_deviations_closed_form(s: Seq<u64>)
    ensures
        scaled_squared_deviations(s, s.len() as int, sum(s)) == s.len() * (s.len() * sum_squares(s)
            - sum(s) * sum(s)),
        s.len() * sum_squares(s) - sum(s) * sum(s) >= 0,
{
    let n = s.len() as int;
    let t = sum(s);
    let q = sum_squares(s);
    lemma_deviations_expand(s, n, t);
    lemma_sums_bounded(s);
    assert(n * n * q - 2 * n * t * t + n * (t * t) == n * (n * q - t * t)) by (nonlinear_arith);
    if n > 0 {
        assert(n * q - t * t >= 0) by (nonlinear_arith)
            requires
                n > 0,
                n * (n * q - t * t) >= 0,
        ;
    }
}

/// A sample set has at most one truncated standard deviation.
pub proof fn lemma_std_dev_unique(s: Seq<u64>, d1: int, d2: int)
    requires
        is_std_dev(s, d1),
        is_std_dev(s, d2),
    ensures
        d1 == d2,
{
    let n = s.len() as int;
    let c = n * n * n;
    let dev = scaled_squared_deviations(s, n, sum(s));
    assert(c >= 0) by (nonlinear_arith)
        requires
            c == n * n * n,
            n >= 0,
    ;
    if d1 < d2 {
        assert(c * ((d1 + 1) * (d1 + 1)) <= c * (d2 * d2)) by (nonlinear_arith)
            requires
                c >= 0,
                0 <= d1 + 1 <= d2,
        ;
    }
    if d2 < d1 {
        assert(c * ((d2 + 1) * (d2 + 1)) <= c * (d1 * d1)) by (nonlinear_arith)
            requires
                c >= 0,
                0 <= d2 + 1 <= d1,
        ;
    }
}

/// The standard deviation of a sample set is the one integer that qualifies.
pub proof fn lemma_std_dev_is(s: Seq<u64>, d: int)
    requires
        is_std_dev(s, d),
    ensures
        std_dev_of(s) == d,
{
    assert(s.len() > 0) by {
        if s.len() == 0 {
            let n = s.len() as int;
            assert(n * n * n * ((d + 1) * (d + 1)) == 0) by (nonlinear_arith)
                requires
                    n == 0,
            ;
        }
    }
    let c = choose|c: int| is_std_dev(s, c);
    lemma_std_dev_unique(s, c, d);
}

/// 2^64 squares of samples, and 2^128 of them, fit below 2^256.
pub proof fn lemma_room()
    ensures
        two_to_64() * max_square() < two_to_128() * two_to_128(),
        two_to_128() * max_square() < two_to_128() * two_to_128(),
        two_to_64() * two_to_64() == two_to_128(),
{
    assert(0x1_0000_0000_0000_0000int * 0xFFFF_FFFF_FFFF_FFFE_0000_0000_0000_0001int
        < 0x1_0000_0000_0000_0000_0000_0000_0000_0000int
        * 0x1_0000_0000_0000_0000_0000_0000_0000_0000int) by (nonlinear_arith);
    assert(0x1_0000_0000_0000_0000_0000_0000_0000_0000int
        * 0xFFFF_FFFF_FFFF_FFFE_0000_0000_0000_0001int
        < 0x1_0000_0000_0000_0000_0000_0000_0000_0000int
        * 0x1_0000_0000_0000_0000_0000_0000_0000_0000int) by (nonlinear_arith);
    assert(0x1_0000_0000_0000_0000int * 0x1_0000_0000_0000_0000int
        == 0x1_0000_0000_0000_0000_0000_0000_0000_0000int) by (nonlinear_arith);
}

/// The field value of an exact statistic that is known as a `u64`.
pub fn to_field(x: u64) -> (f: i64)
    ensures
        f == field_of(x as int),
{
    if x > 0x7FFF_FFFF_FFFF_FFFF {
        i64::MAX
    } else {
        x as i64
    }
}

/// The sum of the samples.
pub fn total(samples: &Vec<u64>) -> (t: u128)
    ensures
        t == sum(samples@),
{
    let mut t: u128 = 0;
    let mut i: usize = 0;
    while i < samples.len()
        invariant
            i <= samples.len(),
            t == sum(samples@.take(i as int)),
            t <= i * 0xFFFF_FFFF_FFFF_FFFFint,
        decreases samples.len() - i,
    {
        assert(samples@.take(i as int + 1).drop_last() =~= samples@.take(i as int));
        t = t + samples[i] as u128;
        i = i + 1;
    }
    assert(samples@.take(i as int) =~= samples@);
    t
}

/// The sum of the squares of the samples.
pub fn total_squares(samples: &Vec<u64>) -> (q: Wide)
    ensures
        q@ == sum_squares(samples@),
{
    let mut q = Wide::zero();
    let mut i: usize = 0;
    while i < samples.len()
        invariant
            i <= samples.len(),
            q@ == sum_squares(samples@.take(i as int)),
        decreases samples.len() - i,
    {
        let x = samples[i] as u128;
        proof {
            assert(samples@.take(i as int + 1).drop_last() =~= samples@.take(i as int));
            lemma_half_product(x as int, x as int);
            lemma_sums_bounded(samples@.take(i as int + 1));
            lemma_room();
        }
        q = q.plus(Wide::from_u128(x * x));
        i = i + 1;
    }
    assert(samples@.take(i as int) =~= samples@);
    q
}

/// Merges two ascending runs into one.
pub fn merge(left: &Vec<u64>, right: &Vec<u64>) -> (out: Vec<u64>)
    requires
        sorted_by(left@, ascending()),
        sorted_by(right@, ascending()),
    ensures
        sorted_by(out@, ascending()),
        out@.to_multiset() == left@.to_multiset().add(right@.to_multiset()),
        out@.len() == left@.len() + right@.len(),
{
    let mut out: Vec<u64> = Vec::new();
    let mut i: usize = 0;
    let mut j: usize = 0;
    proof {
        broadcast use vstd::seq_lib::group_to_multiset_ensures;

        assert(left@.take(0) =~= Seq::<u64>::empty());
        assert(right@.take(0) =~= Seq::<u64>::empty());
        assert(out@ =~= Seq::<u64>::empty());
        assert(out@.to_multiset() =~= left@.take(0).to_multiset().add(
            right@.take(0).to_multiset(),
        ));
    }
    while i < left.len() || j < right.len()
        invariant
            i <= left@.len(),
            j <= right@.len(),
            out@.len() == i + j,
            sorted_by(left@, ascending()),
            sorted_by(right@, ascending()),
            sorted_by(out@, ascending()),
            out@.to_multiset() == left@.take(i as int).to_multiset().add(
                right@.take(j as int).to_multiset(),
            ),
            forall|k: int| 0 <= k < out@.len() && i < left@.len() ==> out@[k] <= left@[i as int],
            forall|k: int| 0 <= k < out@.len() && j < right@.len() ==> out@[k] <= right@[j as int],
        decreases left@.len() - i + right@.len() - j,
    {
        let ghost before = out@;
        let from_left = j >= right.len() || (i < left.len() && left[i] <= right[j]);
        if from_left {
            let x = left[i];
            out.push(x);
            proof {
                to_multiset_build(before, x);
                to_multiset_build(left@.take(i as int), x);
                assert(left@.take(i as int + 1) =~= left@.take(i as int).push(x));
                assert(out@.to_multiset() =~= left@.take(i as int + 1).to_multiset().add(
                    right@.take(j as int).to_multiset(),
                ));
                if i + 1 < left@.len() {
                    assert((ascending())(left@[i as int], left@[i as int + 1]));
                }
            }
            i = i + 1;
        } else {
            let x = right[j];
            out.push(x);
            proof {
                to_multiset_build(before, x);
                to_multiset_build(right@.take(j as int), x);
                assert(right@.take(j as int + 1) =~= right@.take(j as int).push(x));
                assert(out@.to_multiset() =~= left@.take(i as int).to_multiset().add(
                    right@.take(j as int + 1).to_multiset(),
                ));
                if j + 1 < right@.len() {
                    assert((ascending())(right@[j as int], right@[j as int + 1]));
                }
            }
            j = j + 1;
        }
    }
    proof {
        assert(left@.take(i as int) =~= left@);
        assert(right@.take(j as int) =~= right@);
    }
    out
}

/// The samples from index `from` up to index `to` in ascending order, by
/// merging the two ranked halves.
pub fn rank_range(samples: &Vec<u64>, from: usize, to: usize) -> (out: Vec<u64>)
    requires
        from <= to <= samples@.len(),
    ensures
        out@ == ranked(samples@.subrange(from as int, to as int)),
        out@.len() == to - from,
    decreases to - from,
{
    let ghost part = samples@.subrange(from as int, to as int);
    if to - from <= 1 {
        let mut out: Vec<u64> = Vec::new();
        if to - from == 1 {
            out.push(samples[from]);
        }
        proof {
            assert(out@ =~= part);
            lemma_ranked_unique(part, out@);
        }
        out
    } else {
        let mid = from + (to - from) / 2;
        let left = rank_range(samples, from, mid);
        let right = rank_range(samples, mid, to);
        proof {
            let first = samples@.subrange(from as int, mid as int);
            let second = samples@.subrange(mid as int, to as int);
            lemma_ascending_is_total();
            first.lemma_sort_by_ensures(ascending());
            second.lemma_sort_by_ensures(ascending());
            lemma_multiset_commutative(first, second);
            assert(part =~= first + second);
        }
        let out = merge(&left, &right);
        proof {
            lemma_ranked_unique(part, out@);
        }
        out
    }
}

/// The samples in ascending order.
pub fn rank(samples: &Vec<u64>) -> (out: Vec<u64>)
    ensures
        out@ == ranked(samples@),
        out@.len() == samples@.len(),
{
    assert(samples@.subrange(0, samples@.len() as int) =~= samples@);
    rank_range(samples, 0, samples.len())
}

/// The truncated square root of `spread / n^2`, by bisection.
pub fn scaled_root(n: u64, spread: Wide) -> (d: u64)
    requires
        n > 0,
        0 <= spread@ < (n * two_to_64()) * (n * two_to_64()),
    ensures
        is_scaled_root(n * n, spread@, d as int),
{
    let mut low: u64 = 0;
    let mut high: u64 = u64::MAX;
    assert((n * 0) * (n * 0) == 0) by (nonlinear_arith);
    while low < high
        invariant
            n > 0,
            low <= high,
            (n * low) * (n * low) <= spread@,
            spread@ < (n * (high + 1)) * (n * (high + 1)),
        decreases high - low,
    {
        let mid: u64 = high - (high - low) / 2;
        proof {
            lemma_half_product(n as int, mid as int);
        }
        let reach: u128 = (n as u128) * (mid as u128);
        let square = Wide::product(reach, reach);
        if square.at_most(spread) {
            low = mid;
        } else {
            high = mid - 1;
        }
    }
    proof {
        let ni = n as int;
        let di = low as int;
        assert((ni * ni) * (di * di) == (ni * di) * (ni * di)) by (nonlinear_arith);
        assert((ni * ni) * ((di + 1) * (di + 1)) == (ni * (di + 1)) * (ni * (di + 1)))
            by (nonlinear_arith);
    }
    low
}

/// The truncated population standard deviation; 0 for no samples.
pub fn std_dev(samples: &Vec<u64>) -> (d: u64)
    ensures
        d == std_dev_of(samples@),
        samples@.len() > 0 ==> is_std_dev(samples@, d as int),
{
    if samples.len() == 0 {
        return 0;
    }
    let n: u64 = samples.len() as u64;
    let t = total(samples);
    let q = total_squares(samples);
    proof {
        lemma_sums_bounded(samples@);
        lemma_deviations_closed_form(samples@);
        lemma_room();
        assert(q@ * n <= n * (n * max_square())) by (nonlinear_arith)
            requires
                0 <= q@ <= n * max_square(),
                n >= 0,
        ;
        assert(n * (n * max_square()) < (n * two_to_64()) * (n * two_to_64())) by (nonlinear_arith)
            requires
                n > 0,
                max_square() < two_to_64() * two_to_64(),
        ;
        assert((n * two_to_64()) * (n * two_to_64()) <= two_to_128() * two_to_128()) by (nonlinear_arith)
            requires
                0 < n <= two_to_64(),
                two_to_64() * two_to_64() == two_to_128(),
        ;
        assert(q@ * n == n * q@) by (nonlinear_arith);
        assert(t * t >= 0) by (nonlinear_arith);
    }
    let scaled = q.times(n);
    let square = Wide::product(t, t);
    let spread = scaled.minus(square);
    let d = scaled_root(n, spread);
    proof {
        let dev = scaled_squared_deviations(samples@, n as int, sum(samples@));
        let x = spread@;
        let di = d as int;
        let ni = n as int;
        assert(dev == ni * x);
        assert(ni * ni * ni * (di * di) == ni * ((ni * ni) * (di * di))) by (nonlinear_arith);
        assert(ni * ni * ni * ((di + 1) * (di + 1)) == ni * ((ni * ni) * ((di + 1) * (di + 1))))
            by (nonlinear_arith);
        assert(ni * ((ni * ni) * (di * di)) <= ni * x) by (nonlinear_arith)
            requires
                ni > 0,
                (ni * ni) * (di * di) <= x,
        ;
        assert(ni * x < ni * ((ni * ni) * ((di + 1) * (di + 1)))) by (nonlinear_arith)
            requires
                ni > 0,
                x < (ni * ni) * ((di + 1) * (di + 1)),
        ;
        lemma_std_dev_is(samples@, di);
    }
    d
}

/// Reduces a sample set to its statistics.
pub fn summarize(samples: &Vec<u64>) -> (stats: BenchmarkStats)
    ensures
        stats == stats_of(samples@),
{
    let n = samples.len();
    if n == 0 {
        return BenchmarkStats {
            mean_ns: 0,
            std_dev: 0,
            lower_q: 0,
            upper_q: 0,
            samples: 0,
            gc_count: None,
        };
    }
    let t = total(samples);
    proof {
        lemma_sums_bounded(samples@);
        assert(t / (n as u128) <= 0xFFFF_FFFF_FFFF_FFFF) by (nonlinear_arith)
            requires
                0 <= t <= n * 0xFFFF_FFFF_FFFF_FFFFint,
                n > 0,
        ;
    }
    let mean: u64 = (t / (n as u128)) as u64;
    let d = std_dev(samples);
    let order = rank(samples);
    let lower: usize = n / 4;
    let upper: usize = (n / 4) * 3 + ((n % 4) * 3) / 4;
    assert(lower == (n * 1) / 4);
    assert(upper == (n * 3) / 4);
    BenchmarkStats {
        mean_ns: to_field(mean),
        std_dev: to_field(d),
        lower_q: to_field(order[lower]),
        upper_q: to_field(order[upper]),
        samples: to_field(n as u64),
        gc_count: None,
    }
}

/// The sum of `f` over the samples.
pub open spec fn sum_of(s: Seq<u64>, f: spec_fn(u64) -> int) -> int
    decreases s.len(),
{
    if s.len() == 0 {
        0
    } else {
        sum_of(s.drop_last(), f) + f(s.last())
    }
}

/// The three sums of the statistics are sums of a function over the samples.
pub proof fn lemma_sums_are_sums_of(s: Seq<u64>, n: int, total: int)
    ensures
        sum(s) == sum_of(s, |x: u64| x as int),
        sum_squares(s) == sum_of(s, |x: u64| x * x),
        scaled_squared_deviations(s, n, total) == sum_of(
            s,
            |x: u64| (n * x - total) * (n * x - total),
        ),
    decreases s.len(),
{
    if s.len() > 0 {
        lemma_sums_are_sums_of(s.drop_last(), n, total);
    }
}

/// Taking one sample out takes its term out of the sum.
pub proof fn lemma_sum_of_remove(s: Seq<u64>, f: spec_fn(u64) -> int, i: int)
    requires
        0 <= i < s.len(),
    ensures
        sum_of(s, f) == sum_of(s.remove(i), f) + f(s[i]),
    decreases s.len(),
{
    if i == s.len() - 1 {
        assert(s.remove(i) =~= s.drop_last());
    } else {
        lemma_sum_of_remove(s.drop_last(), f, i);
        assert(s.remove(i).drop_last() =~= s.drop_last().remove(i));
        assert(s.remove(i).last() == s.last());
    }
}

/// A sum over the samples does not depend on their order.
pub proof fn lemma_sum_of_rearranged(a: Seq<u64>, b: Seq<u64>, f: spec_fn(u64) -> int)
    requires
        a.to_multiset() == b.to_multiset(),
    ensures
        sum_of(a, f) == sum_of(b, f),
    decreases a.len(),
{
    a.to_multiset_ensures();
    b.to_multiset_ensures();
    if a.len() == 0 {
        assert(b.len() == 0);
    } else {
        let x = a.last();
        let last = a.len() - 1;
        assert(a.contains(x)) by {
            assert(a[last] == x);
        }
        assert(a.to_multiset().count(x) > 0);
        assert(b.contains(x));
        let i = choose|i: int| 0 <= i < b.len() && b[i] == x;
        assert(a.remove(last) =~= a.drop_last());
        assert(a.remove(last).to_multiset() == b.remove(i).to_multiset());
        lemma_sum_of_rearranged(a.drop_last(), b.remove(i), f);
        lemma_sum_of_remove(b, f, i);
    }
}

/// For a positive `c` and a `v` that is not negative, some integer `d` has
/// `c * d^2 <= v < c * (d + 1)^2`.
pub proof fn lemma_scaled_root_exists(c: int, v: int)
    requires
        c > 0,
        v >= 0,
    ensures
        exists|d: int| is_scaled_root(c, v, d),
    decreases v,
{
    if v < c {
        assert(c * (0 * 0) == 0 && c * ((0 + 1) * (0 + 1)) == c) by (nonlinear_arith);
        assert(is_scaled_root(c, v, 0));
    } else {
        let w = v - 1;
        lemma_scaled_root_exists(c, w);
        let d = choose|d: int| is_scaled_root(c, w, d);
        if v < c * ((d + 1) * (d + 1)) {
            assert(is_scaled_root(c, v, d));
        } else {
            let e = d + 1;
            assert(c * (e * e) < c * ((e + 1) * (e + 1))) by (nonlinear_arith)
                requires
                    c > 0,
                    e >= 0,
            ;
            assert(is_scaled_root(c, v, e));
        }
    }
}

/// Every sample set that is not empty has a truncated standard deviation, and
/// `std_dev_of` is it.
pub proof fn lemma_std_dev_exists(s: Seq<u64>)
    requires
        s.len() > 0,
    ensures
        is_std_dev(s, std_dev_of(s)),
{
    let n = s.len() as int;
    let dev = scaled_squared_deviations(s, n, sum(s));
    lemma_deviations_expand(s, n, sum(s));
    assert(n * n * n > 0) by (nonlinear_arith)
        requires
            n > 0,
    ;
    let c = n * n * n;
    lemma_scaled_root_exists(c, dev);
    let d = choose|d: int| is_scaled_root(c, dev, d);
    assert(is_std_dev(s, d));
    lemma_std_dev_is(s, d);
}

/// The statistics of a sample set do not depend on the order of the samples.
pub proof fn lemma_stats_order_independent(a: Seq<u64>, b: Seq<u64>)
    requires
        a.to_multiset() == b.to_multiset(),
    ensures
        stats_of(a) == stats_of(b),
{
    a.to_multiset_ensures();
    b.to_multiset_ensures();
    assert(a.len() == b.len());
    if a.len() > 0 {
        let n = a.len() as int;
        let t = sum(a);
        lemma_sums_are_sums_of(a, n, t);
        lemma_sums_are_sums_of(b, n, t);
        lemma_sum_of_rearranged(a, b, |x: u64| x as int);
        lemma_sum_of_rearranged(a, b, |x: u64| (n * x - t) * (n * x - t));
        assert(sum(a) == sum(b));
        assert(scaled_squared_deviations(a, n, t) == scaled_squared_deviations(b, n, t));
        lemma_std_dev_exists(a);
        assert(is_std_dev(b, std_dev_of(a)));
        lemma_std_dev_is(b, std_dev_of(a));
        lemma_ascending_is_total();
        a.lemma_sort_by_ensures(ascending());
        lemma_ranked_unique(b, ranked(a));
    }
}

/// No samples reduce to zeros, with no collection count.
pub proof fn lemma_no_samples()
    ensures
        stats_of(Seq::<u64>::empty()) == (BenchmarkStats {
            mean_ns: 0,
            std_dev: 0,
            lower_q: 0,
            upper_q: 0,
            samples: 0,
            gc_count: None,
        }),
{
}

/// The lower quartile is at most the upper quartile.
pub proof fn lemma_quartiles_ordered(s: Seq<u64>)
    ensures
        quartile_of(s, 1) <= quartile_of(s, 3),
        stats_of(s).lower_q <= stats_of(s).upper_q,
{
    if s.len() > 0 {
        lemma_ascending_is_total();
        s.lemma_sort_by_ensures(ascending());
        let r = ranked(s);
        s.to_multiset_ensures();
        r.to_multiset_ensures();
        let low = (s.len() * 1) / 4;
        let high = (s.len() * 3) / 4;
        assert(r.len() == s.len());
        if low < high {
            assert((ascending())(r[low as int], r[high as int]));
        }
    }
}

} // verus!
