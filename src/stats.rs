use vstd::prelude::*;
use vstd::arithmetic::div_mod::{lemma_div_is_ordered, lemma_div_by_multiple};
use vstd::arithmetic::mul::lemma_mul_inequality;
use crate::sample::{Sample, subsec_millis};

verus! {

// ----- Mathematical model -----

/// The latency figures that the statistics work on, one per sample, in order.
pub open spec fn latencies(s: Seq<Sample>) -> Seq<u32> {
    s.map_values(|x: Sample| subsec_millis(x))
}

/// Sum of a sequence of values.
pub open spec fn sum(s: Seq<u32>) -> int
    decreases s.len(),
{
    if s.len() == 0 {
        0
    } else {
        sum(s.drop_last()) + s.last() as int
    }
}

/// Truncating average of a non-empty sequence.
pub open spec fn mean(s: Seq<u32>) -> int {
    sum(s) / (s.len() as int)
}

pub open spec fn abs_diff(a: int, b: int) -> int {
    if a >= b {
        a - b
    } else {
        b - a
    }
}

/// Sum of the distances of each value to `m`.
pub open spec fn total_deviation(s: Seq<u32>, m: int) -> int
    decreases s.len(),
{
    if s.len() == 0 {
        0
    } else {
        total_deviation(s.drop_last(), m) + abs_diff(s.last() as int, m)
    }
}

/// Truncating mean absolute deviation from the truncating mean.
pub open spec fn mean_abs_deviation(s: Seq<u32>) -> int {
    total_deviation(s, mean(s)) / (s.len() as int)
}

pub open spec fn is_max(s: Seq<u32>, r: u32) -> bool {
    &&& exists|i: int| 0 <= i < s.len() && s[i] == r
    &&& forall|i: int| 0 <= i < s.len() ==> s[i] <= r
}

pub open spec fn is_min(s: Seq<u32>, r: u32) -> bool {
    &&& exists|i: int| 0 <= i < s.len() && s[i] == r
    &&& forall|i: int| 0 <= i < s.len() ==> r <= s[i]
}

/// Number of samples whose invocation failed.
pub open spec fn count_errors(s: Seq<Sample>) -> nat
    decreases s.len(),
{
    if s.len() == 0 {
        0
    } else {
        count_errors(s.drop_last()) + if s.last().exit_status != 0 {
            1nat
        } else {
            0nat
        }
    }
}

/// How many values of `s` lie strictly below `v`.
pub open spec fn count_below(s: Seq<u32>, v: int) -> nat
    decreases s.len(),
{
    if s.len() == 0 {
        0
    } else {
        count_below(s.drop_last(), v) + if (s.last() as int) < v {
            1nat
        } else {
            0nat
        }
    }
}

/// How many values of `s` equal `v`.
pub open spec fn count_equal(s: Seq<u32>, v: int) -> nat
    decreases s.len(),
{
    if s.len() == 0 {
        0
    } else {
        count_equal(s.drop_last(), v) + if s.last() as int == v {
            1nat
        } else {
            0nat
        }
    }
}

/// `r` is the value at zero-based position `k` of `s` sorted ascending: fewer
/// than `k + 1` values lie below it, and more than `k` lie at or below it.
pub open spec fn is_order_stat(s: Seq<u32>, k: int, r: u32) -> bool {
    count_below(s, r as int) <= k < count_below(s, r as int + 1)
}

/// Zero-based position of the lower quartile among `n` sorted values.
pub open spec fn lower_quartile_index(n: int) -> int {
    n / 4
}

/// Zero-based position of the upper quartile among `n` sorted values.
pub open spec fn upper_quartile_index(n: int) -> int {
    (3 * n) / 4
}

/// The status tags of the samples, in order.
pub open spec fn tags(s: Seq<Sample>) -> Seq<Seq<char>> {
    s.map_values(|x: Sample| x.status_code@)
}

/// Position of the last entry among the first `n` of `h` whose tag is `k`, or
/// `-1` when there is none.
pub open spec fn entry_index(h: Seq<(Seq<char>, nat)>, k: Seq<char>, n: int) -> int
    decreases n,
{
    if n <= 0 {
        -1
    } else if h[n - 1].0 == k {
        n - 1
    } else {
        entry_index(h, k, n - 1)
    }
}

/// The histogram of `t`: one entry per distinct tag, in order of first
/// appearance, holding how many times that tag occurs.
pub open spec fn histogram_of(t: Seq<Seq<char>>) -> Seq<(Seq<char>, nat)>
    decreases t.len(),
{
    if t.len() == 0 {
        Seq::empty()
    } else {
        let h = histogram_of(t.drop_last());
        let j = entry_index(h, t.last(), h.len() as int);
        if j >= 0 {
            h.update(j, (t.last(), h[j].1 + 1))
        } else {
            h.push((t.last(), 1nat))
        }
    }
}

/// How many times the tag `k` occurs in `t`.
pub open spec fn count_tag(t: Seq<Seq<char>>, k: Seq<char>) -> nat
    decreases t.len(),
{
    if t.len() == 0 {
        0
    } else {
        count_tag(t.drop_last(), k) + if t.last() == k {
            1nat
        } else {
            0nat
        }
    }
}

/// Sum of the counts of a histogram.
pub open spec fn total_count(h: Seq<(Seq<char>, nat)>) -> nat
    decreases h.len(),
{
    if h.len() == 0 {
        0
    } else {
        total_count(h.drop_last()) + h.last().1
    }
}

/// A histogram held as a vector of (tag, count) pairs, seen as plain values.
pub open spec fn histogram_view(v: Seq<(String, usize)>) -> Seq<(Seq<char>, nat)> {
    v.map_values(|e: (String, usize)| (e.0@, e.1 as nat))
}

// ----- Lemmas -----

proof fn lemma_sum_bounds(s: Seq<u32>, lo: int, hi: int)
    requires
        forall|i: int| 0 <= i < s.len() ==> lo <= #[trigger] s[i] <= hi,
    ensures
        s.len() * lo <= sum(s) <= s.len() * hi,
    decreases s.len(),
{
    if s.len() > 0 {
        lemma_sum_bounds(s.drop_last(), lo, hi);
        assert(s.len() * lo == (s.len() - 1) * lo + lo) by (nonlinear_arith);
        assert(s.len() * hi == (s.len() - 1) * hi + hi) by (nonlinear_arith);
    }
}

proof fn lemma_mean_between(s: Seq<u32>, lo: int, hi: int)
    requires
        s.len() > 0,
        0 <= lo,
        forall|i: int| 0 <= i < s.len() ==> lo <= #[trigger] s[i] <= hi,
    ensures
        lo <= mean(s) <= hi,
{
    let n = s.len() as int;
    lemma_sum_bounds(s, lo, hi);
    assert(n * lo == lo * n) by (nonlinear_arith);
    assert(n * hi == hi * n) by (nonlinear_arith);
    lemma_div_is_ordered(lo * n, sum(s), n);
    lemma_div_is_ordered(sum(s), hi * n, n);
    lemma_div_by_multiple(lo, n);
    lemma_div_by_multiple(hi, n);
}

proof fn lemma_total_deviation_bounds(s: Seq<u32>, m: int, hi: int)
    requires
        forall|i: int| 0 <= i < s.len() ==> abs_diff(#[trigger] s[i] as int, m) <= hi,
    ensures
        0 <= total_deviation(s, m) <= s.len() * hi,
    decreases s.len(),
{
    if s.len() > 0 {
        lemma_total_deviation_bounds(s.drop_last(), m, hi);
        assert(s.len() * hi == (s.len() - 1) * hi + hi) by (nonlinear_arith);
    }
}

proof fn lemma_count_split(s: Seq<u32>, v: int)
    ensures
        count_below(s, v + 1) == count_below(s, v) + count_equal(s, v),
    decreases s.len(),
{
    if s.len() > 0 {
        lemma_count_split(s.drop_last(), v);
    }
}

proof fn lemma_count_below_le_len(s: Seq<u32>, v: int)
    ensures
        count_below(s, v) <= s.len(),
    decreases s.len(),
{
    if s.len() > 0 {
        lemma_count_below_le_len(s.drop_last(), v);
    }
}

proof fn lemma_count_below_zero(s: Seq<u32>)
    ensures
        count_below(s, 0) == 0,
    decreases s.len(),
{
    if s.len() > 0 {
        lemma_count_below_zero(s.drop_last());
    }
}

proof fn lemma_count_below_all(s: Seq<u32>, b: int)
    requires
        forall|i: int| 0 <= i < s.len() ==> (#[trigger] s[i] as int) < b,
    ensures
        count_below(s, b) == s.len(),
    decreases s.len(),
{
    if s.len() > 0 {
        lemma_count_below_all(s.drop_last(), b);
    }
}

proof fn lemma_count_below_monotone(s: Seq<u32>, a: int, b: int)
    requires
        a <= b,
    ensures
        count_below(s, a) <= count_below(s, b),
    decreases s.len(),
{
    if s.len() > 0 {
        lemma_count_below_monotone(s.drop_last(), a, b);
    }
}

/// Only one value stands at a given position of the sorted sequence.
pub proof fn lemma_order_stat_unique(s: Seq<u32>, k: int, r1: u32, r2: u32)
    requires
        is_order_stat(s, k, r1),
        is_order_stat(s, k, r2),
    ensures
        r1 == r2,
{
    if r1 < r2 {
        lemma_count_below_monotone(s, r1 as int + 1, r2 as int);
    } else if r2 < r1 {
        lemma_count_below_monotone(s, r2 as int + 1, r1 as int);
    }
}

proof fn lemma_entry_index_range(h: Seq<(Seq<char>, nat)>, k: Seq<char>, n: int)
    ensures
        -1 <= entry_index(h, k, n),
        entry_index(h, k, n) >= 0 ==> entry_index(h, k, n) < n,
        n <= 0 ==> entry_index(h, k, n) == -1,
        entry_index(h, k, n) >= 0 ==> h[entry_index(h, k, n)].0 == k,
    decreases n,
{
    if n > 0 {
        lemma_entry_index_range(h, k, n - 1);
    }
}

proof fn lemma_total_count_update(h: Seq<(Seq<char>, nat)>, j: int, k: Seq<char>)
    requires
        0 <= j < h.len(),
    ensures
        total_count(h.update(j, (k, h[j].1 + 1))) == total_count(h) + 1,
    decreases h.len(),
{
    let u = h.update(j, (k, h[j].1 + 1));
    if j == h.len() - 1 {
        assert(u.drop_last() =~= h.drop_last());
    } else {
        lemma_total_count_update(h.drop_last(), j, k);
        assert(u.drop_last() =~= h.drop_last().update(j, (k, h[j].1 + 1)));
    }
}

/// The counts of the status histogram add up to the number of samples.
pub proof fn lemma_histogram_total(t: Seq<Seq<char>>)
    ensures
        total_count(histogram_of(t)) == t.len(),
    decreases t.len(),
{
    if t.len() > 0 {
        let h = histogram_of(t.drop_last());
        lemma_histogram_total(t.drop_last());
        let j = entry_index(h, t.last(), h.len() as int);
        lemma_entry_index_range(h, t.last(), h.len() as int);
        if j >= 0 {
            lemma_total_count_update(h, j, t.last());
        } else {
            assert(h.push((t.last(), 1nat)).drop_last() =~= h);
        }
    }
}

proof fn lemma_total_deviation_zero(s: Seq<u32>, m: int)
    ensures
        total_deviation(s, m) >= 0,
        total_deviation(s, m) == 0 <==> forall|i: int| 0 <= i < s.len() ==> #[trigger] s[i] == m,
    decreases s.len(),
{
    if s.len() > 0 {
        lemma_total_deviation_zero(s.drop_last(), m);
        if total_deviation(s, m) == 0 {
            assert forall|i: int| 0 <= i < s.len() implies #[trigger] s[i] == m by {
                if i < s.len() - 1 {
                    assert(s.drop_last()[i] == s[i]);
                }
            }
        }
        if forall|i: int| 0 <= i < s.len() ==> #[trigger] s[i] == m {
            assert forall|i: int| 0 <= i < s.drop_last().len() implies #[trigger] s.drop_last()[i] == m by {
                assert(s[i] == m);
            }
            assert(s[s.len() - 1] == m);
        }
    }
}

/// The truncating mean lies between the smallest and the largest latency.
pub proof fn lemma_mean_within_extrema(s: Seq<u32>, lo: u32, hi: u32)
    requires
        s.len() > 0,
        is_min(s, lo),
        is_max(s, hi),
    ensures
        lo <= mean(s) <= hi,
{
    lemma_mean_between(s, lo as int, hi as int);
}

/// When every latency is the same value, the mean is that value and the mean
/// absolute deviation is zero.
pub proof fn lemma_equal_values_no_deviation(s: Seq<u32>)
    requires
        s.len() > 0,
        forall|i: int| 0 <= i < s.len() ==> #[trigger] s[i] == s[0],
    ensures
        mean(s) == s[0],
        mean_abs_deviation(s) == 0,
{
    lemma_mean_between(s, s[0] as int, s[0] as int);
    lemma_total_deviation_zero(s, s[0] as int);
    assert(0int / (s.len() as int) == 0);
}

/// The mean absolute deviation is never negative, and it is zero exactly when
/// all latencies are equal. The truncating division hides a spread whose
/// total deviation is positive but below the number of values (`[0, 1]` has a
/// mean absolute deviation of zero), so such inputs are left out.
pub proof fn lemma_deviation_zero_iff_equal(s: Seq<u32>)
    requires
        s.len() > 0,
        total_deviation(s, mean(s)) == 0 || total_deviation(s, mean(s)) >= s.len(),
    ensures
        mean_abs_deviation(s) >= 0,
        mean_abs_deviation(s) == 0 <==> forall|i: int| 0 <= i < s.len() ==> #[trigger] s[i] == s[0],
{
    let n = s.len() as int;
    let m = mean(s);
    lemma_total_deviation_zero(s, m);
    if forall|i: int| 0 <= i < s.len() ==> #[trigger] s[i] == s[0] {
        lemma_equal_values_no_deviation(s);
    } else {
        if total_deviation(s, m) == 0 {
            assert forall|i: int| 0 <= i < s.len() implies #[trigger] s[i] == s[0] by {
                assert(s[i] == m);
                assert(s[0] == m);
            }
        }
        lemma_div_is_ordered(n, total_deviation(s, m), n);
        assert(n / n == 1) by (nonlinear_arith)
            requires n > 0;
    }
    lemma_div_is_ordered(0, total_deviation(s, m), n);
}

/// The error count reads the exit statuses alone: two runs whose samples
/// carry the same exit statuses, in the same order, have the same error count
/// whatever their status tags.
pub proof fn lemma_error_count_ignores_status(a: Seq<Sample>, b: Seq<Sample>)
    requires
        a.len() == b.len(),
        forall|i: int| 0 <= i < a.len() ==> (#[trigger] a[i]).exit_status == b[i].exit_status,
    ensures
        count_errors(a) == count_errors(b),
    decreases a.len(),
{
    if a.len() > 0 {
        assert(a[a.len() - 1].exit_status == b[b.len() - 1].exit_status);
        lemma_error_count_ignores_status(a.drop_last(), b.drop_last());
    }
}

proof fn lemma_entry_index_none(h: Seq<(Seq<char>, nat)>, k: Seq<char>, n: int)
    requires
        entry_index(h, k, n) == -1,
    ensures
        forall|j: int| 0 <= j < n ==> (#[trigger] h[j]).0 != k,
    decreases n,
{
    if n > 0 {
        lemma_entry_index_none(h, k, n - 1);
    }
}

/// Each entry of the status histogram holds a distinct tag and the number of
/// samples that carry it, and every tag that occurs has an entry.
pub proof fn lemma_histogram_counts(t: Seq<Seq<char>>)
    ensures
        forall|j: int, l: int|
            0 <= j < l < histogram_of(t).len() ==> (#[trigger] histogram_of(t)[j]).0
                != (#[trigger] histogram_of(t)[l]).0,
        forall|j: int|
            0 <= j < histogram_of(t).len() ==> (#[trigger] histogram_of(t)[j]).1 == count_tag(
                t,
                histogram_of(t)[j].0,
            ),
        forall|k: Seq<char>|
            #[trigger] count_tag(t, k) > 0 ==> exists|j: int|
                0 <= j < histogram_of(t).len() && (#[trigger] histogram_of(t)[j]).0 == k,
    decreases t.len(),
{
    if t.len() > 0 {
        let tp = t.drop_last();
        let x = t.last();
        let hp = histogram_of(tp);
        let h = histogram_of(t);
        lemma_histogram_counts(tp);
        let j0 = entry_index(hp, x, hp.len() as int);
        lemma_entry_index_range(hp, x, hp.len() as int);
        if j0 >= 0 {
            assert(h == hp.update(j0, (x, hp[j0].1 + 1)));
            assert forall|j: int| 0 <= j < h.len() implies (#[trigger] h[j]).1 == count_tag(t, h[j].0) by {
                if j != j0 {
                    assert(hp[j].0 != hp[j0].0 || j == j0);
                }
            }
            assert forall|k: Seq<char>| #[trigger] count_tag(t, k) > 0 implies exists|j: int|
                0 <= j < h.len() && (#[trigger] h[j]).0 == k by {
                if k == x {
                    assert(h[j0].0 == k);
                } else {
                    assert(count_tag(tp, k) > 0);
                    let j = choose|j: int| 0 <= j < hp.len() && (#[trigger] hp[j]).0 == k;
                    assert(h[j].0 == k);
                }
            }
            assert forall|j: int, l: int| 0 <= j < l < h.len() implies (#[trigger] h[j]).0 != (#[trigger] h[l]).0 by {
                assert(hp[j].0 != hp[l].0);
            }
        } else {
            assert(h == hp.push((x, 1nat)));
            lemma_entry_index_none(hp, x, hp.len() as int);
            if count_tag(tp, x) > 0 {
                let j = choose|j: int| 0 <= j < hp.len() && (#[trigger] hp[j]).0 == x;
                assert(hp[j].0 != x);
            }
            assert forall|j: int| 0 <= j < h.len() implies (#[trigger] h[j]).1 == count_tag(t, h[j].0) by {
                if j < hp.len() {
                    assert(hp[j].0 != x);
                }
            }
            assert forall|k: Seq<char>| #[trigger] count_tag(t, k) > 0 implies exists|j: int|
                0 <= j < h.len() && (#[trigger] h[j]).0 == k by {
                if k == x {
                    assert(h[hp.len() as int].0 == k);
                } else {
                    assert(count_tag(tp, k) > 0);
                    let j = choose|j: int| 0 <= j < hp.len() && (#[trigger] hp[j]).0 == k;
                    assert(h[j].0 == k);
                }
            }
            assert forall|j: int, l: int| 0 <= j < l < h.len() implies (#[trigger] h[j]).0 != (#[trigger] h[l]).0 by {
                if l < hp.len() {
                    assert(hp[j].0 != hp[l].0);
                } else {
                    assert(hp[j].0 != x);
                }
            }
        }
    }
}

proof fn lemma_take_succ<T>(s: Seq<T>, i: int)
    requires
        0 <= i < s.len(),
    ensures
        s.take(i + 1).drop_last() == s.take(i),
        s.take(i + 1).last() == s[i],
{
    assert(s.take(i + 1).drop_last() =~= s.take(i));
}

// ----- Executable aggregation -----

/// Why no report could be computed.
#[derive(Debug, Clone, Copy, PartialEq, Eq)]
pub enum StatsError {
    /// There were no samples to aggregate.
    NoSamples,
}

/// Number of samples with a non-zero exit status.
pub fn error_count(samples: &[Sample]) -> (r: usize)
    ensures
        r == count_errors(samples@),
{
    let mut n: usize = 0;
    let mut i: usize = 0;
    while i < samples.len()
        invariant
            i <= samples@.len(),
            n == count_errors(samples@.take(i as int)),
            n <= i,
        decreases samples@.len() - i,
    {
        proof {
            lemma_take_succ(samples@, i as int);
        }
        if samples[i].exit_status != 0 {
            n = n + 1;
        }
        i = i + 1;
    }
    assert(samples@.take(i as int) =~= samples@);
    n
}

/// The latency figure of each sample, in order.
pub fn latency_values(samples: &[Sample]) -> (r: Vec<u32>)
    ensures
        r@ == latencies(samples@),
        forall|i: int| 0 <= i < r@.len() ==> r@[i] < 1000,
{
    let mut r: Vec<u32> = Vec::new();
    let mut i: usize = 0;
    while i < samples.len()
        invariant
            i <= samples@.len(),
            r@ == latencies(samples@.take(i as int)),
            forall|j: int| 0 <= j < r@.len() ==> r@[j] < 1000,
        decreases samples@.len() - i,
    {
        let v = samples[i].subsec_millis();
        r.push(v);
        i = i + 1;
        assert(latencies(samples@.take(i as int)) =~= r@);
    }
    assert(samples@.take(i as int) =~= samples@);
    r
}

/// The value at zero-based position `k` once `values` is sorted ascending.
/// Every value must be a millisecond figure below one second.
pub fn order_statistic(values: &Vec<u32>, k: usize) -> (r: u32)
    requires
        k < values@.len(),
        forall|i: int| 0 <= i < values@.len() ==> values@[i] < 1000,
    ensures
        is_order_stat(values@, k as int, r),
        r < 1000,
{
    let ghost s = values@;
    let mut counts: Vec<usize> = Vec::new();
    let mut v: usize = 0;
    while v < 1000
        invariant
            v <= 1000,
            counts@.len() == v,
            forall|j: int| 0 <= j < v ==> counts@[j] == 0,
        decreases 1000 - v,
    {
        counts.push(0);
        v = v + 1;
    }
    let mut i: usize = 0;
    while i < values.len()
        invariant
            s == values@,
            i <= s.len(),
            counts@.len() == 1000,
            forall|j: int| 0 <= j < 1000 ==> #[trigger] counts@[j] == count_equal(s.take(i as int), j),
            forall|j: int| 0 <= j < 1000 ==> #[trigger] counts@[j] <= i,
            forall|j: int| 0 <= j < s.len() ==> s[j] < 1000,
        decreases s.len() - i,
    {
        proof {
            lemma_take_succ(s, i as int);
        }
        let x = values[i] as usize;
        let c = counts[x];
        counts[x] = c + 1;
        i = i + 1;
    }
    assert(s.take(i as int) =~= s);
    let mut below: usize = 0;
    let mut v: usize = 0;
    proof {
        lemma_count_below_zero(s);
    }
    while v < 1000
        invariant
            s == values@,
            v <= 1000,
            k < s.len(),
            counts@.len() == 1000,
            forall|j: int| 0 <= j < 1000 ==> #[trigger] counts@[j] == count_equal(s, j),
            below == count_below(s, v as int),
            below <= k,
        decreases 1000 - v,
    {
        proof {
            lemma_count_split(s, v as int);
            lemma_count_below_le_len(s, v as int + 1);
            assert(counts@[v as int] == count_equal(s, v as int));
            assert(s.len() == values.len());
        }
        let next = below + counts[v];
        if next > k {
            return v as u32;
        }
        below = next;
        v = v + 1;
    }
    proof {
        lemma_count_below_all(s, 1000);
    }
    0
}

/// Zero-based positions of the lower and upper quartile among `n` sorted
/// values: `n / 4` and `3 * n / 4`, truncated.
pub fn quartile_indices(n: usize) -> (r: (usize, usize))
    ensures
        r.0 == lower_quartile_index(n as int),
        r.1 == upper_quartile_index(n as int),
        n > 0 ==> r.1 < n,
{
    let q = n / 4;
    let m = n % 4;
    let upper = q * 3 + (m * 3) / 4;
    proof {
        let ni = n as int;
        assert(ni == 4 * q + m);
        assert(3 * ni == 4 * (3 * q) + 3 * m) by (nonlinear_arith)
            requires ni == 4 * q + m;
        assert((4 * (3 * q as int) + 3 * m as int) / 4 == 3 * q + (3 * m as int) / 4) by (nonlinear_arith)
            requires 0 <= m < 4, q >= 0;
    }
    (q, upper)
}

/// How many samples carry each status tag: one entry per distinct tag, in
/// order of first appearance.
pub fn status_histogram(samples: &[Sample]) -> (r: Vec<(String, usize)>)
    ensures
        histogram_view(r@) == histogram_of(tags(samples@)),
        forall|j: int|
            0 <= j < r@.len() ==> (#[trigger] r@[j]).1 == count_tag(tags(samples@), r@[j].0@),
        forall|j: int, l: int| 0 <= j < l < r@.len() ==> (#[trigger] r@[j]).0@ != (#[trigger] r@[l]).0@,
{
    let ghost s = samples@;
    let mut h: Vec<(String, usize)> = Vec::new();
    let mut i: usize = 0;
    while i < samples.len()
        invariant
            s == samples@,
            i <= s.len(),
            histogram_view(h@) == histogram_of(tags(s.take(i as int))),
            forall|e: int| 0 <= e < h@.len() ==> #[trigger] h@[e].1 <= i,
        decreases s.len() - i,
    {
        let ghost hv = histogram_view(h@);
        let ghost t = s[i as int].status_code@;
        proof {
            lemma_take_succ(s, i as int);
            assert(tags(s.take(i as int + 1)).drop_last() =~= tags(s.take(i as int)));
            assert(tags(s.take(i as int + 1)).last() == t);
        }
        let mut j: usize = h.len();
        while j > 0 && !(h[j - 1].0 == samples[i].status_code)
            invariant
                hv == histogram_view(h@),
                t == samples@[i as int].status_code@,
                i < samples@.len(),
                j <= h@.len(),
                entry_index(hv, t, hv.len() as int) == entry_index(hv, t, j as int),
            decreases j,
        {
            j = j - 1;
        }
        if j > 0 {
            let c = h[j - 1].1;
            let key = h[j - 1].0.clone();
            h[j - 1] = (key, c + 1);
            proof {
                assert(histogram_view(h@) =~= hv.update(j - 1, (t, hv[j - 1].1 + 1)));
            }
        } else {
            proof {
                lemma_entry_index_range(hv, t, 0);
            }
            h.push((samples[i].status_code.clone(), 1));
            proof {
                assert(histogram_view(h@) =~= hv.push((t, 1nat)));
            }
        }
        i = i + 1;
    }
    assert(s.take(i as int) =~= s);
    proof {
        lemma_histogram_counts(tags(s));
        assert forall|j: int| 0 <= j < h@.len() implies (#[trigger] h@[j]).1 == count_tag(tags(s), h@[j].0@) by {
            assert(histogram_view(h@)[j] == (h@[j].0@, h@[j].1 as nat));
        }
        assert forall|j: int, l: int| 0 <= j < l < h@.len() implies (#[trigger] h@[j]).0@ != (#[trigger] h@[l]).0@ by {
            assert(histogram_view(h@)[j].0 == h@[j].0@);
            assert(histogram_view(h@)[l].0 == h@[l].0@);
        }
    }
    h
}

/// The largest value.
pub fn max_latency(values: &Vec<u32>) -> (r: u32)
    requires
        values@.len() > 0,
    ensures
        is_max(values@, r),
{
    let mut best = values[0];
    let mut i: usize = 1;
    while i < values.len()
        invariant
            1 <= i <= values@.len(),
            exists|j: int| 0 <= j < i && values@[j] == best,
            forall|j: int| 0 <= j < i ==> values@[j] <= best,
        decreases values@.len() - i,
    {
        if values[i] > best {
            best = values[i];
        }
        i = i + 1;
    }
    best
}

/// The smallest value.
pub fn min_latency(values: &Vec<u32>) -> (r: u32)
    requires
        values@.len() > 0,
    ensures
        is_min(values@, r),
{
    let mut best = values[0];
    let mut i: usize = 1;
    while i < values.len()
        invariant
            1 <= i <= values@.len(),
            exists|j: int| 0 <= j < i && values@[j] == best,
            forall|j: int| 0 <= j < i ==> best <= values@[j],
        decreases values@.len() - i,
    {
        if values[i] < best {
            best = values[i];
        }
        i = i + 1;
    }
    best
}

/// Truncating average of millisecond figures below one second.
pub fn mean_latency(values: &Vec<u32>) -> (r: u32)
    requires
        values@.len() > 0,
        forall|i: int| 0 <= i < values@.len() ==> values@[i] < 1000,
    ensures
        r == mean(values@),
        r < 1000,
{
    let ghost s = values@;
    let mut total: u128 = 0;
    let mut i: usize = 0;
    while i < values.len()
        invariant
            s == values@,
            i <= s.len(),
            total == sum(s.take(i as int)),
            total <= 999 * i,
            forall|j: int| 0 <= j < s.len() ==> s[j] < 1000,
        decreases s.len() - i,
    {
        proof {
            lemma_take_succ(s, i as int);
        }
        total = total + values[i] as u128;
        i = i + 1;
    }
    assert(s.take(i as int) =~= s);
    proof {
        lemma_mean_between(s, 0, 999);
    }
    (total / (values.len() as u128)) as u32
}

/// Truncating average distance of each value to `m`.
pub fn mean_absolute_deviation(values: &Vec<u32>, m: u32) -> (r: u32)
    requires
        values@.len() > 0,
        m < 1000,
        forall|i: int| 0 <= i < values@.len() ==> values@[i] < 1000,
    ensures
        r == total_deviation(values@, m as int) / (values@.len() as int),
        r < 1000,
{
    let ghost s = values@;
    let mut total: u128 = 0;
    let mut i: usize = 0;
    while i < values.len()
        invariant
            s == values@,
            i <= s.len(),
            m < 1000,
            total == total_deviation(s.take(i as int), m as int),
            total <= 999 * i,
            forall|j: int| 0 <= j < s.len() ==> s[j] < 1000,
        decreases s.len() - i,
    {
        proof {
            lemma_take_succ(s, i as int);
        }
        let x = values[i];
        let d = if x >= m {
            x - m
        } else {
            m - x
        };
        total = total + d as u128;
        i = i + 1;
    }
    assert(s.take(i as int) =~= s);
    let n = values.len() as u128;
    proof {
        assert forall|j: int| 0 <= j < s.len() implies abs_diff(#[trigger] s[j] as int, m as int) <= 999 by {}
        lemma_total_deviation_bounds(s, m as int, 999);
        assert(s.len() * 999 == 999 * s.len()) by (nonlinear_arith);
        lemma_div_is_ordered(total as int, 999 * (n as int), n as int);
        lemma_div_by_multiple(999, n as int);
        assert(999 * (n as int) == 999 * n) by (nonlinear_arith);
    }
    (total / n) as u32
}

/// The statistics report of one run.
#[derive(Debug, Clone)]
pub struct Metrics {
    /// Truncating mean of the latency figures.
    pub mean_time: u32,
    /// Largest latency figure.
    pub max_time: u32,
    /// Smallest latency figure.
    pub min_time: u32,
    /// Truncating mean absolute deviation of the latency figures from
    /// `mean_time`.
    pub variance_time: u32,
    /// Latency figure at position `n / 4` of the sorted figures.
    pub quartile_25: u32,
    /// Latency figure at position `3 * n / 4` of the sorted figures.
    pub quartile_75: u32,
    /// How many samples carry each status tag, in order of first appearance.
    pub status_count: Vec<(String, usize)>,
    /// How many samples have a non-zero exit status.
    pub error_count: usize,
}

/// What a report computed from `s` holds.
pub open spec fn is_report_of(m: Metrics, s: Seq<Sample>) -> bool {
    let l = latencies(s);
    let n = s.len() as int;
    &&& m.mean_time == mean(l)
    &&& is_max(l, m.max_time)
    &&& is_min(l, m.min_time)
    &&& m.variance_time == mean_abs_deviation(l)
    &&& is_order_stat(l, lower_quartile_index(n), m.quartile_25)
    &&& is_order_stat(l, upper_quartile_index(n), m.quartile_75)
    &&& histogram_view(m.status_count@) == histogram_of(tags(s))
    &&& m.error_count == count_errors(s)
}

/// Reduces the samples of a run into its report. The latency figures are the
/// millisecond parts below one second of each sample's latency. There is no
/// report of no samples.
pub fn statistics(samples: &[Sample]) -> (r: Result<Metrics, StatsError>)
    ensures
        samples@.len() == 0 <==> r == Err::<Metrics, StatsError>(StatsError::NoSamples),
        r is Ok ==> is_report_of(r->Ok_0, samples@),
        r is Ok ==> r->Ok_0.min_time <= r->Ok_0.mean_time <= r->Ok_0.max_time,
        r is Ok ==> total_count(histogram_view(r->Ok_0.status_count@)) == samples@.len(),
{
    if samples.len() == 0 {
        return Err(StatsError::NoSamples);
    }
    let values = latency_values(samples);
    let mean_time = mean_latency(&values);
    let max_time = max_latency(&values);
    let min_time = min_latency(&values);
    let variance_time = mean_absolute_deviation(&values, mean_time);
    let (lower, upper) = quartile_indices(values.len());
    let quartile_25 = order_statistic(&values, lower);
    let quartile_75 = order_statistic(&values, upper);
    let status_count = status_histogram(samples);
    let errors = error_count(samples);
    proof {
        lemma_mean_within_extrema(values@, min_time, max_time);
        lemma_histogram_total(tags(samples@));
    }
    Ok(Metrics {
        mean_time,
        max_time,
        min_time,
        variance_time,
        quartile_25,
        quartile_75,
        status_count,
        error_count: errors,
    })
}

} // verus!
