//! Summary statistics of latency samples: count, mean, median, 99th
//! percentile and maximum, and their one-line text form.

use vstd::prelude::*;
use vstd::relations::{sorted_by, total_ordering};
use vstd::seq_lib::group_to_multiset_ensures;
use crate::text::{decimal, push_decimal};

verus! {

/// The order in which samples are ranked: ascending.
pub open spec fn ascending() -> spec_fn(u64, u64) -> bool {
    |x: u64, y: u64| x <= y
}

/// The samples in ascending order.
pub open spec fn sorted_samples(data: Seq<u64>) -> Seq<u64> {
    data.sort_by(ascending())
}

/// The exact sum of the samples.
pub open spec fn sample_sum(data: Seq<u64>) -> nat
    decreases data.len(),
{
    if data.len() == 0 {
        0
    } else {
        sample_sum(data.drop_last()) + data.last() as nat
    }
}

/// The position, in the sorted samples, of the 99th percentile.
pub open spec fn p99_rank(n: nat) -> int {
    (n * 99) as int / 100
}

/// Summary of a non-empty series of latencies, in microseconds.
#[derive(Clone, Copy, Debug, PartialEq, Eq)]
pub struct LatencyStats {
    /// Number of samples.
    pub count: u64,
    /// Mean, rounded down.
    pub avg: u64,
    /// Median: the sample of rank `count / 2` in ascending order.
    pub p50: u64,
    /// The sample of rank `count * 99 / 100` in ascending order.
    pub p99: u64,
    /// Largest sample.
    pub max: u64,
}

/// The statistics of a non-empty series, as ranks in its sorted order.
pub open spec fn spec_stats(data: Seq<u64>) -> LatencyStats
    recommends
        data.len() > 0,
{
    let s = sorted_samples(data);
    let n = data.len();
    LatencyStats {
        count: n as u64,
        avg: (sample_sum(data) / n) as u64,
        p50: s[(n / 2) as int],
        p99: s[p99_rank(n)],
        max: s[n - 1],
    }
}

/// `<` on u64 is a total order.
pub proof fn lemma_ascending_total()
    ensures
        total_ordering(ascending()),
{
}

/// Two ascending sequences with the same elements are equal.
pub proof fn lemma_sorted_unique(a: Seq<u64>, b: Seq<u64>)
    requires
        sorted_by(a, ascending()),
        sorted_by(b, ascending()),
        a.to_multiset() == b.to_multiset(),
    ensures
        a == b,
    decreases a.len(),
{
    broadcast use group_to_multiset_ensures;

    assert(a.len() == a.to_multiset().len());
    assert(b.len() == b.to_multiset().len());
    if a.len() > 0 {
        assert(a.to_multiset().count(a[0]) > 0);
        assert(b.contains(a[0]));
        let j = choose|j: int| 0 <= j < b.len() && b[j] == a[0];
        if j > 0 {
            assert((ascending())(b[0], b[j]));
        }
        assert(b.to_multiset().count(b[0]) > 0);
        assert(a.contains(b[0]));
        let i = choose|i: int| 0 <= i < a.len() && a[i] == b[0];
        if i > 0 {
            assert((ascending())(a[0], a[i]));
        }
        assert(a[0] == b[0]);
        let a1 = a.remove(0);
        let b1 = b.remove(0);
        assert(a1.to_multiset() == b1.to_multiset());
        assert forall|x: int, y: int| 0 <= x < y < a1.len() implies #[trigger] (ascending())(
            a1[x],
            a1[y],
        ) by {
            assert((ascending())(a[x + 1], a[y + 1]));
        }
        assert forall|x: int, y: int| 0 <= x < y < b1.len() implies #[trigger] (ascending())(
            b1[x],
            b1[y],
        ) by {
            assert((ascending())(b[x + 1], b[y + 1]));
        }
        lemma_sorted_unique(a1, b1);
        assert(a =~= seq![a[0]] + a1);
        assert(b =~= seq![b[0]] + b1);
    }
}

/// An ascending rearrangement of `data` is `sorted_samples(data)`.
pub proof fn lemma_is_sorted_samples(data: Seq<u64>, s: Seq<u64>)
    requires
        sorted_by(s, ascending()),
        s.to_multiset() == data.to_multiset(),
    ensures
        s == sorted_samples(data),
{
    lemma_ascending_total();
    data.lemma_sort_by_ensures(ascending());
    lemma_sorted_unique(s, sorted_samples(data));
}

/// Removing one sample lowers the sum by exactly that sample.
pub proof fn lemma_sum_remove(s: Seq<u64>, i: int)
    requires
        0 <= i < s.len(),
    ensures
        sample_sum(s) == sample_sum(s.remove(i)) + s[i],
    decreases s.len(),
{
    if i < s.len() - 1 {
        lemma_sum_remove(s.drop_last(), i);
        assert(s.drop_last().remove(i) =~= s.remove(i).drop_last());
        assert(s.remove(i).last() == s.last());
    } else {
        assert(s.remove(i) =~= s.drop_last());
    }
}

/// Two series with the same samples, in whatever order, have the same sum.
pub proof fn lemma_sum_permutation(a: Seq<u64>, b: Seq<u64>)
    requires
        a.to_multiset() == b.to_multiset(),
    ensures
        sample_sum(a) == sample_sum(b),
    decreases a.len(),
{
    broadcast use group_to_multiset_ensures;

    assert(a.len() == a.to_multiset().len());
    assert(b.len() == b.to_multiset().len());
    if a.len() > 0 {
        let x = a.last();
        assert(a.to_multiset().count(x) > 0);
        assert(b.contains(x));
        let j = choose|j: int| 0 <= j < b.len() && b[j] == x;
        assert(a.remove(a.len() - 1) =~= a.drop_last());
        assert(a.drop_last().to_multiset() == b.remove(j).to_multiset());
        lemma_sum_permutation(a.drop_last(), b.remove(j));
        lemma_sum_remove(b, j);
    }
}

/// Samples all within `[lo, hi]` sum to within `[len * lo, len * hi]`.
pub proof fn lemma_sum_bounds(s: Seq<u64>, lo: int, hi: int)
    requires
        forall|i: int| 0 <= i < s.len() ==> lo <= #[trigger] s[i] <= hi,
    ensures
        s.len() * lo <= sample_sum(s) <= s.len() * hi,
    decreases s.len(),
{
    if s.len() > 0 {
        let n = s.len() as int;
        assert forall|i: int| 0 <= i < s.drop_last().len() implies lo <= #[trigger] s.drop_last()[i]
            <= hi by {
            assert(s.drop_last()[i] == s[i]);
        }
        lemma_sum_bounds(s.drop_last(), lo, hi);
        assert((n - 1) * lo + lo == n * lo) by (nonlinear_arith);
        assert((n - 1) * hi + hi == n * hi) by (nonlinear_arith);
    }
}

/// The smallest sample.
pub open spec fn min_sample(data: Seq<u64>) -> u64
    recommends
        data.len() > 0,
{
    sorted_samples(data)[0]
}

/// The summary is made of the samples themselves and is ordered: the
/// median, the 99th percentile and the maximum are samples, in that
/// order; no sample exceeds the maximum, none is below the minimum; and the
/// mean lies between the two.
pub proof fn lemma_stats_ordered(data: Seq<u64>)
    requires
        data.len() > 0,
    ensures
        ({
            let st = spec_stats(data);
            &&& data.contains(st.p50)
            &&& data.contains(st.p99)
            &&& data.contains(st.max)
            &&& data.contains(min_sample(data))
            &&& min_sample(data) <= st.p50 <= st.p99 <= st.max
            &&& forall|i: int| 0 <= i < data.len() ==> min_sample(data) <= #[trigger] data[i] <= st.max
            &&& min_sample(data) <= st.avg <= st.max
        }),
{
    broadcast use group_to_multiset_ensures;

    let s = sorted_samples(data);
    let n = data.len();
    lemma_ascending_total();
    data.lemma_sort_by_ensures(ascending());
    assert(s.len() == s.to_multiset().len());
    assert(n == data.to_multiset().len());
    assert(forall|i: int, j: int| 0 <= i < j < s.len() ==> #[trigger] (ascending())(s[i], s[j]));
    let k50 = (n / 2) as int;
    let k99 = p99_rank(n);
    assert(k50 <= k99 < n);
    if 0 < k50 {
        assert((ascending())(s[0], s[k50]));
    }
    if k50 < k99 {
        assert((ascending())(s[k50], s[k99]));
    }
    if k99 < n - 1 {
        assert((ascending())(s[k99], s[n - 1]));
    }
    assert forall|i: int| 0 <= i < data.len() implies s[0] <= #[trigger] data[i] <= s[n - 1] by {
        assert(data.to_multiset().count(data[i]) > 0);
        assert(s.contains(data[i]));
        let j = choose|j: int| 0 <= j < s.len() && s[j] == data[i];
        if 0 < j {
            assert((ascending())(s[0], s[j]));
        }
        if j < n - 1 {
            assert((ascending())(s[j], s[n - 1]));
        }
    }
    assert forall|x: u64| s.contains(x) implies data.contains(x) by {
        let j = choose|j: int| 0 <= j < s.len() && s[j] == x;
        assert(s.to_multiset().count(x) > 0);
    }
    assert(s.contains(s[k50]));
    assert(s.contains(s[k99]));
    assert(s.contains(s[n - 1]));
    assert(s.contains(s[0]));
    lemma_sum_bounds(data, s[0] as int, s[n - 1] as int);
    let total = sample_sum(data) as int;
    let lo = s[0] as int;
    let hi = s[n - 1] as int;
    let nn = n as int;
    assert(lo <= total / nn <= hi) by (nonlinear_arith)
        requires
            nn * lo <= total <= nn * hi,
            nn > 0,
    ;
}

/// The summary of a series does not depend on the order in which its samples
/// were recorded: two series with the same samples, each as often, have the
/// same summary.
pub proof fn lemma_stats_order_independent(a: Seq<u64>, b: Seq<u64>)
    requires
        a.len() > 0,
        a.to_multiset() == b.to_multiset(),
    ensures
        spec_stats(a) == spec_stats(b),
{
    broadcast use group_to_multiset_ensures;

    assert(a.len() == a.to_multiset().len());
    assert(b.len() == b.to_multiset().len());
    lemma_ascending_total();
    b.lemma_sort_by_ensures(ascending());
    lemma_is_sorted_samples(a, sorted_samples(b));
    lemma_sum_permutation(a, b);
}

/// A single sample is its own count of one, mean, median, 99th percentile
/// and maximum.
pub proof fn lemma_stats_of_one(x: u64)
    ensures
        spec_stats(seq![x]) == (LatencyStats { count: 1, avg: x, p50: x, p99: x, max: x }),
{
    let s = seq![x];
    assert(sorted_by(s, ascending()));
    lemma_is_sorted_samples(s, s);
    assert(s.drop_last() =~= Seq::<u64>::empty());
    assert(sample_sum(s.drop_last()) == 0);
    assert(s.last() == x);
    assert(sample_sum(s) == x);
    assert(p99_rank(1) == 0);
}

/// Sorts the samples in place with `<[u64]>::sort_unstable`, which std
/// documents as sorting the slice in ascending order. The contract claims that
/// the result is ascending and holds the same samples, each as often as before.
#[verifier::external_body]
fn sort_ascending(v: &mut Vec<u64>)
    ensures
        sorted_by(final(v)@, ascending()),
        final(v)@.to_multiset() == old(v)@.to_multiset(),
{
    v.sort_unstable();
}

/// Summary statistics of `data`, or `None` when there are no samples.
pub fn compute_stats(data: &[u64]) -> (r: Option<LatencyStats>)
    ensures
        data@.len() == 0 ==> r is None,
        data@.len() > 0 ==> r == Some(spec_stats(data@)),
{
    let n = data.len();
    if n == 0 {
        return None;
    }
    let mut sorted: Vec<u64> = Vec::new();
    let mut sum: u128 = 0;
    let mut i: usize = 0;
    while i < n
        invariant
            n == data@.len(),
            0 <= i <= n,
            sorted@ == data@.take(i as int),
            sum == sample_sum(data@.take(i as int)),
            sum <= i * 0xffff_ffff_ffff_ffffu128,
        decreases n - i,
    {
        let x = data[i];
        assert(data@.take(i + 1).drop_last() == data@.take(i as int));
        sorted.push(x);
        sum = sum + x as u128;
        i = i + 1;
    }
    assert(data@.take(n as int) == data@);
    sort_ascending(&mut sorted);
    proof {
        broadcast use group_to_multiset_ensures;

        lemma_is_sorted_samples(data@, sorted@);
        assert(sorted@.len() == sorted@.to_multiset().len());
        assert(data@.len() == data@.to_multiset().len());
    }
    let wide_n = n as u128;
    assert(sum / wide_n <= 0xffff_ffff_ffff_ffffu128) by (nonlinear_arith)
        requires
            sum <= wide_n * 0xffff_ffff_ffff_ffffu128,
            wide_n > 0,
    ;
    let avg = (sum / wide_n) as u64;
    let p99_index = (wide_n * 99 / 100) as usize;
    assert(p99_index < n);
    Some(
        LatencyStats {
            count: n as u64,
            avg,
            p50: sorted[n / 2],
            p99: sorted[p99_index],
            max: sorted[n - 1],
        },
    )
}

/// The one-line summary of a series: `<name>: no samples` when it is empty,
/// else `<name>: n=<count> avg=<avg>us p50=<p50>us p99=<p99>us max=<max>us`.
pub open spec fn stats_text(name: Seq<char>, data: Seq<u64>) -> Seq<char> {
    if data.len() == 0 {
        name + ": no samples"@
    } else {
        let st = spec_stats(data);
        name + ": n="@ + decimal(st.count as nat) + " avg="@ + decimal(st.avg as nat) + "us p50="@
            + decimal(st.p50 as nat) + "us p99="@ + decimal(st.p99 as nat) + "us max="@ + decimal(
            st.max as nat,
        ) + "us"@
    }
}

/// Renders the summary of one series of latencies under the label `name`.
pub fn format_stats(name: &str, data: &[u64]) -> (text: String)
    ensures
        text@ == stats_text(name@, data@),
{
    let mut text = String::new();
    text.append(name);
    match compute_stats(data) {
        None => {
            text.append(": no samples");
        },
        Some(st) => {
            text.append(": n=");
            push_decimal(&mut text, st.count);
            text.append(" avg=");
            push_decimal(&mut text, st.avg);
            text.append("us p50=");
            push_decimal(&mut text, st.p50);
            text.append("us p99=");
            push_decimal(&mut text, st.p99);
            text.append("us max=");
            push_decimal(&mut text, st.max);
            text.append("us");
        },
    }
    text
}

} // verus!
