//! Aggregated statistics of a run: counters, latency summary and quantiles.
//!
//! Durations are nanoseconds.

use vstd::prelude::*;
use vstd::relations::{sorted_by, total_ordering};

verus! {

broadcast use vstd::seq_lib::group_to_multiset_ensures;

/// The order in which durations are sorted.
pub open spec fn duration_le() -> spec_fn(u64, u64) -> bool {
    |a: u64, b: u64| a <= b
}

/// The durations in ascending order.
pub open spec fn sorted_durations(s: Seq<u64>) -> Seq<u64> {
    s.sort_by(duration_le())
}

/// Sum of all durations.
pub open spec fn seq_sum(s: Seq<u64>) -> nat
    decreases s.len(),
{
    if s.len() == 0 {
        0
    } else {
        (seq_sum(s.drop_last()) + s.last()) as nat
    }
}

/// `m` is the smallest of the durations, or zero when there is none.
pub open spec fn is_least(s: Seq<u64>, m: u64) -> bool {
    if s.len() == 0 {
        m == 0
    } else {
        s.contains(m) && forall|i: int| 0 <= i < s.len() ==> m <= #[trigger] s[i]
    }
}

/// `m` is the largest of the durations, or zero when there is none.
pub open spec fn is_greatest(s: Seq<u64>, m: u64) -> bool {
    if s.len() == 0 {
        m == 0
    } else {
        s.contains(m) && forall|i: int| 0 <= i < s.len() ==> #[trigger] s[i] <= m
    }
}

/// Removing one element takes exactly that element off the sum.
pub proof fn lemma_sum_remove(s: Seq<u64>, i: int)
    requires
        0 <= i < s.len(),
    ensures
        seq_sum(s) == seq_sum(s.remove(i)) + s[i],
    decreases s.len(),
{
    if i < s.len() - 1 {
        lemma_sum_remove(s.drop_last(), i);
        assert(s.remove(i).drop_last() =~= s.drop_last().remove(i));
        assert(s.remove(i).last() == s.last());
    } else {
        assert(s.remove(i) =~= s.drop_last());
    }
}

/// Reordering durations does not change their sum.
pub proof fn lemma_sum_permutation(a: Seq<u64>, b: Seq<u64>)
    requires
        a.to_multiset() == b.to_multiset(),
    ensures
        seq_sum(a) == seq_sum(b),
    decreases a.len(),
{
    if a.len() == 0 {
        assert(b.to_multiset().len() == 0);
    } else {
        let x = a.last();
        assert(a =~= a.drop_last().push(x));
        assert(a[a.len() - 1] == x);
        vstd::seq_lib::to_multiset_contains(a, x);
        vstd::seq_lib::to_multiset_contains(b, x);
        assert(b.contains(x));
        let i = choose|i: int| 0 <= i < b.len() && b[i] == x;
        vstd::seq_lib::to_multiset_remove(b, i);
        assert(a.drop_last().to_multiset() =~= a.to_multiset().remove(x));
        lemma_sum_permutation(a.drop_last(), b.remove(i));
        lemma_sum_remove(b, i);
    }
}

/// Reordering durations keeps their least and greatest elements.
pub proof fn lemma_extremes_permutation(a: Seq<u64>, b: Seq<u64>, lo: u64, hi: u64)
    requires
        a.to_multiset() == b.to_multiset(),
        is_least(a, lo),
        is_greatest(a, hi),
    ensures
        is_least(b, lo),
        is_greatest(b, hi),
{
    vstd::seq_lib::to_multiset_len(a);
    vstd::seq_lib::to_multiset_len(b);
    if b.len() > 0 {
        vstd::seq_lib::to_multiset_contains(a, lo);
        vstd::seq_lib::to_multiset_contains(b, lo);
        vstd::seq_lib::to_multiset_contains(a, hi);
        vstd::seq_lib::to_multiset_contains(b, hi);
        assert forall|i: int| 0 <= i < b.len() implies lo <= #[trigger] b[i] && b[i] <= hi by {
            assert(b.contains(b[i]));
            vstd::seq_lib::to_multiset_contains(b, b[i]);
            vstd::seq_lib::to_multiset_contains(a, b[i]);
            assert(a.contains(b[i]));
            let j = choose|j: int| 0 <= j < a.len() && a[j] == b[i];
            assert(lo <= a[j] && a[j] <= hi);
        }
    }
}

/// Index selected for the `percent`-th quantile of `len` sorted samples:
/// `floor(len * percent / 100)`, clamped to the last index.
pub open spec fn quantile_index(len: nat, percent: nat) -> nat {
    let i = len * percent / 100;
    if i < len {
        i
    } else {
        (len - 1) as nat
    }
}

/// The `percent`-th quantile of ascending `sorted`; zero when it is empty.
pub open spec fn quantile(sorted: Seq<u64>, percent: nat) -> u64 {
    if sorted.len() == 0 {
        0
    } else {
        sorted[quantile_index(sorted.len(), percent) as int]
    }
}

/// Relies on `slice::sort_unstable`: the slice ends up in ascending order and
/// keeps its elements with their multiplicities.
#[verifier::external_body]
fn sort_durations(v: &mut Vec<u64>)
    ensures
        final(v)@.to_multiset() == old(v)@.to_multiset(),
        sorted_by(final(v)@, duration_le()),
{
    v.sort_unstable();
}

proof fn lemma_duration_le_total()
    ensures
        total_ordering(duration_le()),
{
}

/// Sorts `durations` ascending in place and returns, for each requested
/// percentile, the element at index `floor(len * p / 100)` (clamped to the last
/// index), or zero when there are no durations.
pub fn get_quantiles(durations: &mut Vec<u64>, percents: &[u32]) -> (r: Vec<u64>)
    ensures
        final(durations)@ == sorted_durations(old(durations)@),
        r@.len() == percents@.len(),
        forall|i: int|
            0 <= i < percents@.len() ==> #[trigger] r@[i] == quantile(
                final(durations)@,
                percents@[i] as nat,
            ),
        old(durations)@.len() == 0 ==> forall|i: int| 0 <= i < r@.len() ==> #[trigger] r@[i] == 0,
{
    sort_durations(durations);
    proof {
        lemma_duration_le_total();
        old(durations)@.lemma_sort_by_ensures(duration_le());
        vstd::seq_lib::lemma_sorted_unique(
            durations@,
            sorted_durations(old(durations)@),
            duration_le(),
        );
        assert(durations@.len() == old(durations)@.len()) by {
            assert(durations@.to_multiset().len() == old(durations)@.to_multiset().len());
        }
    }
    let len = durations.len();
    let mut r: Vec<u64> = Vec::new();
    let mut k: usize = 0;
    while k < percents.len()
        invariant
            k <= percents@.len(),
            len == durations@.len(),
            r@.len() == k,
            forall|i: int|
                0 <= i < k ==> #[trigger] r@[i] == quantile(durations@, percents@[i] as nat),
        decreases percents@.len() - k,
    {
        let p = percents[k];
        let v: u64 = if len == 0 {
            0
        } else {
            assert((len as u128) * (p as u128) <= u64::MAX as nat * u32::MAX as nat)
                by (nonlinear_arith)
                requires
                    len <= u64::MAX,
                    p <= u32::MAX,
            ;
            let scaled: u128 = (len as u128) * (p as u128) / 100;
            let index: usize = if scaled < len as u128 {
                scaled as usize
            } else {
                len - 1
            };
            durations[index]
        };
        r.push(v);
        k = k + 1;
    }
    r
}

/// The aggregated results of a run.
pub struct LoadTestResult {
    /// Number of successful requests.
    pub success: u32,
    /// Number of failed requests.
    pub failures: u32,
    /// Number of completed requests (successes and failures).
    pub completed: u32,
    /// Cumulative duration of all successful requests.
    pub total_duration: u128,
    /// Duration of each successful request: in completion order while the
    /// run goes on, in ascending order once it is finished.
    pub durations: Vec<u64>,
    /// Average duration: over completed requests while running, over all
    /// configured requests once finished.
    pub avg: u64,
    /// Shortest successful request.
    pub min: u64,
    /// Longest successful request.
    pub max: u64,
    /// Median of the successful durations.
    pub p50: u64,
    /// 90th percentile of the successful durations.
    pub p90: u64,
    /// 95th percentile of the successful durations.
    pub p95: u64,
    /// Time since the run started, as of the last update.
    pub elapsed: u64,
}

impl LoadTestResult {
    /// Counters agree with the recorded durations.
    pub open spec fn well_formed(&self) -> bool {
        &&& self.completed == self.success + self.failures
        &&& self.durations@.len() == self.success
        &&& self.total_duration == seq_sum(self.durations@)
        &&& is_least(self.durations@, self.min)
        &&& is_greatest(self.durations@, self.max)
    }

    /// An empty result: nothing completed yet.
    pub fn new() -> (r: Self)
        ensures
            r.well_formed(),
            r.completed == 0,
            r.durations@ == Seq::<u64>::empty(),
            r.avg == 0 && r.p50 == 0 && r.p90 == 0 && r.p95 == 0 && r.elapsed == 0,
    {
        LoadTestResult {
            success: 0,
            failures: 0,
            completed: 0,
            total_duration: 0,
            durations: Vec::new(),
            avg: 0,
            min: 0,
            max: 0,
            p50: 0,
            p90: 0,
            p95: 0,
            elapsed: 0,
        }
    }

    /// Folds one completed request into the statistics. A failed request only
    /// counts; a successful one also contributes its duration. The average is
    /// recomputed over the completed requests.
    pub fn record(&mut self, success: bool, duration: u64, elapsed: u64)
        requires
            old(self).well_formed(),
            old(self).completed < u32::MAX,
        ensures
            final(self).well_formed(),
            final(self).completed == old(self).completed + 1,
            final(self).success == old(self).success + if success { 1int } else { 0int },
            final(self).failures == old(self).failures + if success { 0int } else { 1int },
            final(self).durations@ == if success {
                old(self).durations@.push(duration)
            } else {
                old(self).durations@
            },
            final(self).avg == (final(self).total_duration as nat) / (final(self).completed as nat),
            final(self).elapsed == elapsed,
            final(self).p50 == old(self).p50,
            final(self).p90 == old(self).p90,
            final(self).p95 == old(self).p95,
    {
        proof {
            lemma_sum_bound(self.durations@);
        }
        self.completed = self.completed + 1;
        if success {
            let first = self.success == 0;
            self.success = self.success + 1;
            self.total_duration = self.total_duration + duration as u128;
            self.min = if first || duration < self.min {
                duration
            } else {
                self.min
            };
            self.max = if duration > self.max {
                duration
            } else {
                self.max
            };
            let ghost before = self.durations@;
            self.durations.push(duration);
            proof {
                assert(self.durations@.drop_last() =~= before);
                assert(self.durations@[before.len() as int] == duration);
                assert forall|i: int| 0 <= i < self.durations@.len() implies self.min
                    <= #[trigger] self.durations@[i] && self.durations@[i] <= self.max by {
                    if i < before.len() {
                        assert(self.durations@[i] == before[i]);
                    }
                }
                if first {
                    assert(self.durations@.contains(duration));
                } else if duration < old(self).min {
                    assert(self.durations@.contains(duration));
                } else {
                    let k = choose|k: int| 0 <= k < before.len() && before[k] == old(self).min;
                    assert(self.durations@[k] == old(self).min);
                }
                if duration > old(self).max || first {
                    assert(self.durations@.contains(duration));
                } else {
                    let k = choose|k: int| 0 <= k < before.len() && before[k] == old(self).max;
                    assert(self.durations@[k] == old(self).max);
                }
            }
        } else {
            self.failures = self.failures + 1;
        }
        proof {
            lemma_sum_bound(self.durations@);
            lemma_div_fits(self.total_duration as nat, self.success as nat, self.completed as nat);
        }
        self.avg = (self.total_duration / self.completed as u128) as u64;
        self.elapsed = elapsed;
    }

    /// Completes the statistics of a run of `requests` requests: the
    /// percentiles of the successful durations, and the average over all
    /// configured requests.
    pub fn finish(&mut self, requests: u32, elapsed: u64)
        requires
            old(self).well_formed(),
            old(self).completed <= requests,
        ensures
            final(self).well_formed(),
            final(self).success == old(self).success,
            final(self).failures == old(self).failures,
            final(self).completed == old(self).completed,
            final(self).durations@ == sorted_durations(old(self).durations@),
            final(self).total_duration == old(self).total_duration,
            final(self).min == old(self).min,
            final(self).max == old(self).max,
            final(self).p50 == quantile(sorted_durations(old(self).durations@), 50),
            final(self).p90 == quantile(sorted_durations(old(self).durations@), 90),
            final(self).p95 == quantile(sorted_durations(old(self).durations@), 95),
            final(self).avg == if requests > 0 {
                (final(self).total_duration as nat) / (requests as nat)
            } else {
                0
            },
            final(self).elapsed == elapsed,
    {
        let ghost before = self.durations@;
        let q = get_quantiles(&mut self.durations, &[50, 90, 95]);
        proof {
            assert(q@.len() == 3);
            lemma_duration_le_total();
            before.lemma_sort_by_ensures(duration_le());
            lemma_sum_permutation(before, self.durations@);
            lemma_extremes_permutation(before, self.durations@, self.min, self.max);
            assert(self.durations@.len() == before.len()) by {
                assert(self.durations@.to_multiset().len() == before.to_multiset().len());
            }
        }
        self.p50 = q[0];
        self.p90 = q[1];
        self.p95 = q[2];
        if requests > 0 {
            proof {
                lemma_sum_bound(self.durations@);
                lemma_div_fits(self.total_duration as nat, self.success as nat, requests as nat);
            }
            self.avg = (self.total_duration / requests as u128) as u64;
        } else {
            self.avg = 0;
        }
        self.elapsed = elapsed;
    }

    /// Successful requests per second over the elapsed time, in thousandths;
    /// zero before any time has elapsed.
    pub fn rps_millis(&self) -> (r: u128)
        ensures
            r == if self.elapsed == 0 {
                0
            } else {
                (self.success as nat) * 1_000_000_000_000 / (self.elapsed as nat)
            },
    {
        if self.elapsed == 0 {
            0
        } else {
            (self.success as u128) * 1_000_000_000_000 / (self.elapsed as u128)
        }
    }
}

/// The sum of `n` durations is at most `n` times the largest duration value.
pub proof fn lemma_sum_bound(s: Seq<u64>)
    ensures
        seq_sum(s) <= s.len() * (u64::MAX as nat),
    decreases s.len(),
{
    if s.len() > 0 {
        lemma_sum_bound(s.drop_last());
    }
}

proof fn lemma_div_fits(total: nat, count: nat, divisor: nat)
    requires
        total <= count * (u64::MAX as nat),
        count <= divisor,
        divisor > 0,
    ensures
        total / divisor <= u64::MAX,
{
    assert(total <= divisor * (u64::MAX as nat)) by (nonlinear_arith)
        requires
            total <= count * (u64::MAX as nat),
            count <= divisor,
    ;
    assert(total / divisor <= u64::MAX) by (nonlinear_arith)
        requires
            total <= divisor * (u64::MAX as nat),
            divisor > 0,
    ;
}

} // verus!
