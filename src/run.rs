//! The state of one run: which request to start next under the concurrency
//! bound, and the statistics of the requests that have completed.
//!
//! The caller performs the requests. It asks `next_request` for work until it
//! gets `None`, waits for any in-flight request to finish, reports it through
//! `complete`, and repeats until `is_done`. There is no cancellation: once
//! started, a run goes on until every request has completed.

use vstd::prelude::*;
use crate::stats::{LoadTestResult, quantile, sorted_durations};
use crate::output::{
    get_output_file, join_path, output_file_name, opt_view, lemma_output_files_distinct,
    lemma_failure_file_label,
};
use crate::config::LoadTestRunner;

verus! {

/// Number of successful outcomes.
pub open spec fn count_successes(outcomes: Seq<(bool, u64)>) -> nat
    decreases outcomes.len(),
{
    if outcomes.len() == 0 {
        0
    } else {
        count_successes(outcomes.drop_last()) + if outcomes.last().0 {
            1nat
        } else {
            0nat
        }
    }
}

/// Durations of the successful outcomes, in order.
pub open spec fn success_durations(outcomes: Seq<(bool, u64)>) -> Seq<u64>
    decreases outcomes.len(),
{
    if outcomes.len() == 0 {
        Seq::empty()
    } else if outcomes.last().0 {
        success_durations(outcomes.drop_last()).push(outcomes.last().1)
    } else {
        success_durations(outcomes.drop_last())
    }
}

/// Where the response of a request goes, if responses are kept.
pub open spec fn output_target(
    output_dir: Option<String>,
    num_requests: nat,
    index: nat,
    label: Option<Seq<char>>,
    success: bool,
) -> Option<Seq<char>> {
    match output_dir {
        Some(dir) => Some(
            join_path(dir@, output_file_name(num_requests, index + 1, label, success)),
        ),
        None => None,
    }
}

/// One run of `requests` requests with at most `concurrency` in flight.
pub struct LoadTestRun {
    requests: u32,
    concurrency: u32,
    started: u32,
    output_dir: Option<String>,
    result: LoadTestResult,
    finished: Vec<bool>,
    outcomes: Ghost<Seq<(bool, u64)>>,
    indices: Ghost<Seq<nat>>,
    labels: Ghost<Seq<Option<Seq<char>>>>,
}

impl LoadTestRun {
    /// Total number of requests of the run.
    pub closed spec fn spec_requests(&self) -> nat {
        self.requests as nat
    }

    /// Largest number of requests in flight at once.
    pub closed spec fn spec_concurrency(&self) -> nat {
        self.concurrency as nat
    }

    /// Number of requests started so far; they are the indices below it.
    pub closed spec fn spec_started(&self) -> nat {
        self.started as nat
    }

    /// Directory that responses are written to, if any.
    pub closed spec fn spec_output_dir(&self) -> Option<String> {
        self.output_dir
    }

    /// The statistics so far.
    pub closed spec fn spec_result(&self) -> LoadTestResult {
        self.result
    }

    /// Outcome and duration of each completed request, in completion order.
    pub closed spec fn spec_outcomes(&self) -> Seq<(bool, u64)> {
        self.outcomes@
    }

    /// For each started request, whether it has completed.
    pub closed spec fn spec_finished(&self) -> Seq<bool> {
        self.finished@
    }

    /// Index of each completed request, in completion order.
    pub closed spec fn spec_indices(&self) -> Seq<nat> {
        self.indices@
    }

    /// Source label of each completed request, in completion order.
    pub closed spec fn spec_labels(&self) -> Seq<Option<Seq<char>>> {
        self.labels@
    }

    /// The file each completed request's response went to, if kept.
    pub open spec fn spec_targets(&self) -> Seq<Option<Seq<char>>> {
        Seq::new(
            self.spec_outcomes().len(),
            |k: int|
                output_target(
                    self.spec_output_dir(),
                    self.spec_requests(),
                    self.spec_indices()[k],
                    self.spec_labels()[k],
                    self.spec_outcomes()[k].0,
                ),
        )
    }

    /// Number of requests completed so far.
    pub open spec fn spec_completed(&self) -> nat {
        self.spec_result().completed as nat
    }

    /// Every request has completed.
    pub open spec fn spec_done(&self) -> bool {
        self.spec_completed() == self.spec_requests()
    }

    /// At most `concurrency` requests in flight, none started beyond the
    /// total, and statistics that summarize exactly the completed outcomes.
    pub open spec fn well_formed(&self) -> bool {
        &&& 0 < self.spec_concurrency() <= self.spec_requests() <= u32::MAX
        &&& self.spec_completed() <= self.spec_started() <= self.spec_requests()
        &&& self.spec_started() - self.spec_completed() <= self.spec_concurrency()
        &&& self.spec_result().well_formed()
        &&& self.spec_outcomes().len() == self.spec_completed()
        &&& self.spec_result().success == count_successes(self.spec_outcomes())
        &&& self.spec_result().durations@ == success_durations(self.spec_outcomes())
        &&& self.spec_finished().len() == self.spec_started()
        &&& self.spec_indices().len() == self.spec_outcomes().len()
        &&& self.spec_labels().len() == self.spec_outcomes().len()
        &&& forall|k: int|
            0 <= k < self.spec_indices().len() ==> #[trigger] self.spec_indices()[k]
                < self.spec_started() && self.spec_finished()[self.spec_indices()[k] as int]
        &&& forall|k1: int, k2: int|
            0 <= k1 < k2 < self.spec_indices().len() ==> #[trigger] self.spec_indices()[k1]
                != #[trigger] self.spec_indices()[k2]
    }

    /// A run in which nothing has started yet.
    pub fn new(requests: u32, concurrency: u32, output_dir: Option<String>) -> (r: Self)
        requires
            0 < concurrency <= requests,
        ensures
            r.well_formed(),
            r.spec_requests() == requests,
            r.spec_concurrency() == concurrency,
            r.spec_started() == 0,
            r.spec_outcomes() == Seq::<(bool, u64)>::empty(),
            r.spec_indices() == Seq::<nat>::empty(),
            r.spec_output_dir() == output_dir,
    {
        LoadTestRun {
            requests,
            concurrency,
            started: 0,
            output_dir,
            result: LoadTestResult::new(),
            finished: Vec::new(),
            outcomes: Ghost(Seq::empty()),
            indices: Ghost(Seq::empty()),
            labels: Ghost(Seq::empty()),
        }
    }

    /// Number of requests started so far.
    pub fn started(&self) -> (r: u32)
        ensures
            r == self.spec_started(),
    {
        self.started
    }

    /// Number of requests started and not yet completed.
    pub fn in_flight(&self) -> (r: u32)
        requires
            self.well_formed(),
        ensures
            r == self.spec_started() - self.spec_completed(),
    {
        self.started - self.result.completed
    }

    /// Whether started request `index` has completed.
    pub fn is_completed(&self, index: u64) -> (r: bool)
        requires
            self.well_formed(),
            index < self.spec_started(),
        ensures
            r == self.spec_finished()[index as int],
    {
        self.finished[index as usize]
    }

    /// Every request has completed.
    pub fn is_done(&self) -> (r: bool)
        ensures
            r == self.spec_done(),
    {
        self.result.completed == self.requests
    }

    /// The statistics so far.
    pub fn result(&self) -> (r: &LoadTestResult)
        ensures
            *r == self.spec_result(),
    {
        &self.result
    }

    /// The index of the request to start now: the next one in submission
    /// order, as long as requests remain and fewer than `concurrency` are in
    /// flight. `None` means: wait for a completion (or stop, once done).
    pub fn next_request(&mut self) -> (r: Option<u64>)
        requires
            old(self).well_formed(),
        ensures
            final(self).well_formed(),
            r is Some <==> (old(self).spec_started() < old(self).spec_requests()
                && old(self).spec_started() - old(self).spec_completed()
                < old(self).spec_concurrency()),
            r matches Some(i) ==> i == old(self).spec_started() && final(self).spec_started()
                == old(self).spec_started() + 1,
            r is None ==> final(self).spec_started() == old(self).spec_started(),
            final(self).spec_requests() == old(self).spec_requests(),
            final(self).spec_concurrency() == old(self).spec_concurrency(),
            final(self).spec_output_dir() == old(self).spec_output_dir(),
            final(self).spec_result() == old(self).spec_result(),
            final(self).spec_outcomes() == old(self).spec_outcomes(),
            final(self).spec_indices() == old(self).spec_indices(),
            final(self).spec_labels() == old(self).spec_labels(),
    {
        if self.started < self.requests && self.started - self.result.completed < self.concurrency {
            let i = self.started;
            self.started = self.started + 1;
            self.finished.push(false);
            proof {
                assert forall|k: int| 0 <= k < self.indices@.len() implies #[trigger] self.indices@[k]
                    < self.started && self.finished@[self.indices@[k] as int] by {
                    assert(self.finished@[self.indices@[k] as int] == old(self).finished@[self.indices@[k] as int]);
                }
            }
            Some(i as u64)
        } else {
            None
        }
    }

    /// Records the completion of request `index`, which was started and had
    /// not completed yet, and returns the file its response is to be written
    /// to when responses are kept.
    pub fn complete(
        &mut self,
        index: u64,
        label: Option<String>,
        success: bool,
        duration: u64,
        elapsed: u64,
    ) -> (r: Option<String>)
        requires
            old(self).well_formed(),
            old(self).spec_completed() < old(self).spec_started(),
            index < old(self).spec_started(),
            !old(self).spec_finished()[index as int],
        ensures
            final(self).well_formed(),
            final(self).spec_outcomes() == old(self).spec_outcomes().push((success, duration)),
            final(self).spec_indices() == old(self).spec_indices().push(index as nat),
            final(self).spec_labels() == old(self).spec_labels().push(opt_view(label)),
            final(self).spec_finished()[index as int],
            final(self).spec_started() == old(self).spec_started(),
            final(self).spec_requests() == old(self).spec_requests(),
            final(self).spec_concurrency() == old(self).spec_concurrency(),
            final(self).spec_output_dir() == old(self).spec_output_dir(),
            final(self).spec_result().failures == old(self).spec_result().failures + if success {
                0int
            } else {
                1int
            },
            final(self).spec_result().avg == (final(self).spec_result().total_duration as nat) / (
            final(self).spec_completed()),
            final(self).spec_result().elapsed == elapsed,
            opt_view(r) == output_target(
                old(self).spec_output_dir(),
                old(self).spec_requests(),
                index as nat,
                opt_view(label),
                success,
            ),
    {
        self.result.record(success, duration, elapsed);
        let ghost before = self.outcomes@;
        self.outcomes = Ghost(self.outcomes@.push((success, duration)));
        self.indices = Ghost(self.indices@.push(index as nat));
        self.labels = Ghost(self.labels@.push(opt_view(label)));
        self.finished.set(index as usize, true);
        proof {
            assert(self.outcomes@.drop_last() =~= before);
            let n = old(self).indices@.len();
            assert forall|k: int| 0 <= k < self.indices@.len() implies #[trigger] self.indices@[k]
                < self.started && self.finished@[self.indices@[k] as int] by {
                if k < n {
                    assert(self.indices@[k] == old(self).indices@[k]);
                }
            }
            assert forall|k1: int, k2: int|
                0 <= k1 < k2 < self.indices@.len() implies #[trigger] self.indices@[k1]
                    != #[trigger] self.indices@[k2] by {
                if k2 == n {
                    assert(old(self).finished@[old(self).indices@[k1] as int]);
                } else {
                    assert(old(self).indices@[k1] != old(self).indices@[k2]);
                }
            }
        }
        match &self.output_dir {
            Some(dir) => Some(get_output_file(self.requests, dir.as_str(), index + 1, &label, success)),
            None => None,
        }
    }

    /// Ends a run whose requests have all completed and hands back its final
    /// statistics: the successful durations in ascending order with their
    /// percentiles, and the average over all configured requests.
    pub fn finish(self, elapsed: u64) -> (r: LoadTestResult)
        requires
            self.well_formed(),
            self.spec_done(),
        ensures
            r.well_formed(),
            r.completed == self.spec_requests(),
            r.success == count_successes(self.spec_outcomes()),
            r.durations@ == sorted_durations(success_durations(self.spec_outcomes())),
            r.p50 == quantile(r.durations@, 50),
            r.p90 == quantile(r.durations@, 90),
            r.p95 == quantile(r.durations@, 95),
            (forall|i: int| 0 <= i < self.spec_outcomes().len() ==> #[trigger] self.spec_outcomes()[i].0)
                ==> r.success == self.spec_requests() && r.failures == 0,
            (forall|i: int| 0 <= i < self.spec_outcomes().len() ==> !#[trigger] self.spec_outcomes()[i].0)
                ==> r.failures == self.spec_requests() && r.success == 0 && r.durations@.len() == 0,
            r.avg == (r.total_duration as nat) / self.spec_requests(),
            r.elapsed == elapsed,
    {
        proof {
            if forall|i: int| 0 <= i < self.outcomes@.len() ==> #[trigger] self.outcomes@[i].0 {
                lemma_count_all(self.outcomes@, true);
            }
            if forall|i: int| 0 <= i < self.outcomes@.len() ==> !#[trigger] self.outcomes@[i].0 {
                lemma_count_all(self.outcomes@, false);
            }
        }
        let mut result = self.result;
        result.finish(self.requests, elapsed);
        result
    }
}

impl LoadTestRunner {
    /// A fresh run of this configuration; responses are kept in `output_dir`
    /// when one is given.
    pub fn start(&self, output_dir: Option<String>) -> (r: LoadTestRun)
        requires
            self.well_formed(),
        ensures
            r.well_formed(),
            r.spec_requests() == self.requests,
            r.spec_concurrency() == self.concurrency,
            r.spec_started() == 0,
            r.spec_outcomes() == Seq::<(bool, u64)>::empty(),
            r.spec_indices() == Seq::<nat>::empty(),
            r.spec_output_dir() == output_dir,
    {
        LoadTestRun::new(self.requests, self.concurrency, output_dir)
    }
}

/// Once every request of a run has completed, each of the indices
/// `0..requests` has been started exactly once, in order.
pub proof fn lemma_done_started_all(run: LoadTestRun)
    requires
        run.well_formed(),
        run.spec_done(),
    ensures
        run.spec_started() == run.spec_requests(),
        run.spec_outcomes().len() == run.spec_requests(),
{
}

/// Against an endpoint where every request succeeds, a run of `N` requests
/// at any concurrency `0 < C <= N` ends with `N` successes, no failures and
/// `N` completions.
pub proof fn lemma_succeeding_endpoint(run: LoadTestRun)
    requires
        run.well_formed(),
        run.spec_done(),
        forall|i: int| 0 <= i < run.spec_outcomes().len() ==> #[trigger] run.spec_outcomes()[i].0,
    ensures
        run.spec_result().success == run.spec_requests(),
        run.spec_result().failures == 0,
        run.spec_result().completed == run.spec_requests(),
{
    lemma_count_all(run.spec_outcomes(), true);
}

/// Against an endpoint where every request fails, a run of `N` requests ends
/// with `N` failures and no success.
pub proof fn lemma_failing_endpoint(run: LoadTestRun)
    requires
        run.well_formed(),
        run.spec_done(),
        forall|i: int|
            0 <= i < run.spec_outcomes().len() ==> !(#[trigger] run.spec_outcomes()[i].0),
    ensures
        run.spec_result().failures == run.spec_requests(),
        run.spec_result().success == 0,
{
    lemma_count_all(run.spec_outcomes(), false);
}

/// When responses are kept and every request of a finished run failed, the
/// run wrote one file per request: `N` files, pairwise distinct, each named
/// `failure-...` and none `success-...`, whatever the completion order.
pub proof fn lemma_failing_run_files(run: LoadTestRun)
    requires
        run.well_formed(),
        run.spec_done(),
        run.spec_output_dir() is Some,
        forall|i: int|
            0 <= i < run.spec_outcomes().len() ==> !(#[trigger] run.spec_outcomes()[i].0),
    ensures
        run.spec_targets().len() == run.spec_requests(),
        forall|k: int|
            0 <= k < run.spec_targets().len() ==> #[trigger] run.spec_targets()[k] == Some(
                join_path(
                    run.spec_output_dir()->0@,
                    output_file_name(
                        run.spec_requests(),
                        run.spec_indices()[k] + 1,
                        run.spec_labels()[k],
                        false,
                    ),
                ),
            ) && output_file_name(
                run.spec_requests(),
                run.spec_indices()[k] + 1,
                run.spec_labels()[k],
                false,
            ).subrange(0, 8) == "failure-"@ && output_file_name(
                run.spec_requests(),
                run.spec_indices()[k] + 1,
                run.spec_labels()[k],
                false,
            ).subrange(0, 8) != "success-"@,
        forall|k1: int, k2: int|
            0 <= k1 < run.spec_targets().len() && 0 <= k2 < run.spec_targets().len() && k1 != k2
                ==> #[trigger] run.spec_targets()[k1] != #[trigger] run.spec_targets()[k2],
{
    let n = run.spec_requests();
    let dir = run.spec_output_dir()->0@;
    assert forall|k: int| 0 <= k < run.spec_targets().len() implies #[trigger] run.spec_targets()[k]
        == Some(
        join_path(
            dir,
            output_file_name(n, run.spec_indices()[k] + 1, run.spec_labels()[k], false),
        ),
    ) && output_file_name(n, run.spec_indices()[k] + 1, run.spec_labels()[k], false).subrange(0, 8)
        == "failure-"@ && output_file_name(
        n,
        run.spec_indices()[k] + 1,
        run.spec_labels()[k],
        false,
    ).subrange(0, 8) != "success-"@ by {
        assert(!run.spec_outcomes()[k].0);
        lemma_failure_file_label(n, run.spec_indices()[k] + 1, run.spec_labels()[k]);
    }
    assert forall|k1: int, k2: int|
        0 <= k1 < run.spec_targets().len() && 0 <= k2 < run.spec_targets().len() && k1
            != k2 implies #[trigger] run.spec_targets()[k1] != #[trigger] run.spec_targets()[k2] by {
        let i1 = run.spec_indices()[k1];
        let i2 = run.spec_indices()[k2];
        if k1 < k2 {
            assert(i1 != i2);
        } else {
            assert(i2 != i1);
        }
        assert(i1 < n && i2 < n);
        lemma_output_files_distinct(
            dir,
            n,
            i1,
            i2,
            run.spec_labels()[k1],
            run.spec_labels()[k2],
            false,
            false,
        );
        assert(!run.spec_outcomes()[k1].0 && !run.spec_outcomes()[k2].0);
    }
}

proof fn lemma_count_all(outcomes: Seq<(bool, u64)>, success: bool)
    requires
        forall|i: int| 0 <= i < outcomes.len() ==> #[trigger] outcomes[i].0 == success,
    ensures
        count_successes(outcomes) == if success {
            outcomes.len()
        } else {
            0
        },
    decreases outcomes.len(),
{
    if outcomes.len() > 0 {
        let rest = outcomes.drop_last();
        assert forall|i: int| 0 <= i < rest.len() implies #[trigger] rest[i].0 == success by {
            assert(rest[i] == outcomes[i]);
        }
        assert(outcomes.last() == outcomes[outcomes.len() - 1]);
        lemma_count_all(rest, success);
    }
}

} // verus!
