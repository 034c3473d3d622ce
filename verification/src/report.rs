//! What a benchmark run reports.

use vstd::prelude::*;
use crate::error::GatewayError;

verus! {

/// How the thread of one weight class fared.
#[derive(Clone, Copy, Debug, PartialEq, Eq)]
pub enum WorkerOutcome {
    /// The thread joined its group and ran the workload to the end.
    Completed { elapsed_nanos: u128 },
    /// The thread could not join its group and ran nothing.
    BindFailed(GatewayError),
    /// The thread ended abnormally.
    Panicked,
}

/// How a worker fares: where it could join its group it reports the time
/// its workload took, where it could not it reports the failure.
pub open spec fn outcome_of(bound: Result<(), GatewayError>, elapsed_nanos: u128) -> WorkerOutcome {
    match bound {
        Ok(_) => WorkerOutcome::Completed { elapsed_nanos },
        Err(error) => WorkerOutcome::BindFailed(error),
    }
}

/// Decides how a worker fared from the report of its joining and the time
/// its workload took, as [`outcome_of`] says. The time does not count where
/// the worker could not join.
pub fn outcome_for(bound: Result<(), GatewayError>, elapsed_nanos: u128) -> (outcome:
    WorkerOutcome)
    ensures
        outcome == outcome_of(bound, elapsed_nanos),
{
    match bound {
        Ok(_) => WorkerOutcome::Completed { elapsed_nanos },
        Err(error) => WorkerOutcome::BindFailed(error),
    }
}

/// The record of one thread: its label, its weight and how it fared.
#[derive(Debug)]
pub struct BenchmarkResult {
    pub label: String,
    pub weight: u32,
    pub outcome: WorkerOutcome,
}

/// The mathematical form of a [`BenchmarkResult`].
pub struct ResultView {
    pub label: Seq<char>,
    pub weight: u32,
    pub outcome: WorkerOutcome,
}

impl View for BenchmarkResult {
    type V = ResultView;

    open spec fn view(&self) -> ResultView {
        ResultView { label: self.label@, weight: self.weight, outcome: self.outcome }
    }
}

impl Clone for BenchmarkResult {
    fn clone(&self) -> (copy: Self)
        ensures
            copy@ == self@,
    {
        BenchmarkResult { label: self.label.clone(), weight: self.weight, outcome: self.outcome }
    }
}

impl BenchmarkResult {
    /// The time the workload took, where the thread ran it to the end.
    pub fn elapsed_nanos(&self) -> (elapsed: Option<u128>)
        ensures
            elapsed == match self.outcome {
                WorkerOutcome::Completed { elapsed_nanos } => Some(elapsed_nanos),
                _ => None,
            },
    {
        match self.outcome {
            WorkerOutcome::Completed { elapsed_nanos } => Some(elapsed_nanos),
            _ => None,
        }
    }
}

/// The mathematical form of a list of results.
pub open spec fn results_view(results: Seq<BenchmarkResult>) -> Seq<ResultView> {
    Seq::new(results.len(), |i: int| results[i]@)
}

/// Copies a list of results.
pub fn clone_results(results: &Vec<BenchmarkResult>) -> (copy: Vec<BenchmarkResult>)
    ensures
        results_view(copy@) == results_view(results@),
{
    let mut copy: Vec<BenchmarkResult> = Vec::new();
    let mut i: usize = 0;
    while i < results.len()
        invariant
            i <= results@.len(),
            copy@.len() == i,
            forall|k: int| 0 <= k < i ==> (#[trigger] copy@[k])@ == results@[k]@,
        decreases results@.len() - i,
    {
        copy.push(results[i].clone());
        i += 1;
    }
    copy
}

/// Copies a list of failures.
pub fn clone_errors(errors: &Vec<GatewayError>) -> (copy: Vec<GatewayError>)
    ensures
        copy@ == errors@,
{
    let mut copy: Vec<GatewayError> = Vec::new();
    let mut i: usize = 0;
    while i < errors.len()
        invariant
            i <= errors@.len(),
            copy@ == errors@.take(i as int),
        decreases errors@.len() - i,
    {
        copy.push(errors[i]);
        i += 1;
    }
    copy
}

/// Whether `heavy` took no more than `tolerance` longer than it should
/// beside `light`: where `light` has less weight and both ran to the end,
/// `heavy` took at most the time of `light` and the tolerance.
pub open spec fn within_tolerance(light: ResultView, heavy: ResultView, tolerance: u128) -> bool {
    match (light.outcome, heavy.outcome) {
        (
            WorkerOutcome::Completed { elapsed_nanos: light_time },
            WorkerOutcome::Completed { elapsed_nanos: heavy_time },
        ) => light.weight < heavy.weight ==> heavy_time <= light_time + tolerance,
        _ => true,
    }
}

/// Whether, of any two threads that ran to the end, the one of more weight
/// took no longer than the one of less weight, give or take `tolerance`
/// nanoseconds.
pub open spec fn shares_respected(results: Seq<ResultView>, tolerance: u128) -> bool {
    forall|i: int, j: int|
        0 <= i < results.len() && 0 <= j < results.len() ==> within_tolerance(
            #[trigger] results[i],
            #[trigger] results[j],
            tolerance,
        )
}

/// Decides [`within_tolerance`].
pub fn pair_within_tolerance(
    light: &BenchmarkResult,
    heavy: &BenchmarkResult,
    tolerance: u128,
) -> (ok: bool)
    ensures
        ok == within_tolerance(light@, heavy@, tolerance),
{
    match (light.outcome, heavy.outcome) {
        (
            WorkerOutcome::Completed { elapsed_nanos: light_time },
            WorkerOutcome::Completed { elapsed_nanos: heavy_time },
        ) => {
            if light.weight < heavy.weight {
                heavy_time <= light_time || heavy_time - light_time <= tolerance
            } else {
                true
            }
        },
        _ => true,
    }
}

/// Decides [`shares_respected`].
pub fn ordered_by_weight(results: &Vec<BenchmarkResult>, tolerance_nanos: u128) -> (ok: bool)
    ensures
        ok == shares_respected(results_view(results@), tolerance_nanos),
{
    let ghost views = results_view(results@);
    let mut i: usize = 0;
    while i < results.len()
        invariant
            i <= results@.len(),
            views == results_view(results@),
            forall|a: int, b: int|
                0 <= a < i && 0 <= b < views.len() ==> within_tolerance(
                    #[trigger] views[a],
                    #[trigger] views[b],
                    tolerance_nanos,
                ),
        decreases results@.len() - i,
    {
        let mut j: usize = 0;
        while j < results.len()
            invariant
                i < results@.len(),
                j <= results@.len(),
                views == results_view(results@),
                forall|b: int|
                    0 <= b < j ==> within_tolerance(
                        views[i as int],
                        #[trigger] views[b],
                        tolerance_nanos,
                    ),
            decreases results@.len() - j,
        {
            if !pair_within_tolerance(&results[i], &results[j], tolerance_nanos) {
                assert(!within_tolerance(views[i as int], views[j as int], tolerance_nanos));
                return false;
            }
            j += 1;
        }
        i += 1;
    }
    true
}

/// What a finished run reports.
#[derive(Debug)]
pub struct Report {
    /// One record for each weight class, in the order in which the threads
    /// were spawned; empty where no thread was spawned.
    pub results: Vec<BenchmarkResult>,
    /// The failure that kept the run from spawning its threads.
    pub setup_error: Option<GatewayError>,
    /// The failures met while removing the groups after the threads ended.
    pub teardown_errors: Vec<GatewayError>,
}

/// The mathematical form of a [`Report`].
pub struct ReportView {
    pub results: Seq<ResultView>,
    pub setup_error: Option<GatewayError>,
    pub teardown_errors: Seq<GatewayError>,
}

impl ReportView {
    /// Whether the run set up, ran and tore down without a failure of the
    /// tree. How the single threads fared does not count.
    pub open spec fn succeeded(self) -> bool {
        self.setup_error is None && self.teardown_errors.len() == 0
    }
}

impl View for Report {
    type V = ReportView;

    open spec fn view(&self) -> ReportView {
        ReportView {
            results: results_view(self.results@),
            setup_error: self.setup_error,
            teardown_errors: self.teardown_errors@,
        }
    }
}

impl Report {
    /// Whether the process should end normally, as [`ReportView::succeeded`]
    /// says.
    pub fn succeeded(&self) -> (ok: bool)
        ensures
            ok == self@.succeeded(),
    {
        self.setup_error.is_none() && self.teardown_errors.len() == 0
    }
}

} // verus!
