//! The CPU-bound workload and the stopwatch around it.

use vstd::prelude::*;
use std::time::{Duration, Instant};
use crate::error::GatewayError;
use crate::report::{outcome_for, outcome_of, WorkerOutcome};

verus! {

/// Number of increments one run of [`do_work`] performs.
pub const WORK_ITERATIONS: u64 = 1_000_000_000;

/// A point on the monotonic clock.
#[verifier::external_type_specification]
#[verifier::external_body]
pub struct ExInstant(Instant);

/// `std::hint::black_box`: hands its argument back unchanged, while keeping the
/// optimiser from reasoning about the value.
#[verifier::external_body]
fn keep(value: u64) -> (kept: u64)
    ensures
        kept == value,
{
    std::hint::black_box(value)
}

/// `Instant::now`: the present point on the monotonic clock. Nothing is
/// claimed of it.
#[verifier::external_body]
fn now() -> Instant {
    Instant::now()
}

/// `Instant::saturating_duration_since`: the time from `earlier` to `later`,
/// zero where `later` is not the later one. Nothing is claimed of it.
#[verifier::external_body]
fn between(earlier: &Instant, later: &Instant) -> Duration {
    later.saturating_duration_since(*earlier)
}

/// `Duration::as_nanos`: the whole duration in nanoseconds. Nothing is
/// claimed of the number.
#[verifier::external_body]
fn nanoseconds(duration: &Duration) -> u128 {
    duration.as_nanos()
}

/// Counts from zero up to `iterations`, one increment at a time, and returns
/// the count reached.
pub fn busy_loop(iterations: u64) -> (completed: u64)
    ensures
        completed == iterations,
{
    let mut count: u64 = 0;
    while count < iterations
        invariant
            count <= iterations,
        decreases iterations - count,
    {
        count = keep(count + 1);
    }
    count
}

/// The fixed workload every worker runs: [`WORK_ITERATIONS`] increments.
pub fn do_work() -> (completed: u64)
    ensures
        completed == WORK_ITERATIONS,
{
    busy_loop(WORK_ITERATIONS)
}

/// Runs `work` once on the calling thread and returns the wall-clock time it
/// took, in nanoseconds, read right before and right after the call.
pub fn run_workload<F: FnOnce() -> ()>(work: F) -> (elapsed_nanos: u128)
    requires
        work.requires(()),
    ensures
        work.ensures((), ()),
{
    let start = now();
    work();
    let end = now();
    let elapsed = between(&start, &end);
    nanoseconds(&elapsed)
}

/// What a worker does once it has tried to join its group, with `bound` as
/// the report of that: where it could not join, it runs nothing and reports
/// the failure; where it could, it runs `work` and reports the time that
/// took.
pub fn run_bound_workload<F: FnOnce() -> ()>(bound: Result<(), GatewayError>, work: F) -> (outcome:
    WorkerOutcome)
    requires
        work.requires(()),
    ensures
        bound is Err ==> outcome == outcome_of(bound, 0),
        bound is Ok ==> work.ensures((), ()) && exists|elapsed_nanos: u128|
            outcome == outcome_of(bound, elapsed_nanos),
{
    match bound {
        Ok(_) => {
            let elapsed_nanos = run_workload(work);
            outcome_for(bound, elapsed_nanos)
        },
        Err(_) => outcome_for(bound, 0),
    }
}

} // verus!
