use cgroup_harness::error::GatewayError;
use cgroup_harness::report::WorkerOutcome;
use cgroup_harness::workload::{
    busy_loop, do_work, run_bound_workload, run_workload, WORK_ITERATIONS,
};
use std::cell::Cell;

#[test]
fn busy_loop_counts_every_iteration() {
    assert_eq!(busy_loop(0), 0);
    assert_eq!(busy_loop(1), 1);
    assert_eq!(busy_loop(12_345), 12_345);
}

#[test]
fn do_work_runs_the_fixed_workload() {
    assert_eq!(WORK_ITERATIONS, 1_000_000_000);
    assert_eq!(do_work(), 1_000_000_000);
}

#[test]
fn the_workload_is_run_exactly_once() {
    let calls = Cell::new(0u32);
    let elapsed = run_workload(|| calls.set(calls.get() + 1));
    assert_eq!(calls.get(), 1);
    assert!(elapsed < 60_000_000_000);
}

#[test]
fn a_longer_workload_takes_measurable_time() {
    let elapsed = run_workload(|| {
        busy_loop(20_000_000);
    });
    assert!(elapsed > 0);
}

#[test]
fn a_bound_worker_runs_its_workload() {
    let calls = Cell::new(0u32);
    let outcome = run_bound_workload(Ok(()), || calls.set(calls.get() + 1));
    assert_eq!(calls.get(), 1);
    assert!(matches!(outcome, WorkerOutcome::Completed { .. }));
}

#[test]
fn a_worker_that_is_not_bound_runs_nothing() {
    let calls = Cell::new(0u32);
    let refused = Err(GatewayError::InvalidValue);
    let outcome = run_bound_workload(refused, || calls.set(calls.get() + 1));
    assert_eq!(calls.get(), 0);
    assert_eq!(outcome, WorkerOutcome::BindFailed(GatewayError::InvalidValue));
}
