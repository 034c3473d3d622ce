//! A whole run against a tree held in memory.
//!
//! The rehearsal drives an [`Orchestrator`] from its first action to its
//! report. It performs every operation on a [`MemoryHierarchy`]; in place of
//! spawned threads it takes a cast: for each weight class the identifier of
//! the thread that plays its worker and the time that worker reports.

use vstd::prelude::*;
use crate::config::{BenchmarkConfig, ConfigView};
use crate::error::GatewayError;
use crate::manager::{bind_op, bind_thread};
use crate::memory::MemoryHierarchy;
use crate::model::Hierarchy;
use crate::orchestrator::{
    tasks_view, Action, ActionView, Event, EventView, Orchestrator, RunView, TaskView, WorkerTask,
};
use crate::report::{outcome_for, outcome_of, Report, ReportView, WorkerOutcome};

verus! {

/// The report of a change, without the bytes that only a read brings.
pub open spec fn done(result: Result<Seq<u8>, GatewayError>) -> Result<(), GatewayError> {
    match result {
        Ok(_) => Ok(()),
        Err(error) => Err(error),
    }
}

/// The tree once the first `count` workers have tried to join their groups,
/// one after the other.
pub open spec fn workers_bound(
    tree: Hierarchy,
    tasks: Seq<TaskView>,
    threads: Seq<u64>,
    count: int,
) -> Hierarchy
    decreases count,
{
    if count <= 0 {
        tree
    } else {
        workers_bound(tree, tasks, threads, count - 1).perform(
            bind_op(tasks[count - 1].node, threads[count - 1]),
        ).after
    }
}

/// How the worker at `index` fares: it reports its time where it could join
/// its group, and the failure where it could not.
pub open spec fn worker_outcome(
    tree: Hierarchy,
    tasks: Seq<TaskView>,
    threads: Seq<u64>,
    timings: Seq<u128>,
    index: int,
) -> WorkerOutcome {
    outcome_of(
        done(
            workers_bound(tree, tasks, threads, index).perform(
                bind_op(tasks[index].node, threads[index]),
            ).result,
        ),
        timings[index],
    )
}

/// The outcomes of all workers, in the order of spawning.
pub open spec fn worker_outcomes(
    tree: Hierarchy,
    tasks: Seq<TaskView>,
    threads: Seq<u64>,
    timings: Seq<u128>,
) -> Seq<WorkerOutcome> {
    Seq::new(tasks.len(), |i: int| worker_outcome(tree, tasks, threads, timings, i))
}

/// The tree once the first `count` threads of the cast have ended.
pub open spec fn workers_released(tree: Hierarchy, threads: Seq<u64>, count: int) -> Hierarchy
    decreases count,
{
    if count <= 0 {
        tree
    } else {
        workers_released(tree, threads, count - 1).release(threads[count - 1])
    }
}

/// Where a run and a tree end up once the run is driven to its end from the
/// state `run`, with every operation performed on the tree. The threads are
/// spawned and joined in one go: each worker in turn tries to join its
/// group, then all of them end. A run that waits for threads nobody spawned
/// is told that they all ended abnormally.
pub open spec fn run_from(
    run: RunView,
    tree: Hierarchy,
    threads: Seq<u64>,
    timings: Seq<u128>,
) -> (RunView, Hierarchy)
    decreases run.remaining(),
    when run.stage_valid()
{
    match run.pending() {
        ActionView::Finish(_) => (run, tree),
        ActionView::Perform(op) => {
            let outcome = tree.perform(op);
            let event = EventView::Performed(done(outcome.result));
            run_from(run.advance(event), outcome.after, threads, timings)
        },
        ActionView::Spawn(tasks) => {
            let outcomes = worker_outcomes(tree, tasks, threads, timings);
            let bound = workers_bound(tree, tasks, threads, tasks.len() as int);
            let released = workers_released(bound, threads, tasks.len() as int);
            run_from(
                run.advance(EventView::Spawned).advance(EventView::Joined(outcomes)),
                released,
                threads,
                timings,
            )
        },
        ActionView::Join => {
            let event = EventView::Joined(
                Seq::new(run.config.classes.len(), |i: int| WorkerOutcome::Panicked),
            );
            run_from(run.advance(event), tree, threads, timings)
        },
    }
}

/// The report of a whole run of `config` and the tree it leaves behind.
pub open spec fn rehearsal(
    config: ConfigView,
    tree: Hierarchy,
    threads: Seq<u64>,
    timings: Seq<u128>,
) -> (ReportView, Hierarchy) {
    let end = run_from(RunView::initial(config), tree, threads, timings);
    (end.0.report(), end.1)
}

/// Plays the workers: each in turn tries to join its group and reports how
/// it fared.
fn play_workers(
    tree: &mut MemoryHierarchy,
    tasks: &Vec<WorkerTask>,
    threads: &Vec<u64>,
    timings: &Vec<u128>,
) -> (outcomes: Vec<WorkerOutcome>)
    requires
        old(tree).wf(),
        threads@.len() == tasks@.len(),
        timings@.len() == tasks@.len(),
    ensures
        final(tree).wf(),
        final(tree)@ == workers_bound(
            old(tree)@,
            tasks_view(tasks@),
            threads@,
            tasks@.len() as int,
        ),
        outcomes@ == worker_outcomes(old(tree)@, tasks_view(tasks@), threads@, timings@),
{
    let mut outcomes: Vec<WorkerOutcome> = Vec::new();
    let mut i: usize = 0;
    let ghost views = tasks_view(tasks@);
    while i < tasks.len()
        invariant
            tree.wf(),
            views == tasks_view(tasks@),
            threads@.len() == tasks@.len(),
            timings@.len() == tasks@.len(),
            i <= tasks@.len(),
            tree@ == workers_bound(old(tree)@, views, threads@, i as int),
            outcomes@.len() == i,
            forall|k: int|
                0 <= k < i ==> #[trigger] outcomes@[k] == worker_outcome(
                    old(tree)@,
                    views,
                    threads@,
                    timings@,
                    k,
                ),
        decreases tasks@.len() - i,
    {
        let op = bind_thread(&tasks[i].node, threads[i]);
        let bound = match tree.perform(&op) {
            Ok(_) => Ok(()),
            Err(error) => Err(error),
        };
        outcomes.push(outcome_for(bound, timings[i]));
        i += 1;
    }
    outcomes
}

/// Ends the threads of the cast: each leaves whatever group it was in.
fn end_workers(tree: &mut MemoryHierarchy, threads: &Vec<u64>)
    requires
        old(tree).wf(),
    ensures
        final(tree).wf(),
        final(tree)@ == workers_released(old(tree)@, threads@, threads@.len() as int),
{
    let mut i: usize = 0;
    while i < threads.len()
        invariant
            tree.wf(),
            i <= threads@.len(),
            tree@ == workers_released(old(tree)@, threads@, i as int),
        decreases threads@.len() - i,
    {
        tree.release_thread(threads[i]);
        i += 1;
    }
}

/// Runs `config` from beginning to end against `tree`, with `threads` and
/// `timings` as the cast: for each weight class the identifier of its thread
/// and the time it reports. Returns the report of the run; `None`, with the
/// tree untouched, where the cast does not have one thread and one time for
/// each class.
pub fn run_in_memory(
    config: BenchmarkConfig,
    tree: &mut MemoryHierarchy,
    threads: &Vec<u64>,
    timings: &Vec<u128>,
) -> (report: Option<Report>)
    requires
        config.wf(),
        old(tree).wf(),
    ensures
        final(tree).wf(),
        match report {
            Some(report) => threads@.len() == config@.classes.len() && timings@.len()
                == config@.classes.len() && (report@, final(tree)@) == rehearsal(
                config@,
                old(tree)@,
                threads@,
                timings@,
            ),
            None => !(threads@.len() == config@.classes.len() && timings@.len()
                == config@.classes.len()) && final(tree)@ == old(tree)@,
        },
{
    if threads.len() != config.class_count() || timings.len() != config.class_count() {
        return None;
    }
    let ghost start = RunView::initial(config@);
    let mut run = Orchestrator::new(config);
    loop
        invariant
            run.wf(),
            tree.wf(),
            start == RunView::initial(config@),
            run@.config == start.config,
            threads@.len() == run@.config.classes.len(),
            timings@.len() == run@.config.classes.len(),
            run_from(run@, tree@, threads@, timings@) == run_from(
                start,
                old(tree)@,
                threads@,
                timings@,
            ),
        decreases run@.remaining(),
    {
        proof {
            run.wf_state();
        }
        let ghost before = run@;
        match run.pending() {
            Action::Finish(report) => {
                return Some(report);
            },
            Action::Perform(op) => {
                let result = match tree.perform(&op) {
                    Ok(_) => Ok(()),
                    Err(error) => Err(error),
                };
                let event = Event::Performed(result);
                run.step(event);
            },
            Action::Spawn(tasks) => {
                let outcomes = play_workers(tree, &tasks, threads, timings);
                run.step(Event::Spawned);
                end_workers(tree, threads);
                run.step(Event::Joined(outcomes));
            },
            Action::Join => {
                let mut outcomes: Vec<WorkerOutcome> = Vec::new();
                let mut i: usize = 0;
                while i < threads.len()
                    invariant
                        i <= threads@.len(),
                        outcomes@.len() == i,
                        forall|k: int|
                            0 <= k < i ==> #[trigger] outcomes@[k] == WorkerOutcome::Panicked,
                    decreases threads@.len() - i,
                {
                    outcomes.push(WorkerOutcome::Panicked);
                    i += 1;
                }
                let event = Event::Joined(outcomes);
                proof {
                    assert(outcomes@ =~= Seq::new(
                        before.config.classes.len(),
                        |i: int| WorkerOutcome::Panicked,
                    ));
                }
                run.step(event);
            },
        }
    }
}

} // verus!
