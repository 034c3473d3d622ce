//! What holds of a whole run against a tree that follows the rules.
//!
//! The main law: a valid configuration, run against a tree whose holder may
//! change it and on which at most the leftovers of an earlier run of the same
//! configuration stand in the way, sets up, records every thread, tears down
//! and leaves none of its groups behind. So the run can be repeated at once.
//! And however a run goes, it changes nothing but its own groups, what the
//! top of the tree hands down, and the memberships of its own threads.

use vstd::prelude::*;
use crate::config::ConfigView;
use crate::gateway::OpView;
use crate::manager::{bind_op, delegate_op, threaded_op, weight_op};
use crate::model::{without_thread, without_thread_keeps, Hierarchy, Membership};
use crate::node::{is_child_path, parent_path, NodePath};
use crate::orchestrator::{
    ActionView, ClassStep, EventView, Phase, Place, Removal, RunView, Stage, TaskView,
};
use crate::rehearsal::{
    done, rehearsal, run_from, worker_outcome, worker_outcomes, workers_bound, workers_released,
};
use crate::report::{ResultView, WorkerOutcome};
use crate::tree_laws::released_keeps_the_rest;
use crate::wire::{
    directive_round_trip, thread_id_round_trip, threaded_round_trip, weight_round_trip,
    Controller,
};

verus! {

/// Whether `node` is the subgroup of one of the weight classes.
pub open spec fn is_class_node(config: ConfigView, node: NodePath) -> bool {
    exists|i: int| 0 <= i < config.classes.len() && #[trigger] config.class_node(i) == node
}

/// Whether `node` is one of the groups of the run.
pub open spec fn is_run_node(config: ConfigView, node: NodePath) -> bool {
    node == config.root_node() || is_class_node(config, node)
}

/// Whether nothing on the tree stands in the way of a run of `config` but
/// what an earlier run of it may have left: below the run's own group only
/// subgroups of its classes, nothing below those, and no thread in any of
/// them.
pub open spec fn tidy(tree: Hierarchy, config: ConfigView) -> bool {
    &&& forall|node: NodePath| #[trigger]
        tree.groups.contains_key(node) && is_child_path(node, config.root_node())
            ==> is_class_node(config, node)
    &&& forall|node: NodePath, i: int|
        0 <= i < config.classes.len() && #[trigger] tree.groups.contains_key(node)
            ==> !is_child_path(node, #[trigger] config.class_node(i))
    &&& forall|k: int|
        0 <= k < tree.threads.len() ==> !is_run_node(config, (#[trigger] tree.threads[k]).node)
}

/// Whether a run of `config` against `tree` is bound to succeed: the tree
/// follows the rules, its holder may change it, and it is tidy.
pub open spec fn ready_for(tree: Hierarchy, config: ConfigView) -> bool {
    tree.wf() && tree.privileged && tidy(tree, config)
}

/// The records of a run in which every thread joined its group and reported
/// its time.
pub open spec fn expected_results(config: ConfigView, timings: Seq<u128>) -> Seq<ResultView> {
    Seq::new(
        config.classes.len(),
        |i: int|
            ResultView {
                label: config.classes[i].label,
                weight: config.classes[i].weight,
                outcome: WorkerOutcome::Completed { elapsed_nanos: timings[i] },
            },
    )
}

/// Whether a run has come to a clean end: torn down, without any failure,
/// with a record for every thread, and with none of its groups left on a
/// tree that is ready for the next run.
pub open spec fn clean_end(
    end: (RunView, Hierarchy),
    config: ConfigView,
    timings: Seq<u128>,
) -> bool {
    &&& end.0.stage == Stage::Finished
    &&& end.0.phase() == Phase::TornDown
    &&& end.0.report().succeeded()
    &&& end.0.results == expected_results(config, timings)
    &&& !end.1.has_node(config.root_node())
    &&& forall|i: int|
        0 <= i < config.classes.len() ==> !end.1.has_node(#[trigger] config.class_node(i))
    &&& ready_for(end.1, config)
}

spec fn steady(run: RunView, config: ConfigView) -> bool {
    run.config == config && run.setup_error is None && run.teardown_errors.len() == 0
}

spec fn cleared_upto(tree: Hierarchy, config: ConfigView, k: int) -> bool {
    &&& ready_for(tree, config)
    &&& forall|i: int| 0 <= i < k ==> !tree.has_node(#[trigger] config.class_node(i))
}

spec fn configured_upto(tree: Hierarchy, config: ConfigView, k: int) -> bool {
    &&& ready_for(tree, config)
    &&& tree.has_node(config.root_node())
    &&& tree.groups[config.root_node()].delegated.contains(Controller::Cpu)
    &&& forall|i: int|
        0 <= i < k ==> tree.has_node(#[trigger] config.class_node(i))
            && tree.groups[config.class_node(i)].threaded
    &&& forall|i: int|
        k <= i < config.classes.len() ==> !tree.has_node(#[trigger] config.class_node(i))
}

spec fn torn_upto(tree: Hierarchy, config: ConfigView, k: int) -> bool {
    &&& ready_for(tree, config)
    &&& tree.has_node(config.root_node())
    &&& forall|i: int| 0 <= i < k ==> !tree.has_node(#[trigger] config.class_node(i))
    &&& forall|i: int|
        k <= i < config.classes.len() ==> tree.has_node(#[trigger] config.class_node(i))
}

/// The shape of the paths of a run: its own group lies directly below the
/// top, the subgroups directly below it, and no two subgroups share a path.
proof fn path_facts(config: ConfigView)
    requires
        config.valid(),
    ensures
        config.root_node().len() == 1,
        parent_path(config.root_node()) == Seq::<Seq<char>>::empty(),
        forall|i: int| (#[trigger] config.class_node(i)).len() == 2,
        forall|i: int| parent_path(#[trigger] config.class_node(i)) == config.root_node(),
        forall|i: int| is_child_path(#[trigger] config.class_node(i), config.root_node()),
        forall|i: int, j: int|
            0 <= i < config.classes.len() && 0 <= j < config.classes.len() && i != j
                ==> #[trigger] config.class_node(i) != #[trigger] config.class_node(j),
{
    assert forall|i: int| parent_path(#[trigger] config.class_node(i)) == config.root_node() by {}
    assert forall|i: int, j: int|
        0 <= i < config.classes.len() && 0 <= j < config.classes.len() && i != j implies #[trigger]
        config.class_node(i) != #[trigger] config.class_node(j) by {
        let a = config.classes[i].label;
        let b = config.classes[j].label;
        if config.class_node(i) == config.class_node(j) {
            let prefix = "thread_"@;
            assert((prefix + a).skip(prefix.len() as int) =~= a);
            assert((prefix + b).skip(prefix.len() as int) =~= b);
        }
    }
}

/// A tree without the run's own group has none of its subgroups either and
/// is tidy.
proof fn absent_root_is_tidy(tree: Hierarchy, config: ConfigView)
    requires
        config.valid(),
        tree.wf(),
        !tree.has_node(config.root_node()),
    ensures
        tidy(tree, config),
        forall|i: int| !tree.has_node(#[trigger] config.class_node(i)),
{
    path_facts(config);
}

/// One step of a run whose pending action is an operation on the tree.
proof fn perform_step(
    run: RunView,
    tree: Hierarchy,
    threads: Seq<u64>,
    timings: Seq<u128>,
    op: OpView,
)
    requires
        run.stage_valid(),
        run.pending() == ActionView::Perform(op),
    ensures
        run_from(run, tree, threads, timings) == run_from(
            run.advance(EventView::Performed(done(tree.perform(op).result))),
            tree.perform(op).after,
            threads,
            timings,
        ),
{
}

/// Tearing down from the subgroup at `k` on comes to a clean end.
proof fn teardown_ends_clean(
    run: RunView,
    tree: Hierarchy,
    config: ConfigView,
    threads: Seq<u64>,
    timings: Seq<u128>,
    k: int,
)
    requires
        config.valid(),
        steady(run, config),
        0 <= k <= config.classes.len(),
        run.stage == (Stage::Removing { why: Removal::Final, next: k as usize }),
        run.results == expected_results(config, timings),
        torn_upto(tree, config, k),
    ensures
        clean_end(run_from(run, tree, threads, timings), config, timings),
    decreases config.classes.len() - k,
{
    path_facts(config);
    // The group to be removed exists, and neither a group nor a thread is
    // left in it: the removal goes through.
    let op = OpView::RemoveNode { node: run.removal_target(k as usize) };
    let removed = tree.perform(op);
    let next = run.advance(EventView::Performed(done(removed.result)));
    perform_step(run, tree, threads, timings, op);
    if k < config.classes.len() {
        teardown_ends_clean(next, removed.after, config, threads, timings, k + 1);
    }
}

/// What the workers leave of a tree on which every subgroup is set up: each
/// of the first `count` has joined its group, nothing else has changed, and
/// whoever is a member of a group of the run is one of them.
proof fn workers_all_join(
    tree: Hierarchy,
    config: ConfigView,
    tasks: Seq<TaskView>,
    threads: Seq<u64>,
    timings: Seq<u128>,
    count: int,
)
    requires
        config.valid(),
        configured_upto(tree, config, config.classes.len() as int),
        tasks == RunView::initial(config).tasks(),
        threads.len() == config.classes.len(),
        0 <= count <= config.classes.len(),
    ensures
        workers_bound(tree, tasks, threads, count).wf(),
        workers_bound(tree, tasks, threads, count).groups == tree.groups,
        workers_bound(tree, tasks, threads, count).privileged,
        forall|k: int|
            0 <= k < workers_bound(tree, tasks, threads, count).threads.len() && is_run_node(
                config,
                (#[trigger] workers_bound(tree, tasks, threads, count).threads[k]).node,
            ) ==> threads.contains(workers_bound(tree, tasks, threads, count).threads[k].thread),
        forall|i: int|
            0 <= i < count ==> #[trigger] worker_outcome(tree, tasks, threads, timings, i)
                == (WorkerOutcome::Completed { elapsed_nanos: timings[i] }),
    decreases count,
{
    path_facts(config);
    if count > 0 {
        workers_all_join(tree, config, tasks, threads, timings, count - 1);
        // The group of the worker is threaded and can use the CPU
        // controller, so the worker joins it. It leaves the group it was in;
        // every other membership stays.
        let before = workers_bound(tree, tasks, threads, count - 1);
        let thread = threads[count - 1];
        let joined = before.perform(bind_op(config.class_node(count - 1), thread));
        thread_id_round_trip(thread);
        without_thread_keeps(before.threads, thread);
        assert(joined.after.threads == without_thread(before.threads, thread).push(
            Membership { thread, node: config.class_node(count - 1) },
        ));
    }
}

/// Spawning and joining the threads on a tree on which every subgroup is set
/// up comes to a clean end.
proof fn workers_end_clean(
    run: RunView,
    tree: Hierarchy,
    config: ConfigView,
    threads: Seq<u64>,
    timings: Seq<u128>,
)
    requires
        config.valid(),
        steady(run, config),
        run.stage == Stage::Spawning,
        threads.len() == config.classes.len(),
        timings.len() == config.classes.len(),
        configured_upto(tree, config, config.classes.len() as int),
    ensures
        clean_end(run_from(run, tree, threads, timings), config, timings),
{
    let n = config.classes.len() as int;
    let tasks = run.tasks();
    // Every worker joins its group and reports its time.
    workers_all_join(tree, config, tasks, threads, timings, n);
    let outcomes = worker_outcomes(tree, tasks, threads, timings);
    let bound = workers_bound(tree, tasks, threads, n);
    // Whoever is in a group of the run is a worker, and every worker ends.
    let released = workers_released(bound, threads, n);
    released_keeps_the_rest(bound, threads, n);
    let next = run.advance(EventView::Spawned).advance(EventView::Joined(outcomes));
    assert(next.results =~= expected_results(config, timings));
    teardown_ends_clean(next, released, config, threads, timings, 0);
}

/// Setting up the subgroups from the class at `k` on, then running, comes to
/// a clean end.
proof fn classes_end_clean(
    run: RunView,
    tree: Hierarchy,
    config: ConfigView,
    threads: Seq<u64>,
    timings: Seq<u128>,
    k: int,
)
    requires
        config.valid(),
        steady(run, config),
        0 <= k < config.classes.len(),
        run.stage == (Stage::Configuring { class: k as usize, step: ClassStep::Create }),
        threads.len() == config.classes.len(),
        timings.len() == config.classes.len(),
        configured_upto(tree, config, k),
    ensures
        clean_end(run_from(run, tree, threads, timings), config, timings),
    decreases config.classes.len() - k,
{
    path_facts(config);
    let node = config.class_node(k);
    let weight = config.classes[k].weight;

    // The subgroup does not exist yet and its parent does.
    let create = OpView::CreateNode { node };
    let created = tree.perform(create);
    let run1 = run.advance(EventView::Performed(done(created.result)));
    perform_step(run, tree, threads, timings, create);

    // A group below the top has a type.
    let thread = threaded_op(node);
    let threaded = created.after.perform(thread);
    let run2 = run1.advance(EventView::Performed(done(threaded.result)));
    threaded_round_trip();
    perform_step(run1, created.after, threads, timings, thread);

    // The parent hands down the CPU controller, and the weight is valid.
    let weigh = weight_op(node, weight);
    let weighed = threaded.after.perform(weigh);
    let run3 = run2.advance(EventView::Performed(done(weighed.result)));
    weight_round_trip(weight);
    perform_step(run2, threaded.after, threads, timings, weigh);

    if k + 1 < config.classes.len() {
        classes_end_clean(run3, weighed.after, config, threads, timings, k + 1);
    } else {
        workers_end_clean(run3, weighed.after, config, threads, timings);
    }
}

/// Whether the run's own group stands ready for its subgroups: it exists,
/// none of its subgroups does, and the top hands down every controller of
/// the run.
spec fn rooted(tree: Hierarchy, config: ConfigView) -> bool {
    &&& ready_for(tree, config)
    &&& tree.has_node(config.root_node())
    &&& forall|i: int|
        0 <= i < config.classes.len() ==> !tree.has_node(#[trigger] config.class_node(i))
    &&& config.controllers.subset_of(tree.groups[Seq::<Seq<char>>::empty()].delegated)
}

/// Delegating at the run's own group from `controller` on, then setting up
/// the subgroups and running, comes to a clean end.
proof fn root_delegation_ends_clean(
    run: RunView,
    tree: Hierarchy,
    config: ConfigView,
    threads: Seq<u64>,
    timings: Seq<u128>,
    controller: Controller,
)
    requires
        config.valid(),
        steady(run, config),
        run.stage == (Stage::Delegating { at: Place::Root, controller }),
        config.controllers.contains(controller),
        threads.len() == config.classes.len(),
        timings.len() == config.classes.len(),
        rooted(tree, config),
        controller == Controller::Cpuset ==> tree.groups[config.root_node()].delegated.contains(
            Controller::Cpu,
        ),
    ensures
        clean_end(run_from(run, tree, threads, timings), config, timings),
    decreases (if controller == Controller::Cpu { 1nat } else { 0nat }),
{
    path_facts(config);
    directive_round_trip(controller);
    // The top hands down what the run's own group is to hand on.
    let hand_on = delegate_op(config.root_node(), controller);
    let handed = tree.perform(hand_on);
    let next = run.advance(EventView::Performed(done(handed.result)));
    perform_step(run, tree, threads, timings, hand_on);
    tree.perform_keeps_wf(hand_on);
    if controller == Controller::Cpu && config.controllers.contains(Controller::Cpuset) {
        root_delegation_ends_clean(
            next,
            handed.after,
            config,
            threads,
            timings,
            Controller::Cpuset,
        );
    } else if config.classes.len() > 0 {
        classes_end_clean(next, handed.after, config, threads, timings, 0);
    } else {
        workers_end_clean(next, handed.after, config, threads, timings);
    }
}

/// Giving the run's own group its weight, then delegating there, setting up
/// the subgroups and running, comes to a clean end.
proof fn root_weight_ends_clean(
    run: RunView,
    tree: Hierarchy,
    config: ConfigView,
    threads: Seq<u64>,
    timings: Seq<u128>,
)
    requires
        config.valid(),
        steady(run, config),
        run.stage == Stage::WeighingRoot,
        config.root_weight is Some,
        threads.len() == config.classes.len(),
        timings.len() == config.classes.len(),
        rooted(tree, config),
    ensures
        clean_end(run_from(run, tree, threads, timings), config, timings),
{
    path_facts(config);
    let weight = config.root_weight.unwrap();
    weight_round_trip(weight);
    // The top hands down the CPU controller, and the weight is valid.
    let weigh = weight_op(config.root_node(), weight);
    let weighed = tree.perform(weigh);
    let next = run.advance(EventView::Performed(done(weighed.result)));
    perform_step(run, tree, threads, timings, weigh);
    tree.perform_keeps_wf(weigh);
    assert(rooted(weighed.after, config));
    root_delegation_ends_clean(next, weighed.after, config, threads, timings, Controller::Cpu);
}

/// Creating the run's own group, then configuring it, setting up the
/// subgroups and running, comes to a clean end.
proof fn creation_ends_clean(
    run: RunView,
    tree: Hierarchy,
    config: ConfigView,
    threads: Seq<u64>,
    timings: Seq<u128>,
)
    requires
        config.valid(),
        steady(run, config),
        run.stage == Stage::CreatingRoot,
        threads.len() == config.classes.len(),
        timings.len() == config.classes.len(),
        tree.wf(),
        tree.privileged,
        !tree.has_node(config.root_node()),
        config.controllers.subset_of(tree.groups[Seq::<Seq<char>>::empty()].delegated),
    ensures
        clean_end(run_from(run, tree, threads, timings), config, timings),
{
    path_facts(config);
    absent_root_is_tidy(tree, config);
    // The run's own group does not exist, and the top does.
    let create = OpView::CreateNode { node: config.root_node() };
    let created = tree.perform(create);
    let next = run.advance(EventView::Performed(done(created.result)));
    perform_step(run, tree, threads, timings, create);
    tree.perform_keeps_wf(create);
    if config.root_weight is Some {
        root_weight_ends_clean(next, created.after, config, threads, timings);
    } else {
        root_delegation_ends_clean(
            next,
            created.after,
            config,
            threads,
            timings,
            Controller::Cpu,
        );
    }
}

/// Delegating at the top from `controller` on, on a tree without the run's
/// own group, then setting up and running, comes to a clean end.
proof fn setup_ends_clean(
    run: RunView,
    tree: Hierarchy,
    config: ConfigView,
    threads: Seq<u64>,
    timings: Seq<u128>,
    controller: Controller,
)
    requires
        config.valid(),
        steady(run, config),
        run.stage == (Stage::Delegating { at: Place::Top, controller }),
        config.controllers.contains(controller),
        threads.len() == config.classes.len(),
        timings.len() == config.classes.len(),
        tree.wf(),
        tree.privileged,
        !tree.has_node(config.root_node()),
        controller == Controller::Cpuset ==> tree.groups[Seq::<
            Seq<char>,
        >::empty()].delegated.contains(Controller::Cpu),
    ensures
        clean_end(run_from(run, tree, threads, timings), config, timings),
    decreases (if controller == Controller::Cpu { 1nat } else { 0nat }),
{
    path_facts(config);
    directive_round_trip(controller);
    // The top of the tree can use every controller.
    let hand_down = delegate_op(Seq::empty(), controller);
    let handed = tree.perform(hand_down);
    let next = run.advance(EventView::Performed(done(handed.result)));
    perform_step(run, tree, threads, timings, hand_down);
    tree.perform_keeps_wf(hand_down);
    if controller == Controller::Cpu && config.controllers.contains(Controller::Cpuset) {
        setup_ends_clean(next, handed.after, config, threads, timings, Controller::Cpuset);
    } else {
        creation_ends_clean(next, handed.after, config, threads, timings);
    }
}

/// Clearing away the leftovers from the subgroup at `k` on, then setting up
/// and running, comes to a clean end.
proof fn clearing_ends_clean(
    run: RunView,
    tree: Hierarchy,
    config: ConfigView,
    threads: Seq<u64>,
    timings: Seq<u128>,
    k: int,
)
    requires
        config.valid(),
        steady(run, config),
        0 <= k <= config.classes.len(),
        run.stage == (Stage::Removing { why: Removal::Stale, next: k as usize }),
        threads.len() == config.classes.len(),
        timings.len() == config.classes.len(),
        cleared_upto(tree, config, k),
    ensures
        clean_end(run_from(run, tree, threads, timings), config, timings),
    decreases config.classes.len() - k,
{
    let node = run.removal_target(k as usize);
    let op = OpView::RemoveNode { node };
    let removed = tree.perform(op);
    let next = run.advance(EventView::Performed(done(removed.result)));
    perform_step(run, tree, threads, timings, op);
    if tree.has_node(node) {
        // Neither a group nor a thread is left in it: the removal goes
        // through.
        assert(removed.result is Ok);
    } else {
        // Nothing is there to be removed, which is forgiven.
        assert(removed.after == tree);
    }
    if k < config.classes.len() {
        clearing_ends_clean(next, removed.after, config, threads, timings, k + 1);
    } else {
        setup_ends_clean(next, removed.after, config, threads, timings, Controller::Cpu);
    }
}

/// Whether all that differs between two states of the tree is the doing of a
/// run of `config` with `threads` as its cast: the groups of others are as
/// they were; the top is as it was but for handing down, beside what it
/// handed down before, controllers that the run delegates; every membership
/// of a thread outside the cast is kept; and every new membership is that
/// of a thread of the cast.
pub open spec fn only_own_changes(
    before: Hierarchy,
    after: Hierarchy,
    config: ConfigView,
    threads: Seq<u64>,
) -> bool {
    let top = Seq::<Seq<char>>::empty();
    &&& after.privileged == before.privileged
    &&& forall|node: NodePath|
        !is_run_node(config, node) ==> #[trigger] after.groups.contains_key(node)
            == before.groups.contains_key(node)
    &&& forall|node: NodePath|
        !is_run_node(config, node) && node.len() > 0 && before.groups.contains_key(node)
            ==> #[trigger] after.groups[node] == before.groups[node]
    &&& before.groups.contains_key(top) ==> {
        &&& after.groups[top].threaded == before.groups[top].threaded
        &&& after.groups[top].weight == before.groups[top].weight
        &&& after.groups[top].ceiling == before.groups[top].ceiling
        &&& before.groups[top].delegated.subset_of(after.groups[top].delegated)
        &&& after.groups[top].delegated.subset_of(
            before.groups[top].delegated.union(config.controllers),
        )
    }
    &&& forall|i: int|
        0 <= i < before.threads.len() && !threads.contains((#[trigger] before.threads[i]).thread)
            ==> after.threads.contains(before.threads[i])
    &&& forall|k: int|
        0 <= k < after.threads.len() ==> before.threads.contains(#[trigger] after.threads[k])
            || threads.contains(after.threads[k].thread)
}

/// What [`only_own_changes`] allows in two steps, it allows in one.
proof fn own_changes_add_up(
    first: Hierarchy,
    second: Hierarchy,
    third: Hierarchy,
    config: ConfigView,
    threads: Seq<u64>,
)
    requires
        only_own_changes(first, second, config, threads),
        only_own_changes(second, third, config, threads),
    ensures
        only_own_changes(first, third, config, threads),
{
    // The top is no group of the run: the paths of those are not empty.
    assert(config.root_node().len() == 1);
}

/// Every operation of a run changes a group of the run or what the top
/// hands down, and nothing else.
proof fn operation_changes_own(
    run: RunView,
    tree: Hierarchy,
    threads: Seq<u64>,
    op: OpView,
)
    requires
        run.stage_valid(),
        run.pending() == ActionView::Perform(op),
    ensures
        only_own_changes(tree, tree.perform(op).after, run.config, threads),
{
    // What is written to the top reads as one controller of the run.
    directive_round_trip(Controller::Cpu);
    directive_round_trip(Controller::Cpuset);
}

/// The workers change nothing but the memberships of their own threads.
proof fn workers_change_own(
    tree: Hierarchy,
    config: ConfigView,
    tasks: Seq<TaskView>,
    threads: Seq<u64>,
    count: int,
)
    requires
        0 <= count <= threads.len(),
        count <= tasks.len(),
    ensures
        only_own_changes(tree, workers_bound(tree, tasks, threads, count), config, threads),
        only_own_changes(tree, workers_released(tree, threads, count), config, threads),
    decreases count,
{
    if count > 0 {
        workers_change_own(tree, config, tasks, threads, count - 1);
        let thread = threads[count - 1];
        let bound = workers_bound(tree, tasks, threads, count - 1);
        let joined = bound.perform(bind_op(tasks[count - 1].node, thread)).after;
        thread_id_round_trip(thread);
        without_thread_keeps(bound.threads, thread);
        assert(only_own_changes(bound, joined, config, threads)) by {
            if joined != bound {
                // The worker has joined: it left the group it was in, and
                // every other membership stays where it was.
                let kept = without_thread(bound.threads, thread);
                assert forall|i: int|
                    0 <= i < bound.threads.len() && !threads.contains(
                        (#[trigger] bound.threads[i]).thread,
                    ) implies joined.threads.contains(bound.threads[i]) by {
                    let j = choose|j: int| 0 <= j < kept.len() && kept[j] == bound.threads[i];
                    assert(joined.threads[j] == bound.threads[i]);
                }
            }
        }
        own_changes_add_up(tree, bound, joined, config, threads);

        let released = workers_released(tree, threads, count - 1);
        without_thread_keeps(released.threads, thread);
        own_changes_add_up(tree, released, released.release(thread), config, threads);
    }
}

/// A run is the only writer of its own groups and leaves everything else
/// alone. However it goes, between the tree it finds and the tree it
/// leaves, the groups of others are the same and configured the same, the
/// top has at most come to hand down the controllers that the run
/// delegates, and no thread outside the cast has left or joined a group.
pub proof fn run_changes_only_its_own(
    run: RunView,
    tree: Hierarchy,
    threads: Seq<u64>,
    timings: Seq<u128>,
)
    requires
        run.stage_valid(),
        threads.len() == run.config.classes.len(),
    ensures
        only_own_changes(tree, run_from(run, tree, threads, timings).1, run.config, threads),
        run_from(run, tree, threads, timings).0.config == run.config,
    decreases run.remaining(),
{
    let config = run.config;
    let end = run_from(run, tree, threads, timings).1;
    match run.pending() {
        ActionView::Finish(_) => {},
        ActionView::Perform(op) => {
            let outcome = tree.perform(op);
            let event = EventView::Performed(done(outcome.result));
            operation_changes_own(run, tree, threads, op);
            run_changes_only_its_own(run.advance(event), outcome.after, threads, timings);
            own_changes_add_up(tree, outcome.after, end, config, threads);
        },
        ActionView::Spawn(tasks) => {
            let n = tasks.len() as int;
            let outcomes = worker_outcomes(tree, tasks, threads, timings);
            let bound = workers_bound(tree, tasks, threads, n);
            let released = workers_released(bound, threads, n);
            let next = run.advance(EventView::Spawned).advance(EventView::Joined(outcomes));
            workers_change_own(tree, config, tasks, threads, n);
            workers_change_own(bound, config, tasks, threads, n);
            own_changes_add_up(tree, bound, released, config, threads);
            run_changes_only_its_own(next, released, threads, timings);
            own_changes_add_up(tree, released, end, config, threads);
        },
        ActionView::Join => {
            let event = EventView::Joined(
                Seq::new(config.classes.len(), |i: int| WorkerOutcome::Panicked),
            );
            run_changes_only_its_own(run.advance(event), tree, threads, timings);
        },
    }
}

/// A tree that follows the rules, whose holder may change it and on which
/// the run's own group does not exist, is ready for the run.
pub proof fn absent_group_is_ready(tree: Hierarchy, config: ConfigView)
    requires
        config.valid(),
        tree.wf(),
        tree.privileged,
        !tree.has_node(config.root_node()),
    ensures
        ready_for(tree, config),
{
    absent_root_is_tidy(tree, config);
}

/// A valid configuration, run against a tree that is ready for it, comes to
/// a clean end: the run is torn down without a failure, every thread has its
/// record with the time it reported, none of the run's groups is left, and
/// the tree is ready for the next run.
pub proof fn run_ends_clean(
    config: ConfigView,
    tree: Hierarchy,
    threads: Seq<u64>,
    timings: Seq<u128>,
)
    requires
        config.valid(),
        ready_for(tree, config),
        threads.len() == config.classes.len(),
        timings.len() == config.classes.len(),
    ensures
        clean_end(
            run_from(RunView::initial(config), tree, threads, timings),
            config,
            timings,
        ),
        rehearsal(config, tree, threads, timings).0.succeeded(),
        rehearsal(config, tree, threads, timings).0.results == expected_results(config, timings),
        !rehearsal(config, tree, threads, timings).1.has_node(config.root_node()),
        ready_for(rehearsal(config, tree, threads, timings).1, config),
{
    clearing_ends_clean(RunView::initial(config), tree, config, threads, timings, 0);
}

/// A run can be repeated at once: where the first run was started on a tree
/// that was ready for it, the second run, on the tree the first one left,
/// comes to a clean end as well, whoever plays the threads.
pub proof fn rerun_ends_clean(
    config: ConfigView,
    tree: Hierarchy,
    first_threads: Seq<u64>,
    first_timings: Seq<u128>,
    second_threads: Seq<u64>,
    second_timings: Seq<u128>,
)
    requires
        config.valid(),
        ready_for(tree, config),
        first_threads.len() == config.classes.len(),
        first_timings.len() == config.classes.len(),
        second_threads.len() == config.classes.len(),
        second_timings.len() == config.classes.len(),
    ensures
        ({
            let first = rehearsal(config, tree, first_threads, first_timings);
            let second = rehearsal(config, first.1, second_threads, second_timings);
            &&& first.0.succeeded()
            &&& second.0.succeeded()
            &&& second.0.results == expected_results(config, second_timings)
            &&& !second.1.has_node(config.root_node())
        }),
{
    run_ends_clean(config, tree, first_threads, first_timings);
    let first = rehearsal(config, tree, first_threads, first_timings);
    run_ends_clean(config, first.1, second_threads, second_timings);
}

} // verus!
