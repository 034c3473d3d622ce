//! What holds of every tree that follows the rules.

use vstd::prelude::*;
use crate::error::GatewayError;
use crate::gateway::OpView;
use crate::manager::{bind_op, ceiling_op, delegate_op, delegate_ops, threaded_op, weight_op};
use crate::model::{
    threads_text, without_thread, without_thread_keeps, Hierarchy, Membership,
};
use crate::node::NodePath;
use crate::plan::{plain_steps, PlanView};
use crate::rehearsal::{done, workers_released};
use crate::text::{decimal, decimal_round_trip, LINE_FEED};
use crate::wire::{
    ceiling_round_trip, ceiling_text, controllers_text, directive_round_trip,
    thread_id_round_trip, type_text, Attribute, Controller, CpuCeiling, MAX_WEIGHT, MIN_WEIGHT,
};

verus! {

/// A group that was just created can be removed again, and the tree is then
/// as it was before: the path is absent.
pub proof fn create_then_destroy_leaves_nothing(tree: Hierarchy, parent: NodePath, name: Seq<char>)
    requires
        tree.wf(),
        tree.perform(OpView::CreateNode { node: parent.push(name) }).result is Ok,
    ensures
        ({
            let node = parent.push(name);
            let created = tree.perform(OpView::CreateNode { node }).after;
            let destroyed = created.perform(OpView::RemoveNode { node });
            &&& created.has_node(node)
            &&& destroyed.result is Ok
            &&& !destroyed.after.has_node(node)
            &&& destroyed.after == tree
        }),
{
    let node = parent.push(name);
    let created = tree.perform(OpView::CreateNode { node }).after;
    let destroyed = created.perform(OpView::RemoveNode { node });
    assert(destroyed.after.groups =~= tree.groups);
}

/// Delegating a controller a second time reports what the first time
/// reported and leaves the tree as the first time left it. So a delegation
/// that went through goes through again, and delegates nothing new.
pub proof fn delegate_is_idempotent(tree: Hierarchy, node: NodePath, controller: Controller)
    ensures
        ({
            let once = tree.perform(delegate_op(node, controller));
            let twice = once.after.perform(delegate_op(node, controller));
            twice.result == once.result && twice.after == once.after
        }),
{
    let once = tree.perform(delegate_op(node, controller));
    let twice = once.after.perform(delegate_op(node, controller));
    directive_round_trip(controller);
    if once.result is Ok {
        let before = tree.groups[node].delegated;
        let asked = Set::<Controller>::empty().insert(controller);
        assert(before.union(asked).union(asked) =~= before.union(asked));
        assert(twice.after.groups =~= once.after.groups);
    }
}

/// Delegating a set of controllers twice is the same as delegating it once:
/// the second round of writes stops where the first one stopped, with the
/// same failure if any, and leaves the tree as the first one left it.
pub proof fn delegating_twice_delegates_once(
    tree: Hierarchy,
    node: NodePath,
    controllers: Set<Controller>,
)
    ensures
        ({
            let plan = PlanView::initial(plain_steps(delegate_ops(node, controllers)));
            let once = plan.carried_out(tree);
            let twice = plan.carried_out(once.1);
            twice == once
        }),
{
    let ops = delegate_ops(node, controllers);
    let plan = PlanView::initial(plain_steps(ops));
    let once = plan.carried_out(tree);
    directive_round_trip(Controller::Cpu);
    directive_round_trip(Controller::Cpuset);
    if ops.len() == 0 {
        assert(plan.carried_out(tree) == (plan, tree));
    } else {
        let first = tree.perform(ops[0]);
        let plan1 = plan.advance(done(first.result));
        assert(plan.carried_out(tree) == plan1.carried_out(first.after));
        if first.result is Err {
            assert(plan1.carried_out(first.after) == (plan1, first.after));
        } else if ops.len() == 1 {
            delegate_is_idempotent(tree, node, if controllers.contains(Controller::Cpu) {
                Controller::Cpu
            } else {
                Controller::Cpuset
            });
            assert(plan1.carried_out(first.after) == (plan1, first.after));
            assert(plan.carried_out(first.after) == plan1.carried_out(first.after));
        } else {
            let second = first.after.perform(ops[1]);
            let plan2 = plan1.advance(done(second.result));
            assert(plan1.carried_out(first.after) == plan2.carried_out(second.after));
            assert(plan2.carried_out(second.after) == (plan2, second.after));
            delegate_is_idempotent(tree, node, Controller::Cpu);
            delegate_is_idempotent(first.after, node, Controller::Cpuset);
            // The second round: the CPU controller is handed down already.
            let before = tree.groups[node].delegated;
            let cpu = Set::<Controller>::empty().insert(Controller::Cpu);
            let cpuset = Set::<Controller>::empty().insert(Controller::Cpuset);
            assert(before.union(cpu).union(cpu) =~= before.union(cpu));
            assert(before.union(cpu).union(cpuset).union(cpu) =~= before.union(cpu).union(
                cpuset,
            ));
            assert(before.union(cpu).union(cpuset).union(cpuset) =~= before.union(cpu).union(
                cpuset,
            ));
            let again = second.after.perform(ops[0]);
            assert(again.after.groups =~= second.after.groups);
            assert(again.after == second.after);
            assert(again.result is Ok);
            assert(plan.carried_out(second.after) == plan1.carried_out(second.after));
            let last = second.after.perform(ops[1]);
            assert(last.result == second.result);
            assert(last.after.groups =~= second.after.groups);
            assert(plan1.carried_out(second.after) == plan2.carried_out(last.after));
        }
    }
}

/// A weight that was set reads back as its numeral and a line feed; and
/// only a weight within the range can be set.
pub proof fn weight_reads_back(tree: Hierarchy, node: NodePath, weight: u32)
    requires
        tree.perform(weight_op(node, weight)).result is Ok,
    ensures
        MIN_WEIGHT <= weight <= MAX_WEIGHT,
        tree.perform(weight_op(node, weight)).after.read(node, Attribute::CpuWeight) == Ok::<
            Seq<u8>,
            GatewayError,
        >(decimal(weight as nat).push(LINE_FEED)),
{
    decimal_round_trip(weight as u64);
}

/// A ceiling that was set reads back as it was written, and a line feed.
pub proof fn ceiling_reads_back(tree: Hierarchy, node: NodePath, ceiling: CpuCeiling)
    requires
        ceiling.valid(),
        tree.perform(ceiling_op(node, ceiling)).result is Ok,
    ensures
        tree.perform(ceiling_op(node, ceiling)).after.read(node, Attribute::CpuMax) == Ok::<
            Seq<u8>,
            GatewayError,
        >(ceiling_text(ceiling).push(LINE_FEED)),
{
    ceiling_round_trip(ceiling);
}

/// A group that was made threaded reads as threaded.
pub proof fn threaded_mode_reads_back(tree: Hierarchy, node: NodePath)
    requires
        tree.perform(threaded_op(node)).result is Ok,
    ensures
        tree.perform(threaded_op(node)).after.read(node, Attribute::Type) == Ok::<
            Seq<u8>,
            GatewayError,
        >(type_text(true)),
{
}

/// After the delegation of a controller, the group reads as handing down
/// what it handed down before and that controller.
pub proof fn delegation_reads_back(tree: Hierarchy, node: NodePath, controller: Controller)
    requires
        tree.perform(delegate_op(node, controller)).result is Ok,
    ensures
        tree.perform(delegate_op(node, controller)).after.read(node, Attribute::SubtreeControl)
            == Ok::<Seq<u8>, GatewayError>(
            controllers_text(tree.groups[node].delegated.insert(controller)),
        ),
{
    directive_round_trip(controller);
    let before = tree.groups[node].delegated;
    assert(before.union(Set::<Controller>::empty().insert(controller)) =~= before.insert(
        controller,
    ));
}

/// A thread that joined a group is the last on the group's list of members,
/// behind those that were on it before.
pub proof fn member_reads_back(tree: Hierarchy, node: NodePath, thread: u64)
    requires
        tree.perform(bind_op(node, thread)).result is Ok,
    ensures
        tree.perform(bind_op(node, thread)).after.read(node, Attribute::Threads) == Ok::<
            Seq<u8>,
            GatewayError,
        >(
            threads_text(without_thread(tree.threads, thread), node) + decimal(
                thread as nat,
            ).push(LINE_FEED),
        ),
{
    thread_id_round_trip(thread);
    let kept = without_thread(tree.threads, thread);
    assert(kept.push(Membership { thread, node }).drop_last() =~= kept);
}

/// A thread cannot join a group that is not marked threaded: the attempt is
/// reported as a failure and changes nothing. Where the group exists and the
/// holder of the tree may change it, the failure is
/// [`GatewayError::InvalidValue`].
pub proof fn bind_needs_threaded_group(tree: Hierarchy, node: NodePath, thread: u64)
    requires
        !(tree.has_node(node) && tree.groups[node].threaded),
    ensures
        tree.perform(bind_op(node, thread)).result is Err,
        tree.perform(bind_op(node, thread)).after == tree,
        tree.has_node(node) && tree.privileged ==> tree.perform(bind_op(node, thread)).result
            == Err::<Seq<u8>, GatewayError>(GatewayError::InvalidValue),
{
}

/// A thread that joins a group is from then on a member of that group and of
/// no other.
pub proof fn bind_moves_thread(tree: Hierarchy, node: NodePath, thread: u64)
    requires
        tree.wf(),
        tree.perform(bind_op(node, thread)).result is Ok,
    ensures
        tree.perform(bind_op(node, thread)).after.is_member(thread, node),
        forall|other: NodePath|
            other != node ==> !tree.perform(bind_op(node, thread)).after.is_member(thread, other),
{
    thread_id_round_trip(thread);
    let after = tree.perform(bind_op(node, thread)).after;
    let kept = without_thread(tree.threads, thread);
    without_thread_keeps(tree.threads, thread);
    assert(after.threads[kept.len() as int] == (Membership { thread, node }));
}

/// A group with a thread bound to it cannot be removed: the attempt is
/// reported as [`GatewayError::Busy`] and changes nothing.
pub proof fn destroy_refused_while_bound(tree: Hierarchy, node: NodePath, thread: u64)
    requires
        tree.wf(),
        tree.privileged,
        tree.is_member(thread, node),
    ensures
        tree.perform(OpView::RemoveNode { node }).result == Err::<Seq<u8>, GatewayError>(
            GatewayError::Busy,
        ),
        tree.perform(OpView::RemoveNode { node }).after == tree,
{
}

/// What the end of threads leaves of a tree: the same groups, under the same
/// holder, and of the memberships those of the threads that have not ended.
pub proof fn released_keeps_the_rest(tree: Hierarchy, threads: Seq<u64>, count: int)
    requires
        tree.wf(),
        0 <= count <= threads.len(),
    ensures
        workers_released(tree, threads, count).wf(),
        workers_released(tree, threads, count).groups == tree.groups,
        workers_released(tree, threads, count).privileged == tree.privileged,
        forall|k: int|
            0 <= k < workers_released(tree, threads, count).threads.len() ==> tree.threads.contains(
                #[trigger] workers_released(tree, threads, count).threads[k],
            ),
        forall|k: int, m: int|
            0 <= k < workers_released(tree, threads, count).threads.len() && 0 <= m < count ==> (
            #[trigger] workers_released(tree, threads, count).threads[k]).thread
                != #[trigger] threads[m],
    decreases count,
{
    if count > 0 {
        let before = workers_released(tree, threads, count - 1);
        released_keeps_the_rest(tree, threads, count - 1);
        without_thread_keeps(before.threads, threads[count - 1]);
    }
}

/// Once every thread bound to a group has ended, the group can be removed,
/// provided it has no children and the holder of the tree may change it.
pub proof fn destroy_succeeds_once_drained(tree: Hierarchy, node: NodePath, threads: Seq<u64>)
    requires
        tree.wf(),
        tree.privileged,
        tree.has_node(node),
        node.len() > 0,
        !tree.has_children(node),
        forall|i: int|
            0 <= i < tree.threads.len() && (#[trigger] tree.threads[i]).node == node
                ==> threads.contains(tree.threads[i].thread),
    ensures
        ({
            let drained = workers_released(tree, threads, threads.len() as int);
            let destroyed = drained.perform(OpView::RemoveNode { node });
            destroyed.result is Ok && !destroyed.after.has_node(node)
        }),
{
    released_keeps_the_rest(tree, threads, threads.len() as int);
}

} // verus!
