//! A list of operations carried out in order, up to the first failure.
//!
//! Like a run, a plan touches no tree: it names its pending operation and
//! takes the report of how that went. [`ceiling_plan`] is the plan that puts
//! one threaded group under a CPU ceiling.

use vstd::prelude::*;
use crate::error::GatewayError;
use crate::gateway::{ops_view, GatewayOp, OpView};
use crate::manager::{
    bind_op, ceiling_op, delegate_one, delegate_op, destroy_group, forgiven, set_ceiling,
    set_threaded, threaded_op,
};
use crate::memory::MemoryHierarchy;
use crate::model::Hierarchy;
use crate::node::{parent_path, valid_name, HierarchyNode, NodePath};
use crate::rehearsal::done;
use crate::wire::{
    ceiling_round_trip, directive_round_trip, thread_id_round_trip, threaded_round_trip,
    Controller, CpuCeiling,
};

verus! {

/// One operation of a plan. A forgiving step only clears the way: where its
/// operation finds nothing, the step has still gone well.
#[derive(Debug)]
pub struct Step {
    pub op: GatewayOp,
    pub forgiving: bool,
}

/// The mathematical form of a [`Step`].
pub struct StepView {
    pub op: OpView,
    pub forgiving: bool,
}

impl View for Step {
    type V = StepView;

    open spec fn view(&self) -> StepView {
        StepView { op: self.op@, forgiving: self.forgiving }
    }
}

/// The mathematical form of a list of steps.
pub open spec fn steps_view(steps: Seq<Step>) -> Seq<StepView> {
    Seq::new(steps.len(), |i: int| steps[i]@)
}

/// The steps that perform `ops` in order, none of them forgiving.
pub open spec fn plain_steps(ops: Seq<OpView>) -> Seq<StepView> {
    Seq::new(ops.len(), |i: int| StepView { op: ops[i], forgiving: false })
}

/// The mathematical form of a [`Plan`]: the steps, how many of them have
/// gone well, and the failure that stopped the plan.
pub struct PlanView {
    pub steps: Seq<StepView>,
    pub cursor: nat,
    pub failure: Option<GatewayError>,
}

impl PlanView {
    /// A plan of which nothing is carried out yet.
    pub open spec fn initial(steps: Seq<StepView>) -> PlanView {
        PlanView { steps, cursor: 0, failure: None }
    }

    /// The operation to be performed next; none once the plan has failed or
    /// every step has gone well.
    pub open spec fn pending(self) -> Option<OpView> {
        if self.failure is None && self.cursor < self.steps.len() {
            Some(self.steps[self.cursor as int].op)
        } else {
            None
        }
    }

    /// Whether every step has gone well.
    pub open spec fn completed(self) -> bool {
        self.failure is None && self.cursor >= self.steps.len()
    }

    /// The plan once the pending operation is reported to have gone as
    /// `result` says. A plan without a pending operation stays as it is.
    pub open spec fn advance(self, result: Result<(), GatewayError>) -> PlanView {
        if self.pending() is None {
            self
        } else {
            let counted = if self.steps[self.cursor as int].forgiving {
                forgiven(result)
            } else {
                result
            };
            match counted {
                Ok(_) => PlanView { cursor: self.cursor + 1, ..self },
                Err(error) => PlanView { failure: Some(error), ..self },
            }
        }
    }

    /// How many operations are at most still to be performed.
    pub open spec fn remaining(self) -> nat {
        if self.pending() is None {
            0
        } else {
            (self.steps.len() - self.cursor) as nat
        }
    }

    /// Where a plan and a tree end up once the plan is carried out on the
    /// tree.
    pub open spec fn carried_out(self, tree: Hierarchy) -> (PlanView, Hierarchy)
        decreases self.remaining(),
    {
        match self.pending() {
            None => (self, tree),
            Some(op) => {
                let outcome = tree.perform(op);
                self.advance(done(outcome.result)).carried_out(outcome.after)
            },
        }
    }
}

/// A list of operations to be carried out in order, up to the first failure.
#[derive(Debug)]
pub struct Plan {
    steps: Vec<Step>,
    cursor: usize,
    failure: Option<GatewayError>,
}

impl View for Plan {
    type V = PlanView;

    closed spec fn view(&self) -> PlanView {
        PlanView {
            steps: steps_view(self.steps@),
            cursor: self.cursor as nat,
            failure: self.failure,
        }
    }
}

impl Plan {
    /// The plan of `steps`, nothing of it carried out yet.
    pub fn new(steps: Vec<Step>) -> (plan: Self)
        ensures
            plan@ == PlanView::initial(steps_view(steps@)),
    {
        Plan { steps, cursor: 0, failure: None }
    }

    /// The plan that performs `ops` in order and forgives nothing.
    pub fn of(ops: &Vec<GatewayOp>) -> (plan: Self)
        ensures
            plan@ == PlanView::initial(plain_steps(ops_view(ops@))),
    {
        let mut steps: Vec<Step> = Vec::new();
        let mut i: usize = 0;
        while i < ops.len()
            invariant
                i <= ops@.len(),
                steps@.len() == i,
                forall|k: int|
                    0 <= k < i ==> (#[trigger] steps@[k])@ == plain_steps(ops_view(ops@))[k],
            decreases ops@.len() - i,
        {
            steps.push(Step { op: ops[i].clone(), forgiving: false });
            i += 1;
        }
        assert(steps_view(steps@) =~= plain_steps(ops_view(ops@)));
        Plan::new(steps)
    }

    /// The operation to be performed next, as [`PlanView::pending`] says.
    pub fn pending(&self) -> (op: Option<GatewayOp>)
        ensures
            match op {
                Some(op) => self@.pending() == Some(op@),
                None => self@.pending() is None,
            },
    {
        if self.failure.is_none() && self.cursor < self.steps.len() {
            Some(self.steps[self.cursor].op.clone())
        } else {
            None
        }
    }

    /// Takes the report of the pending operation, as [`PlanView::advance`]
    /// says.
    pub fn step(&mut self, result: Result<(), GatewayError>)
        ensures
            final(self)@ == old(self)@.advance(result),
    {
        if self.failure.is_none() && self.cursor < self.steps.len() {
            let forgiving = self.steps[self.cursor].forgiving;
            match result {
                Ok(_) => {
                    self.cursor = self.cursor + 1;
                },
                Err(error) => {
                    let absent = match error {
                        GatewayError::NotFound => true,
                        _ => false,
                    };
                    if forgiving && absent {
                        self.cursor = self.cursor + 1;
                    } else {
                        self.failure = Some(error);
                    }
                },
            }
        }
    }

    /// The failure that stopped the plan.
    pub fn failure(&self) -> (failure: Option<GatewayError>)
        ensures
            failure == self@.failure,
    {
        self.failure
    }

    /// Whether every step has gone well.
    pub fn is_completed(&self) -> (completed: bool)
        ensures
            completed == self@.completed(),
    {
        self.failure.is_none() && self.cursor >= self.steps.len()
    }

    /// Carries the plan out on `tree`, as [`PlanView::carried_out`] says.
    pub fn carry_out(&mut self, tree: &mut MemoryHierarchy)
        requires
            old(tree).wf(),
        ensures
            final(tree).wf(),
            (final(self)@, final(tree)@) == old(self)@.carried_out(old(tree)@),
    {
        loop
            invariant
                tree.wf(),
                self@.carried_out(tree@) == old(self)@.carried_out(old(tree)@),
            decreases self@.remaining(),
        {
            match self.pending() {
                None => {
                    return ;
                },
                Some(op) => {
                    let result = match tree.perform(&op) {
                        Ok(_) => Ok(()),
                        Err(error) => Err(error),
                    };
                    self.step(result);
                },
            }
        }
    }
}

/// The steps that put the group `root_name`, directly below the top, under
/// `ceiling` and let it take single threads: clear away the group of an
/// earlier run, delegate at the top the CPU controller, then the CPU-set
/// controller, create the group, set its ceiling, make it threaded.
pub open spec fn ceiling_steps(root_name: Seq<char>, ceiling: CpuCeiling) -> Seq<StepView> {
    let top = Seq::<Seq<char>>::empty();
    let root = seq![root_name];
    seq![
        StepView { op: OpView::RemoveNode { node: root }, forgiving: true },
        StepView { op: delegate_op(top, Controller::Cpu), forgiving: false },
        StepView { op: delegate_op(top, Controller::Cpuset), forgiving: false },
        StepView { op: OpView::CreateNode { node: root }, forgiving: false },
        StepView { op: ceiling_op(root, ceiling), forgiving: false },
        StepView { op: threaded_op(root), forgiving: false },
    ]
}

/// The group and the plan that [`ceiling_steps`] describes. A name that
/// cannot name a node and a ceiling that cannot be set are refused as
/// [`GatewayError::InvalidValue`].
pub fn ceiling_plan(root_name: &str, ceiling: &CpuCeiling) -> (planned: Result<
    (HierarchyNode, Plan),
    GatewayError,
>)
    ensures
        match planned {
            Ok((root, plan)) => valid_name(root_name@) && ceiling.valid() && root@
                == seq![root_name@] && plan@ == PlanView::initial(
                ceiling_steps(root_name@, *ceiling),
            ),
            Err(error) => error == GatewayError::InvalidValue && !(valid_name(root_name@)
                && ceiling.valid()),
        },
{
    let top = HierarchyNode::root();
    let root = match top.child(root_name) {
        Some(root) => root,
        None => {
            return Err(GatewayError::InvalidValue);
        },
    };
    let cap = match set_ceiling(&root, ceiling) {
        Ok(op) => op,
        Err(error) => {
            return Err(error);
        },
    };
    let mut steps: Vec<Step> = Vec::new();
    steps.push(Step { op: destroy_group(&root), forgiving: true });
    steps.push(Step { op: delegate_one(&top, Controller::Cpu), forgiving: false });
    steps.push(Step { op: delegate_one(&top, Controller::Cpuset), forgiving: false });
    steps.push(Step { op: GatewayOp::CreateNode { node: root.clone() }, forgiving: false });
    steps.push(Step { op: cap, forgiving: false });
    steps.push(Step { op: set_threaded(&root), forgiving: false });
    assert(steps_view(steps@) =~= ceiling_steps(root_name@, *ceiling));
    Ok((root, Plan::new(steps)))
}

/// The step that removes the group at `node`, which nothing forgives.
pub open spec fn removal_steps(node: NodePath) -> Seq<StepView> {
    seq![StepView { op: OpView::RemoveNode { node }, forgiving: false }]
}

/// The plan that removes the group at `node` once its threads have ended.
pub fn removal_plan(node: &HierarchyNode) -> (plan: Plan)
    ensures
        plan@ == PlanView::initial(removal_steps(node@)),
{
    let mut steps: Vec<Step> = Vec::new();
    steps.push(Step { op: destroy_group(node), forgiving: false });
    assert(steps_view(steps@) =~= removal_steps(node@));
    Plan::new(steps)
}

/// Whether a run that one plan set up and another tore down went well:
/// both plans went through. How the single threads fared does not count.
pub fn both_completed(setup: &Plan, teardown: &Plan) -> (ok: bool)
    ensures
        ok == (setup@.completed() && teardown@.completed()),
{
    setup.is_completed() && teardown.is_completed()
}

/// On a tree whose holder may change it and on which the group is absent, or
/// present without members and children, the ceiling plan goes through: the
/// group then exists with the ceiling set, and any thread can join it.
pub proof fn ceiling_plan_goes_through(
    tree: Hierarchy,
    root_name: Seq<char>,
    ceiling: CpuCeiling,
    thread: u64,
)
    requires
        tree.wf(),
        tree.privileged,
        valid_name(root_name),
        ceiling.valid(),
        !tree.has_children(seq![root_name]),
        !tree.has_members(seq![root_name]),
    ensures
        ({
            let root = seq![root_name];
            let end = PlanView::initial(ceiling_steps(root_name, ceiling)).carried_out(tree);
            &&& end.0.completed()
            &&& end.1.wf()
            &&& end.1.has_node(root)
            &&& end.1.groups[root].threaded
            &&& end.1.groups[root].ceiling == ceiling
            &&& end.1.perform(bind_op(root, thread)).result is Ok
        }),
{
    let top = Seq::<Seq<char>>::empty();
    let root = seq![root_name];
    let steps = ceiling_steps(root_name, ceiling);
    assert(parent_path(root) =~= top);
    directive_round_trip(Controller::Cpu);
    directive_round_trip(Controller::Cpuset);
    ceiling_round_trip(ceiling);
    threaded_round_trip();
    thread_id_round_trip(thread);

    // Clearing the way goes well or finds nothing.
    let plan0 = PlanView::initial(steps);
    let cleared = tree.perform(steps[0].op);
    let plan1 = plan0.advance(done(cleared.result));
    assert(plan1 == PlanView { cursor: 1, ..plan0 });
    assert(!cleared.after.has_node(root));

    // The top can hand down every controller.
    let first = cleared.after.perform(steps[1].op);
    assert(first.result is Ok);
    let plan2 = plan1.advance(done(first.result));
    assert(plan2 == PlanView { cursor: 2, ..plan0 });
    let second = first.after.perform(steps[2].op);
    assert(second.result is Ok);
    let plan3 = plan2.advance(done(second.result));
    assert(plan3 == PlanView { cursor: 3, ..plan0 });

    // The group does not exist, and the top does.
    let created = second.after.perform(steps[3].op);
    assert(created.result is Ok);
    let plan4 = plan3.advance(done(created.result));
    assert(plan4 == PlanView { cursor: 4, ..plan0 });

    // The group can use the CPU controller, and the ceiling is valid.
    assert(created.after.available(root).contains(Controller::Cpu));
    let capped = created.after.perform(steps[4].op);
    assert(capped.result is Ok);
    let plan5 = plan4.advance(done(capped.result));
    assert(plan5 == PlanView { cursor: 5, ..plan0 });

    // A group below the top has a type.
    let threaded = capped.after.perform(steps[5].op);
    assert(threaded.result is Ok);
    let plan6 = plan5.advance(done(threaded.result));
    assert(plan6 == PlanView { cursor: 6, ..plan0 });

    assert(plan6.carried_out(threaded.after) == (plan6, threaded.after));
    assert(plan5.carried_out(capped.after) == plan6.carried_out(threaded.after));
    assert(plan4.carried_out(created.after) == plan5.carried_out(capped.after));
    assert(plan3.carried_out(second.after) == plan4.carried_out(created.after));
    assert(plan2.carried_out(first.after) == plan3.carried_out(second.after));
    assert(plan1.carried_out(cleared.after) == plan2.carried_out(first.after));
    assert(plan0.carried_out(tree) == plan1.carried_out(cleared.after));
    assert(threaded.after.available(root).contains(Controller::Cpu));
}

} // verus!
