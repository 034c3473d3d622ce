//! The benchmark run as a state machine.
//!
//! An [`Orchestrator`] never touches the tree, spawns a thread or reads a
//! clock. It names the one thing to be done next, its pending [`Action`], and
//! takes the [`Event`] that reports how that went. Whoever drives it performs
//! the action and hands back the event, until the pending action is
//! [`Action::Finish`].
//!
//! A run clears away what an earlier run of its configuration left, then
//! delegates its controllers at the top of the tree, creates its own group,
//! gives it its weight where one is configured, and delegates the
//! controllers at its own group as well: a group can use a controller only
//! where its parent hands it down, so without that second delegation no
//! subgroup could be given a weight. Then it sets up one subgroup for each
//! weight class, has the threads spawned and joined, and removes its groups
//! again.

use vstd::prelude::*;
use crate::config::{BenchmarkConfig, ConfigView};
use crate::error::GatewayError;
use crate::gateway::{GatewayOp, OpView};
use crate::manager::{
    delegate_one, delegate_op, delegate_ops, destroy_group, forgiven, set_threaded, set_weight,
    threaded_op, weight_op,
};
use crate::node::{HierarchyNode, NodePath};
use crate::report::{
    clone_errors, clone_results, results_view, BenchmarkResult, Report, ReportView, ResultView,
    WorkerOutcome,
};
use crate::text::encode_decimal;
use crate::wire::{Attribute, Controller};

verus! {

/// How far a run has come.
#[derive(Clone, Copy, Debug, PartialEq, Eq)]
pub enum Phase {
    /// Nothing is set up yet.
    Uninitialized,
    /// Groups of an earlier run are out of the way, the controllers are
    /// delegated and the run's own group exists.
    HierarchyReady,
    /// Every weight class has its subgroup, threaded and weighted.
    GroupsConfigured,
    /// The threads are spawned.
    Running,
    /// Every thread has ended and its record is taken.
    Collected,
    /// Every group of the run is removed again.
    TornDown,
    /// Setting up failed; no thread was spawned.
    Aborted,
}

/// Why the groups of the run are being removed.
#[derive(Clone, Copy, Debug, PartialEq, Eq)]
pub enum Removal {
    /// To clear away what an earlier run left behind.
    Stale,
    /// To tear down after the threads have ended.
    Final,
    /// To clean up after setting up has failed.
    Abort,
}

/// A group at which a run delegates controllers.
#[derive(Clone, Copy, Debug, PartialEq, Eq)]
pub enum Place {
    /// The top of the tree.
    Top,
    /// The run's own group.
    Root,
}

/// One of the three things done for each weight class while setting up.
#[derive(Clone, Copy, Debug, PartialEq, Eq)]
pub enum ClassStep {
    /// Create the subgroup.
    Create,
    /// Let it take single threads as members.
    Thread,
    /// Give it the weight of its class.
    Weigh,
}

/// Where exactly a run stands: what its pending action is about.
#[derive(Clone, Copy, Debug, PartialEq, Eq)]
pub enum Stage {
    /// Removing the groups of the run, subgroups first: `next` counts the
    /// subgroups already dealt with, and the run's own group comes last.
    Removing { why: Removal, next: usize },
    /// Delegating `controller` at the top of the tree or at the run's own
    /// group: one write for each controller, the CPU controller first.
    Delegating { at: Place, controller: Controller },
    /// Creating the run's own group.
    CreatingRoot,
    /// Giving the run's own group its weight, where it is configured with
    /// one.
    WeighingRoot,
    /// Setting up the subgroup of the weight class at `class`.
    Configuring { class: usize, step: ClassStep },
    /// Waiting for the threads to be spawned.
    Spawning,
    /// Waiting for the threads to end.
    Joining,
    /// Nothing is left to do.
    Finished,
}

/// What one spawned thread is to do: join the group at `node`, then run the
/// workload.
#[derive(Debug)]
pub struct WorkerTask {
    pub label: String,
    pub weight: u32,
    pub node: HierarchyNode,
}

/// The mathematical form of a [`WorkerTask`].
pub struct TaskView {
    pub label: Seq<char>,
    pub weight: u32,
    pub node: NodePath,
}

impl View for WorkerTask {
    type V = TaskView;

    open spec fn view(&self) -> TaskView {
        TaskView { label: self.label@, weight: self.weight, node: self.node@ }
    }
}

/// The mathematical form of a list of tasks.
pub open spec fn tasks_view(tasks: Seq<WorkerTask>) -> Seq<TaskView> {
    Seq::new(tasks.len(), |i: int| tasks[i]@)
}

/// What the driver of a run is to do next.
#[derive(Debug)]
pub enum Action {
    /// Perform the operation on the tree and report how it went.
    Perform(GatewayOp),
    /// Spawn one thread for each task, all of them before any is joined.
    Spawn(Vec<WorkerTask>),
    /// Wait for every spawned thread, in the order of spawning.
    Join,
    /// Stop: the run is over and this is its report.
    Finish(Report),
}

/// The mathematical form of an [`Action`].
pub enum ActionView {
    Perform(OpView),
    Spawn(Seq<TaskView>),
    Join,
    Finish(ReportView),
}

impl View for Action {
    type V = ActionView;

    open spec fn view(&self) -> ActionView {
        match self {
            Action::Perform(op) => ActionView::Perform(op@),
            Action::Spawn(tasks) => ActionView::Spawn(tasks_view(tasks@)),
            Action::Join => ActionView::Join,
            Action::Finish(report) => ActionView::Finish(report@),
        }
    }
}

/// What the driver of a run reports back.
#[derive(Debug)]
pub enum Event {
    /// The operation was performed, with this result.
    Performed(Result<(), GatewayError>),
    /// The threads are spawned.
    Spawned,
    /// The threads have ended; one outcome for each, in the order of
    /// spawning.
    Joined(Vec<WorkerOutcome>),
}

/// The mathematical form of an [`Event`].
pub enum EventView {
    Performed(Result<(), GatewayError>),
    Spawned,
    Joined(Seq<WorkerOutcome>),
}

impl View for Event {
    type V = EventView;

    open spec fn view(&self) -> EventView {
        match self {
            Event::Performed(result) => EventView::Performed(*result),
            Event::Spawned => EventView::Spawned,
            Event::Joined(outcomes) => EventView::Joined(outcomes@),
        }
    }
}

/// The mathematical form of an [`Orchestrator`]: one state of a run.
pub struct RunView {
    pub config: ConfigView,
    pub stage: Stage,
    /// The records taken when the threads ended; empty before.
    pub results: Seq<ResultView>,
    /// The failure that stopped the setting up.
    pub setup_error: Option<GatewayError>,
    /// The failures met while tearing down.
    pub teardown_errors: Seq<GatewayError>,
}

impl RunView {
    /// A run that has not begun: it starts by clearing away what an earlier
    /// run left behind.
    pub open spec fn initial(config: ConfigView) -> RunView {
        RunView {
            config,
            stage: Stage::Removing { why: Removal::Stale, next: 0 },
            results: Seq::empty(),
            setup_error: None,
            teardown_errors: Seq::empty(),
        }
    }

    /// Whether the stage points at something that the configuration has: a
    /// weight class, or the run's own group behind the last of them; a
    /// controller that is to be delegated; a weight for the run's own group.
    pub open spec fn stage_valid(self) -> bool {
        self.config.classes.len() <= usize::MAX && match self.stage {
            Stage::Removing { next, .. } => next <= self.config.classes.len(),
            Stage::Configuring { class, .. } => class < self.config.classes.len(),
            Stage::Delegating { controller, .. } => self.config.controllers.contains(controller),
            Stage::WeighingRoot => self.config.root_weight is Some,
            _ => true,
        }
    }

    /// The phase that the stage belongs to.
    pub open spec fn phase(self) -> Phase {
        match self.stage {
            Stage::Removing { why: Removal::Stale, .. } => Phase::Uninitialized,
            Stage::Removing { why: Removal::Final, .. } => Phase::Collected,
            Stage::Removing { why: Removal::Abort, .. } => Phase::Aborted,
            Stage::Delegating { .. } => Phase::Uninitialized,
            Stage::CreatingRoot => Phase::Uninitialized,
            Stage::WeighingRoot => Phase::Uninitialized,
            Stage::Configuring { .. } => Phase::HierarchyReady,
            Stage::Spawning => Phase::GroupsConfigured,
            Stage::Joining => Phase::Running,
            Stage::Finished => if self.setup_error is Some {
                Phase::Aborted
            } else if self.teardown_errors.len() > 0 {
                Phase::Collected
            } else {
                Phase::TornDown
            },
        }
    }

    /// The group that a removal at `next` is about.
    pub open spec fn removal_target(self, next: usize) -> NodePath {
        if next < self.config.classes.len() {
            self.config.class_node(next as int)
        } else {
            self.config.root_node()
        }
    }

    /// The tasks of the threads, one for each weight class.
    pub open spec fn tasks(self) -> Seq<TaskView> {
        Seq::new(
            self.config.classes.len(),
            |i: int|
                TaskView {
                    label: self.config.classes[i].label,
                    weight: self.config.classes[i].weight,
                    node: self.config.class_node(i),
                },
        )
    }

    /// What the run reports as it stands.
    pub open spec fn report(self) -> ReportView {
        ReportView {
            results: self.results,
            setup_error: self.setup_error,
            teardown_errors: self.teardown_errors,
        }
    }

    /// The operation that setting up the class at `class` asks for at `step`.
    pub open spec fn class_op(self, class: usize, step: ClassStep) -> OpView {
        let node = self.config.class_node(class as int);
        match step {
            ClassStep::Create => OpView::CreateNode { node },
            ClassStep::Thread => threaded_op(node),
            ClassStep::Weigh => weight_op(node, self.config.classes[class as int].weight),
        }
    }

    /// The group that a delegation at `at` is written to.
    pub open spec fn place_node(self, at: Place) -> NodePath {
        match at {
            Place::Top => Seq::empty(),
            Place::Root => self.config.root_node(),
        }
    }

    /// The stage that follows the delegations at `at`.
    pub open spec fn after_delegation(self, at: Place) -> Stage {
        match at {
            Place::Top => Stage::CreatingRoot,
            Place::Root => self.after_root(),
        }
    }

    /// The stage at which the delegations at `at` begin: with the first
    /// controller that is to be delegated, the CPU controller before the
    /// CPU-set controller.
    pub open spec fn delegation(self, at: Place) -> Stage {
        if self.config.controllers.contains(Controller::Cpu) {
            Stage::Delegating { at, controller: Controller::Cpu }
        } else if self.config.controllers.contains(Controller::Cpuset) {
            Stage::Delegating { at, controller: Controller::Cpuset }
        } else {
            self.after_delegation(at)
        }
    }

    /// The stage that follows the delegation of `controller` at `at`.
    pub open spec fn after_delegated(self, at: Place, controller: Controller) -> Stage {
        match controller {
            Controller::Cpu => if self.config.controllers.contains(Controller::Cpuset) {
                Stage::Delegating { at, controller: Controller::Cpuset }
            } else {
                self.after_delegation(at)
            },
            Controller::Cpuset => self.after_delegation(at),
        }
    }

    /// The operations of the delegations at `at`, in the order in which the
    /// run asks for them.
    pub open spec fn delegation_ops(self, at: Place) -> Seq<OpView> {
        match self.delegation(at) {
            Stage::Delegating { controller: first, .. } => seq![
                delegate_op(self.place_node(at), first),
            ] + match self.after_delegated(at, first) {
                Stage::Delegating { controller: second, .. } => seq![
                    delegate_op(self.place_node(at), second),
                ],
                _ => Seq::empty(),
            },
            _ => Seq::empty(),
        }
    }

    /// The stage that follows the creation of the run's own group.
    pub open spec fn after_created(self) -> Stage {
        if self.config.root_weight is Some {
            Stage::WeighingRoot
        } else {
            self.delegation(Place::Root)
        }
    }

    /// What is to be done next.
    pub open spec fn pending(self) -> ActionView {
        match self.stage {
            Stage::Removing { next, .. } => ActionView::Perform(
                OpView::RemoveNode { node: self.removal_target(next) },
            ),
            Stage::Delegating { at, controller } => ActionView::Perform(
                delegate_op(self.place_node(at), controller),
            ),
            Stage::CreatingRoot => ActionView::Perform(
                OpView::CreateNode { node: self.config.root_node() },
            ),
            Stage::WeighingRoot => ActionView::Perform(
                weight_op(self.config.root_node(), self.config.root_weight.unwrap()),
            ),
            Stage::Configuring { class, step } => ActionView::Perform(self.class_op(class, step)),
            Stage::Spawning => ActionView::Spawn(self.tasks()),
            Stage::Joining => ActionView::Join,
            Stage::Finished => ActionView::Finish(self.report()),
        }
    }

    /// The stage that follows the removal at `next`.
    pub open spec fn after_removal(self, why: Removal, next: usize) -> Stage {
        if next < self.config.classes.len() {
            Stage::Removing { why, next: (next + 1) as usize }
        } else {
            match why {
                Removal::Stale => self.delegation(Place::Top),
                Removal::Final => Stage::Finished,
                Removal::Abort => Stage::Finished,
            }
        }
    }

    /// The stage that follows `step` of the class at `class`.
    pub open spec fn after_class(self, class: usize, step: ClassStep) -> Stage {
        match step {
            ClassStep::Create => Stage::Configuring { class, step: ClassStep::Thread },
            ClassStep::Thread => Stage::Configuring { class, step: ClassStep::Weigh },
            ClassStep::Weigh => if class + 1 < self.config.classes.len() {
                Stage::Configuring { class: (class + 1) as usize, step: ClassStep::Create }
            } else {
                Stage::Spawning
            },
        }
    }

    /// The stage that follows the delegation at the run's own group.
    pub open spec fn after_root(self) -> Stage {
        if self.config.classes.len() > 0 {
            Stage::Configuring { class: 0, step: ClassStep::Create }
        } else {
            Stage::Spawning
        }
    }

    /// The run at another stage.
    pub open spec fn at(self, stage: Stage) -> RunView {
        RunView { stage, ..self }
    }

    /// The run once setting up has failed with `error`: it cleans up what it
    /// may have created and spawns nothing.
    pub open spec fn aborted(self, error: GatewayError) -> RunView {
        RunView {
            stage: Stage::Removing { why: Removal::Abort, next: 0 },
            setup_error: Some(error),
            ..self
        }
    }

    /// The run once a step of setting up has been performed: on to `next`
    /// where it went well, aborted where it did not.
    pub open spec fn after_setup(self, result: Result<(), GatewayError>, next: Stage) -> RunView {
        match result {
            Ok(_) => self.at(next),
            Err(error) => self.aborted(error),
        }
    }

    /// The records of the threads: label and weight of each class with the
    /// outcome of its thread.
    pub open spec fn records(self, outcomes: Seq<WorkerOutcome>) -> Seq<ResultView> {
        Seq::new(
            self.config.classes.len(),
            |i: int|
                ResultView {
                    label: self.config.classes[i].label,
                    weight: self.config.classes[i].weight,
                    outcome: outcomes[i],
                },
        )
    }

    /// The run once a removal has been performed.
    pub open spec fn after_removed(self, why: Removal, next: usize, result: Result<
        (),
        GatewayError,
    >) -> RunView {
        match why {
            Removal::Stale => match forgiven(result) {
                Ok(_) => self.at(self.after_removal(why, next)),
                Err(error) => RunView {
                    stage: Stage::Finished,
                    setup_error: Some(error),
                    ..self
                },
            },
            Removal::Final => RunView {
                stage: self.after_removal(why, next),
                teardown_errors: match result {
                    Ok(_) => self.teardown_errors,
                    Err(error) => self.teardown_errors.push(error),
                },
                ..self
            },
            Removal::Abort => self.at(self.after_removal(why, next)),
        }
    }

    /// The run once `event` is taken. An event that does not answer the
    /// pending action changes nothing.
    pub open spec fn advance(self, event: EventView) -> RunView {
        match (self.stage, event) {
            (Stage::Removing { why, next }, EventView::Performed(result)) => self.after_removed(
                why,
                next,
                result,
            ),
            (Stage::Delegating { at, controller }, EventView::Performed(result)) => {
                self.after_setup(result, self.after_delegated(at, controller))
            },
            (Stage::CreatingRoot, EventView::Performed(result)) => self.after_setup(
                result,
                self.after_created(),
            ),
            (Stage::WeighingRoot, EventView::Performed(result)) => self.after_setup(
                result,
                self.delegation(Place::Root),
            ),
            (Stage::Configuring { class, step }, EventView::Performed(result)) => self.after_setup(
                result,
                self.after_class(class, step),
            ),
            (Stage::Spawning, EventView::Spawned) => self.at(Stage::Joining),
            (Stage::Joining, EventView::Joined(outcomes)) => if outcomes.len()
                == self.config.classes.len() {
                RunView {
                    stage: Stage::Removing { why: Removal::Final, next: 0 },
                    results: self.records(outcomes),
                    ..self
                }
            } else {
                self
            },
            _ => self,
        }
    }

    /// Whether `event` answers the pending action.
    pub open spec fn answers(self, event: EventView) -> bool {
        match (self.stage, event) {
            (Stage::Removing { .. }, EventView::Performed(_)) => true,
            (Stage::Delegating { .. }, EventView::Performed(_)) => true,
            (Stage::CreatingRoot, EventView::Performed(_)) => true,
            (Stage::WeighingRoot, EventView::Performed(_)) => true,
            (Stage::Configuring { .. }, EventView::Performed(_)) => true,
            (Stage::Spawning, EventView::Spawned) => true,
            (Stage::Joining, EventView::Joined(outcomes)) => outcomes.len()
                == self.config.classes.len(),
            _ => false,
        }
    }

    /// An upper bound on the events the run still takes before it is
    /// finished.
    pub open spec fn remaining(self) -> nat {
        let n = self.config.classes.len();
        match self.stage {
            Stage::Finished => 0,
            Stage::Removing { why: Removal::Stale, next } => (5 * n + 10 - next) as nat,
            Stage::Removing { next, .. } => (n + 1 - next) as nat,
            Stage::Joining => n + 2,
            Stage::Spawning => n + 3,
            Stage::Configuring { class, step } => (4 * n + 3 - 3 * class - match step {
                ClassStep::Create => 0int,
                ClassStep::Thread => 1int,
                ClassStep::Weigh => 2int,
            }) as nat,
            Stage::Delegating { at: Place::Root, controller: Controller::Cpuset } => 4 * n + 4,
            Stage::Delegating { at: Place::Root, controller: Controller::Cpu } => 4 * n + 5,
            Stage::WeighingRoot => 4 * n + 6,
            Stage::CreatingRoot => 4 * n + 7,
            Stage::Delegating { at: Place::Top, controller: Controller::Cpuset } => 4 * n + 8,
            Stage::Delegating { at: Place::Top, controller: Controller::Cpu } => 4 * n + 9,
        }
    }
}

/// Every event that answers the pending action brings the run closer to its
/// end and keeps its stage valid; every other event changes nothing.
pub proof fn advance_makes_progress(run: RunView, event: EventView)
    requires
        run.stage_valid(),
    ensures
        run.advance(event).stage_valid(),
        run.advance(event).config == run.config,
        run.answers(event) ==> run.advance(event).remaining() < run.remaining(),
        !run.answers(event) ==> run.advance(event) == run,
{
}

/// A run is finished exactly when no event is left to take.
pub proof fn finished_means_nothing_remains(run: RunView)
    requires
        run.stage_valid(),
    ensures
        (run.stage == Stage::Finished) == (run.remaining() == 0),
        (run.stage == Stage::Finished) == (run.pending() is Finish),
{
}

/// The place of a phase in the order in which a run passes through them. A
/// run ends torn down or aborted, never both.
pub open spec fn phase_rank(phase: Phase) -> nat {
    match phase {
        Phase::Uninitialized => 0,
        Phase::HierarchyReady => 1,
        Phase::GroupsConfigured => 2,
        Phase::Running => 3,
        Phase::Collected => 4,
        Phase::TornDown => 5,
        Phase::Aborted => 5,
    }
}

impl RunView {
    /// What holds of every state that a run passes through: the stage is
    /// valid; a failure of the setting up is on record exactly while the run
    /// cleans up after it and once it has finished that way; and failures of
    /// the tearing down are on record only in a run that got that far.
    pub open spec fn coherent(self) -> bool {
        &&& self.stage_valid()
        &&& self.setup_error is Some ==> (self.stage matches Stage::Removing {
            why: Removal::Abort,
            ..
        }) || self.stage == Stage::Finished
        &&& (self.stage matches Stage::Removing { why: Removal::Abort, .. })
            ==> self.setup_error is Some
        &&& self.teardown_errors.len() > 0 ==> self.setup_error is None && ((
        self.stage matches Stage::Removing { why: Removal::Final, .. }) || self.stage
            == Stage::Finished)
    }
}

/// A run that has not begun is coherent, and no event makes a coherent run
/// incoherent.
pub proof fn runs_stay_coherent(run: RunView, event: EventView)
    requires
        run.coherent(),
    ensures
        RunView::initial(run.config).stage_valid() ==> RunView::initial(run.config).coherent(),
        run.advance(event).coherent(),
{
}

/// No thread is spawned or waited for once the setting up has failed: a run
/// with such a failure on record only removes groups or is finished.
pub proof fn no_thread_after_failed_setup(run: RunView)
    requires
        run.coherent(),
        run.setup_error is Some,
    ensures
        run.phase() == Phase::Aborted,
        (run.pending() matches ActionView::Perform(OpView::RemoveNode { .. }))
            || run.pending() is Finish,
{
}

/// A run never falls back to an earlier phase, and it is aborted only from a
/// phase in which no thread was spawned yet.
pub proof fn phases_only_advance(run: RunView, event: EventView)
    requires
        run.coherent(),
    ensures
        phase_rank(run.advance(event).phase()) >= phase_rank(run.phase()),
        run.advance(event).phase() == Phase::Aborted ==> run.phase() == Phase::Aborted
            || run.phase() == Phase::Uninitialized || run.phase() == Phase::HierarchyReady,
        run.phase() == Phase::TornDown || run.phase() == Phase::Aborted ==> run.advance(
            event,
        ).phase() == run.phase(),
{
}

/// At the top of the tree and at its own group, a run writes what
/// [`crate::manager::delegate`] writes for the controllers of the run: one
/// directive for each of them, the CPU controller first.
pub proof fn run_delegates_as_delegate_does(run: RunView, at: Place)
    ensures
        run.delegation_ops(at) == delegate_ops(run.place_node(at), run.config.controllers),
{
    assert(run.delegation_ops(at) =~= delegate_ops(
        run.place_node(at),
        run.config.controllers,
    ));
}

/// The thread of a weight class is told to join the very group that is
/// created, made threaded and weighted for that class, and it carries the
/// label and the weight of the class.
pub proof fn threads_join_their_own_groups(run: RunView, class: usize)
    requires
        class < run.config.classes.len(),
    ensures
        run.tasks()[class as int].node == run.config.class_node(class as int),
        run.tasks()[class as int].label == run.config.classes[class as int].label,
        run.tasks()[class as int].weight == run.config.classes[class as int].weight,
        run.class_op(class, ClassStep::Create).target() == run.tasks()[class as int].node,
        run.class_op(class, ClassStep::Thread).target() == run.tasks()[class as int].node,
        run.class_op(class, ClassStep::Weigh) == weight_op(
            run.tasks()[class as int].node,
            run.tasks()[class as int].weight,
        ),
{
}

/// When the threads have ended, every weight class gets its record, with
/// the outcome of its own thread, whatever that outcome is.
pub proof fn every_thread_is_recorded(run: RunView, outcomes: Seq<WorkerOutcome>)
    requires
        run.stage == Stage::Joining,
        outcomes.len() == run.config.classes.len(),
    ensures
        run.advance(EventView::Joined(outcomes)).phase() == Phase::Collected,
        run.advance(EventView::Joined(outcomes)).results.len() == run.config.classes.len(),
        forall|i: int|
            0 <= i < run.config.classes.len() ==> #[trigger] run.advance(
                EventView::Joined(outcomes),
            ).results[i] == (ResultView {
                label: run.config.classes[i].label,
                weight: run.config.classes[i].weight,
                outcome: outcomes[i],
            }),
{
}

/// One benchmark run.
#[derive(Debug)]
pub struct Orchestrator {
    config: BenchmarkConfig,
    stage: Stage,
    results: Vec<BenchmarkResult>,
    setup_error: Option<GatewayError>,
    teardown_errors: Vec<GatewayError>,
}

impl View for Orchestrator {
    type V = RunView;

    closed spec fn view(&self) -> RunView {
        RunView {
            config: self.config@,
            stage: self.stage,
            results: results_view(self.results@),
            setup_error: self.setup_error,
            teardown_errors: self.teardown_errors@,
        }
    }
}

impl Orchestrator {
    /// What every run built by [`Orchestrator::new`] satisfies at every
    /// moment: its configuration is valid and its state is coherent.
    pub closed spec fn wf(&self) -> bool {
        self.config.wf() && self@.coherent()
    }

    /// A run is well formed only with a valid configuration, in a coherent
    /// state.
    pub proof fn wf_state(&self)
        requires
            self.wf(),
        ensures
            self@.config.valid(),
            self@.stage_valid(),
            self@.coherent(),
    {
        self.config.wf_valid();
    }

    /// A run of `config` that has not begun.
    pub fn new(config: BenchmarkConfig) -> (run: Self)
        requires
            config.wf(),
        ensures
            run.wf(),
            run@ == RunView::initial(config@),
    {
        proof {
            config.wf_valid();
        }
        let run = Orchestrator {
            config,
            stage: Stage::Removing { why: Removal::Stale, next: 0 },
            results: Vec::new(),
            setup_error: None,
            teardown_errors: Vec::new(),
        };
        assert(run@.results =~= Seq::<ResultView>::empty());
        run
    }

    /// Where exactly the run stands.
    pub fn stage(&self) -> (stage: Stage)
        ensures
            stage == self@.stage,
    {
        self.stage
    }

    /// How far the run has come.
    pub fn phase(&self) -> (phase: Phase)
        ensures
            phase == self@.phase(),
    {
        match self.stage {
            Stage::Removing { why: Removal::Stale, .. } => Phase::Uninitialized,
            Stage::Removing { why: Removal::Final, .. } => Phase::Collected,
            Stage::Removing { why: Removal::Abort, .. } => Phase::Aborted,
            Stage::Delegating { .. } => Phase::Uninitialized,
            Stage::CreatingRoot => Phase::Uninitialized,
            Stage::WeighingRoot => Phase::Uninitialized,
            Stage::Configuring { .. } => Phase::HierarchyReady,
            Stage::Spawning => Phase::GroupsConfigured,
            Stage::Joining => Phase::Running,
            Stage::Finished => if self.setup_error.is_some() {
                Phase::Aborted
            } else if self.teardown_errors.len() > 0 {
                Phase::Collected
            } else {
                Phase::TornDown
            },
        }
    }

    /// Whether nothing is left to do.
    pub fn is_finished(&self) -> (finished: bool)
        ensures
            finished == (self@.stage == Stage::Finished),
    {
        match self.stage {
            Stage::Finished => true,
            _ => false,
        }
    }

    /// The configuration the run was made with.
    pub fn config(&self) -> (config: &BenchmarkConfig)
        ensures
            config@ == self@.config,
            self.wf() ==> config.wf(),
    {
        &self.config
    }

    fn tasks(&self) -> (tasks: Vec<WorkerTask>)
        requires
            self.wf(),
        ensures
            tasks_view(tasks@) == self@.tasks(),
    {
        let mut tasks: Vec<WorkerTask> = Vec::new();
        let mut i: usize = 0;
        while i < self.config.class_count()
            invariant
                self.wf(),
                i <= self@.config.classes.len(),
                tasks@.len() == i,
                forall|k: int| 0 <= k < i ==> (#[trigger] tasks@[k])@ == self@.tasks()[k],
            decreases self@.config.classes.len() - i,
        {
            let class = self.config.class(i);
            tasks.push(
                WorkerTask {
                    label: class.label.clone(),
                    weight: class.weight,
                    node: self.config.class_node(i).clone(),
                },
            );
            i += 1;
        }
        tasks
    }

    fn report(&self) -> (report: Report)
        ensures
            report@ == self@.report(),
    {
        Report {
            results: clone_results(&self.results),
            setup_error: self.setup_error,
            teardown_errors: clone_errors(&self.teardown_errors),
        }
    }

    /// What is to be done next, as [`RunView::pending`] says.
    pub fn pending(&self) -> (action: Action)
        requires
            self.wf(),
        ensures
            action@ == self@.pending(),
    {
        proof {
            self.config.wf_valid();
        }
        match self.stage {
            Stage::Removing { why, next } => {
                if next < self.config.class_count() {
                    Action::Perform(destroy_group(self.config.class_node(next)))
                } else {
                    Action::Perform(destroy_group(self.config.root()))
                }
            },
            Stage::Delegating { at, controller } => match at {
                Place::Top => Action::Perform(delegate_one(&HierarchyNode::root(), controller)),
                Place::Root => Action::Perform(delegate_one(self.config.root(), controller)),
            },
            Stage::CreatingRoot => Action::Perform(
                GatewayOp::CreateNode { node: self.config.root().clone() },
            ),
            Stage::WeighingRoot => match self.config.root_weight() {
                Some(weight) => Action::Perform(
                    GatewayOp::Write {
                        node: self.config.root().clone(),
                        attribute: Attribute::CpuWeight,
                        value: encode_decimal(weight as u64),
                    },
                ),
                None => vstd::pervasive::unreached(),
            },
            Stage::Configuring { class, step } => {
                let node = self.config.class_node(class);
                match step {
                    ClassStep::Create => Action::Perform(
                        GatewayOp::CreateNode { node: node.clone() },
                    ),
                    ClassStep::Thread => Action::Perform(set_threaded(node)),
                    ClassStep::Weigh => {
                        match set_weight(node, self.config.class(class)) {
                            Ok(op) => Action::Perform(op),
                            Err(_) => vstd::pervasive::unreached(),
                        }
                    },
                }
            },
            Stage::Spawning => Action::Spawn(self.tasks()),
            Stage::Joining => Action::Join,
            Stage::Finished => Action::Finish(self.report()),
        }
    }

    fn after_root(&self) -> (stage: Stage)
        ensures
            stage == self@.after_root(),
    {
        if self.config.class_count() > 0 {
            Stage::Configuring { class: 0, step: ClassStep::Create }
        } else {
            Stage::Spawning
        }
    }

    fn after_delegation(&self, at: Place) -> (stage: Stage)
        ensures
            stage == self@.after_delegation(at),
    {
        match at {
            Place::Top => Stage::CreatingRoot,
            Place::Root => self.after_root(),
        }
    }

    fn delegation(&self, at: Place) -> (stage: Stage)
        ensures
            stage == self@.delegation(at),
    {
        if self.config.controllers().contains(Controller::Cpu) {
            Stage::Delegating { at, controller: Controller::Cpu }
        } else if self.config.controllers().contains(Controller::Cpuset) {
            Stage::Delegating { at, controller: Controller::Cpuset }
        } else {
            self.after_delegation(at)
        }
    }

    fn after_delegated(&self, at: Place, controller: Controller) -> (stage: Stage)
        ensures
            stage == self@.after_delegated(at, controller),
    {
        match controller {
            Controller::Cpu => if self.config.controllers().contains(Controller::Cpuset) {
                Stage::Delegating { at, controller: Controller::Cpuset }
            } else {
                self.after_delegation(at)
            },
            Controller::Cpuset => self.after_delegation(at),
        }
    }

    fn after_created(&self) -> (stage: Stage)
        ensures
            stage == self@.after_created(),
    {
        if self.config.root_weight().is_some() {
            Stage::WeighingRoot
        } else {
            self.delegation(Place::Root)
        }
    }

    fn after_removal(&self, why: Removal, next: usize) -> (stage: Stage)
        requires
            next <= self@.config.classes.len(),
        ensures
            stage == self@.after_removal(why, next),
    {
        if next < self.config.class_count() {
            Stage::Removing { why, next: next + 1 }
        } else {
            match why {
                Removal::Stale => self.delegation(Place::Top),
                Removal::Final => Stage::Finished,
                Removal::Abort => Stage::Finished,
            }
        }
    }

    /// Whether `event` answers the pending action, as [`RunView::answers`]
    /// says. An event that does not is dropped by [`Orchestrator::step`].
    pub fn answers(&self, event: &Event) -> (answered: bool)
        ensures
            answered == self@.answers(event@),
    {
        match (self.stage, event) {
            (Stage::Removing { .. }, Event::Performed(_)) => true,
            (Stage::Delegating { .. }, Event::Performed(_)) => true,
            (Stage::CreatingRoot, Event::Performed(_)) => true,
            (Stage::WeighingRoot, Event::Performed(_)) => true,
            (Stage::Configuring { .. }, Event::Performed(_)) => true,
            (Stage::Spawning, Event::Spawned) => true,
            (Stage::Joining, Event::Joined(outcomes)) => outcomes.len()
                == self.config.class_count(),
            _ => false,
        }
    }

    fn after_class(&self, class: usize, step: ClassStep) -> (stage: Stage)
        requires
            class < self@.config.classes.len(),
        ensures
            stage == self@.after_class(class, step),
    {
        let count: usize = self.config.class_count();
        match step {
            ClassStep::Create => Stage::Configuring { class, step: ClassStep::Thread },
            ClassStep::Thread => Stage::Configuring { class, step: ClassStep::Weigh },
            ClassStep::Weigh => if class + 1 < count {
                Stage::Configuring { class: class + 1, step: ClassStep::Create }
            } else {
                Stage::Spawning
            },
        }
    }

    fn setup_step(&mut self, result: Result<(), GatewayError>, next: Stage)
        ensures
            final(self).config == old(self).config,
            final(self)@ == old(self)@.after_setup(result, next),
    {
        match result {
            Ok(_) => {
                self.stage = next;
            },
            Err(error) => {
                self.stage = Stage::Removing { why: Removal::Abort, next: 0 };
                self.setup_error = Some(error);
            },
        }
    }

    fn record(&mut self, outcomes: &Vec<WorkerOutcome>)
        requires
            outcomes@.len() == old(self)@.config.classes.len(),
        ensures
            final(self).config == old(self).config,
            final(self)@ == (RunView {
                stage: Stage::Removing { why: Removal::Final, next: 0 },
                results: old(self)@.records(outcomes@),
                ..old(self)@
            }),
    {
        let mut results: Vec<BenchmarkResult> = Vec::new();
        let mut i: usize = 0;
        while i < outcomes.len()
            invariant
                outcomes@.len() == self@.config.classes.len(),
                i <= outcomes@.len(),
                results@.len() == i,
                forall|k: int|
                    0 <= k < i ==> (#[trigger] results@[k])@ == self@.records(outcomes@)[k],
            decreases outcomes@.len() - i,
        {
            let class = self.config.class(i);
            results.push(
                BenchmarkResult {
                    label: class.label.clone(),
                    weight: class.weight,
                    outcome: outcomes[i],
                },
            );
            i += 1;
        }
        assert(results_view(results@) =~= self@.records(outcomes@));
        self.results = results;
        self.stage = Stage::Removing { why: Removal::Final, next: 0 };
    }

    /// Takes `event`, as [`RunView::advance`] says.
    pub fn step(&mut self, event: Event)
        requires
            old(self).wf(),
        ensures
            final(self).wf(),
            final(self)@ == old(self)@.advance(event@),
    {
        match (self.stage, event) {
            (Stage::Removing { why, next }, Event::Performed(result)) => {
                let following = self.after_removal(why, next);
                match why {
                    Removal::Stale => {
                        match result {
                            Ok(_) => {
                                self.stage = following;
                            },
                            Err(GatewayError::NotFound) => {
                                self.stage = following;
                            },
                            Err(error) => {
                                self.stage = Stage::Finished;
                                self.setup_error = Some(error);
                            },
                        }
                    },
                    Removal::Final => {
                        self.stage = following;
                        match result {
                            Ok(_) => {},
                            Err(error) => {
                                self.teardown_errors.push(error);
                            },
                        }
                    },
                    Removal::Abort => {
                        self.stage = following;
                    },
                }
            },
            (Stage::Delegating { at, controller }, Event::Performed(result)) => {
                let following = self.after_delegated(at, controller);
                self.setup_step(result, following);
            },
            (Stage::CreatingRoot, Event::Performed(result)) => {
                let following = self.after_created();
                self.setup_step(result, following);
            },
            (Stage::WeighingRoot, Event::Performed(result)) => {
                let following = self.delegation(Place::Root);
                self.setup_step(result, following);
            },
            (Stage::Configuring { class, step }, Event::Performed(result)) => {
                let following = self.after_class(class, step);
                self.setup_step(result, following);
            },
            (Stage::Spawning, Event::Spawned) => {
                self.stage = Stage::Joining;
            },
            (Stage::Joining, Event::Joined(outcomes)) => {
                if outcomes.len() == self.config.class_count() {
                    self.record(&outcomes);
                }
            },
            _ => {},
        }
    }
}

} // verus!
