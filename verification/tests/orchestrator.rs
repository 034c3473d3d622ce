use cgroup_harness::config::BenchmarkConfig;
use cgroup_harness::error::GatewayError;
use cgroup_harness::gateway::GatewayOp;
use cgroup_harness::manager::WeightClass;
use cgroup_harness::orchestrator::{
    Action, ClassStep, Event, Orchestrator, Phase, Place, Removal, Stage,
};
use cgroup_harness::report::{Report, WorkerOutcome};
use cgroup_harness::wire::{Attribute, Controller};

const MOUNT: &str = "/sys/fs/cgroup";

fn two_classes() -> Orchestrator {
    let classes = vec![WeightClass::new("A", 10), WeightClass::new("B", 30)];
    Orchestrator::new(BenchmarkConfig::new("my_cgroup", classes, false).unwrap())
}

/// The pending operation in a line of text: what it does, where, and with
/// which value.
fn pending_op(run: &Orchestrator) -> String {
    match run.pending() {
        Action::Perform(GatewayOp::RemoveNode { node }) => format!("remove {}", node.render(MOUNT)),
        Action::Perform(GatewayOp::CreateNode { node }) => format!("create {}", node.render(MOUNT)),
        Action::Perform(GatewayOp::Write { node, attribute, value }) => format!(
            "write {}/{} {}",
            node.render(MOUNT),
            attribute.file_name(),
            String::from_utf8(value).unwrap()
        ),
        Action::Perform(GatewayOp::Read { node, attribute }) => {
            format!("read {}/{}", node.render(MOUNT), attribute.file_name())
        }
        Action::Spawn(tasks) => format!("spawn {}", tasks.len()),
        Action::Join => "join".to_string(),
        Action::Finish(_) => "finish".to_string(),
    }
}

fn ok(run: &mut Orchestrator) {
    run.step(Event::Performed(Ok(())));
}

fn fail(run: &mut Orchestrator, error: GatewayError) {
    run.step(Event::Performed(Err(error)));
}

fn finish(run: &Orchestrator) -> Report {
    match run.pending() {
        Action::Finish(report) => report,
        other => panic!("not finished: {:?}", other),
    }
}

/// Drives the run through clearing and setting up, every operation going
/// well, and leaves it waiting for the threads to be spawned.
fn set_up(run: &mut Orchestrator) {
    while run.phase() == Phase::Uninitialized || run.phase() == Phase::HierarchyReady {
        ok(run);
    }
    assert_eq!(run.stage(), Stage::Spawning);
}

#[test]
fn a_run_walks_through_its_operations_in_order() {
    let mut run = two_classes();
    let expected = [
        ("remove /sys/fs/cgroup/my_cgroup/thread_A", Phase::Uninitialized),
        ("remove /sys/fs/cgroup/my_cgroup/thread_B", Phase::Uninitialized),
        ("remove /sys/fs/cgroup/my_cgroup", Phase::Uninitialized),
        ("write /sys/fs/cgroup/cgroup.subtree_control +cpu\n", Phase::Uninitialized),
        ("create /sys/fs/cgroup/my_cgroup", Phase::Uninitialized),
        ("write /sys/fs/cgroup/my_cgroup/cgroup.subtree_control +cpu\n", Phase::Uninitialized),
        ("create /sys/fs/cgroup/my_cgroup/thread_A", Phase::HierarchyReady),
        ("write /sys/fs/cgroup/my_cgroup/thread_A/cgroup.type threaded", Phase::HierarchyReady),
        ("write /sys/fs/cgroup/my_cgroup/thread_A/cpu.weight 10", Phase::HierarchyReady),
        ("create /sys/fs/cgroup/my_cgroup/thread_B", Phase::HierarchyReady),
        ("write /sys/fs/cgroup/my_cgroup/thread_B/cgroup.type threaded", Phase::HierarchyReady),
        ("write /sys/fs/cgroup/my_cgroup/thread_B/cpu.weight 30", Phase::HierarchyReady),
    ];
    for (op, phase) in expected {
        assert_eq!(pending_op(&run), op);
        assert_eq!(run.phase(), phase);
        assert!(!run.is_finished());
        ok(&mut run);
    }
    assert_eq!(pending_op(&run), "spawn 2");
    assert_eq!(run.phase(), Phase::GroupsConfigured);
    run.step(Event::Spawned);
    assert_eq!(pending_op(&run), "join");
    assert_eq!(run.phase(), Phase::Running);
    run.step(Event::Joined(vec![
        WorkerOutcome::Completed { elapsed_nanos: 3000 },
        WorkerOutcome::Completed { elapsed_nanos: 1000 },
    ]));
    let teardown = [
        "remove /sys/fs/cgroup/my_cgroup/thread_A",
        "remove /sys/fs/cgroup/my_cgroup/thread_B",
        "remove /sys/fs/cgroup/my_cgroup",
    ];
    for op in teardown {
        assert_eq!(pending_op(&run), op);
        assert_eq!(run.phase(), Phase::Collected);
        ok(&mut run);
    }
    assert_eq!(pending_op(&run), "finish");
    assert_eq!(run.phase(), Phase::TornDown);
    assert!(run.is_finished());
    let report = finish(&run);
    assert!(report.succeeded());
    assert_eq!(report.setup_error, None);
    assert!(report.teardown_errors.is_empty());
    assert_eq!(report.results.len(), 2);
    assert_eq!(report.results[0].label, "A");
    assert_eq!(report.results[0].weight, 10);
    assert_eq!(report.results[0].outcome, WorkerOutcome::Completed { elapsed_nanos: 3000 });
    assert_eq!(report.results[1].label, "B");
    assert_eq!(report.results[1].weight, 30);
    assert_eq!(report.results[1].outcome, WorkerOutcome::Completed { elapsed_nanos: 1000 });
}

#[test]
fn the_stage_says_where_the_run_stands() {
    let mut run = two_classes();
    assert_eq!(run.stage(), Stage::Removing { why: Removal::Stale, next: 0 });
    ok(&mut run);
    assert_eq!(run.stage(), Stage::Removing { why: Removal::Stale, next: 1 });
    ok(&mut run);
    assert_eq!(run.stage(), Stage::Removing { why: Removal::Stale, next: 2 });
    ok(&mut run);
    assert_eq!(run.stage(), Stage::Delegating { at: Place::Top, controller: Controller::Cpu });
    ok(&mut run);
    assert_eq!(run.stage(), Stage::CreatingRoot);
    ok(&mut run);
    assert_eq!(run.stage(), Stage::Delegating { at: Place::Root, controller: Controller::Cpu });
    ok(&mut run);
    assert_eq!(run.stage(), Stage::Configuring { class: 0, step: ClassStep::Create });
    ok(&mut run);
    assert_eq!(run.stage(), Stage::Configuring { class: 0, step: ClassStep::Thread });
    ok(&mut run);
    assert_eq!(run.stage(), Stage::Configuring { class: 0, step: ClassStep::Weigh });
    ok(&mut run);
    assert_eq!(run.stage(), Stage::Configuring { class: 1, step: ClassStep::Create });
    ok(&mut run);
    ok(&mut run);
    ok(&mut run);
    assert_eq!(run.stage(), Stage::Spawning);
    run.step(Event::Spawned);
    assert_eq!(run.stage(), Stage::Joining);
    run.step(Event::Joined(vec![WorkerOutcome::Panicked, WorkerOutcome::Panicked]));
    assert_eq!(run.stage(), Stage::Removing { why: Removal::Final, next: 0 });
    ok(&mut run);
    ok(&mut run);
    assert_eq!(run.stage(), Stage::Removing { why: Removal::Final, next: 2 });
    ok(&mut run);
    assert_eq!(run.stage(), Stage::Finished);
    assert_eq!(run.config().class_count(), 2);
}

#[test]
fn the_tasks_name_label_weight_and_group_of_each_thread() {
    let mut run = two_classes();
    set_up(&mut run);
    match run.pending() {
        Action::Spawn(tasks) => {
            assert_eq!(tasks.len(), 2);
            assert_eq!(tasks[0].label, "A");
            assert_eq!(tasks[0].weight, 10);
            assert_eq!(tasks[0].node.render(MOUNT), "/sys/fs/cgroup/my_cgroup/thread_A");
            assert_eq!(tasks[1].label, "B");
            assert_eq!(tasks[1].weight, 30);
            assert_eq!(tasks[1].node.render(MOUNT), "/sys/fs/cgroup/my_cgroup/thread_B");
        }
        other => panic!("not spawning: {:?}", other),
    }
}

#[test]
fn the_cpuset_controller_is_delegated_where_asked_for() {
    let classes = vec![WeightClass::new("A", 10)];
    let mut run = Orchestrator::new(BenchmarkConfig::new("my_cgroup", classes, true).unwrap());
    ok(&mut run);
    ok(&mut run);
    assert_eq!(pending_op(&run), "write /sys/fs/cgroup/cgroup.subtree_control +cpu\n");
    assert_eq!(run.stage(), Stage::Delegating { at: Place::Top, controller: Controller::Cpu });
    ok(&mut run);
    assert_eq!(pending_op(&run), "write /sys/fs/cgroup/cgroup.subtree_control +cpuset\n");
    assert_eq!(run.stage(), Stage::Delegating { at: Place::Top, controller: Controller::Cpuset });
    ok(&mut run);
    assert_eq!(pending_op(&run), "create /sys/fs/cgroup/my_cgroup");
    ok(&mut run);
    assert_eq!(pending_op(&run), "write /sys/fs/cgroup/my_cgroup/cgroup.subtree_control +cpu\n");
    ok(&mut run);
    assert_eq!(
        pending_op(&run),
        "write /sys/fs/cgroup/my_cgroup/cgroup.subtree_control +cpuset\n"
    );
    assert_eq!(run.stage(), Stage::Delegating { at: Place::Root, controller: Controller::Cpuset });
    ok(&mut run);
    assert_eq!(pending_op(&run), "create /sys/fs/cgroup/my_cgroup/thread_A");
}

#[test]
fn clearing_tolerates_groups_that_are_not_there() {
    let mut run = two_classes();
    fail(&mut run, GatewayError::NotFound);
    fail(&mut run, GatewayError::NotFound);
    fail(&mut run, GatewayError::NotFound);
    assert_eq!(run.stage(), Stage::Delegating { at: Place::Top, controller: Controller::Cpu });
    assert_eq!(run.phase(), Phase::Uninitialized);
}

#[test]
fn clearing_that_fails_ends_the_run_at_once() {
    let mut run = two_classes();
    ok(&mut run);
    fail(&mut run, GatewayError::Busy);
    assert!(run.is_finished());
    assert_eq!(run.phase(), Phase::Aborted);
    let report = finish(&run);
    assert_eq!(report.setup_error, Some(GatewayError::Busy));
    assert!(report.results.is_empty());
    assert!(report.teardown_errors.is_empty());
    assert!(!report.succeeded());
}

#[test]
fn a_failed_setup_aborts_before_any_thread_is_spawned() {
    let mut run = two_classes();
    ok(&mut run);
    ok(&mut run);
    ok(&mut run);
    ok(&mut run);
    assert_eq!(pending_op(&run), "create /sys/fs/cgroup/my_cgroup");
    fail(&mut run, GatewayError::AlreadyExists);
    assert_eq!(run.phase(), Phase::Aborted);
    assert_eq!(run.stage(), Stage::Removing { why: Removal::Abort, next: 0 });
    let cleanup = [
        "remove /sys/fs/cgroup/my_cgroup/thread_A",
        "remove /sys/fs/cgroup/my_cgroup/thread_B",
        "remove /sys/fs/cgroup/my_cgroup",
    ];
    for (i, op) in cleanup.iter().enumerate() {
        assert_eq!(pending_op(&run), *op);
        assert_eq!(run.phase(), Phase::Aborted);
        if i == 1 {
            fail(&mut run, GatewayError::Busy);
        } else {
            fail(&mut run, GatewayError::NotFound);
        }
    }
    assert!(run.is_finished());
    assert_eq!(run.phase(), Phase::Aborted);
    let report = finish(&run);
    assert_eq!(report.setup_error, Some(GatewayError::AlreadyExists));
    assert!(report.results.is_empty());
    assert!(report.teardown_errors.is_empty());
    assert!(!report.succeeded());
}

#[test]
fn every_step_of_the_setup_can_abort_the_run() {
    let failures = [
        (3, GatewayError::PermissionDenied),
        (4, GatewayError::AlreadyExists),
        (5, GatewayError::NotFound),
        (6, GatewayError::AlreadyExists),
        (7, GatewayError::InvalidValue),
        (8, GatewayError::InvalidValue),
        (11, GatewayError::Timeout),
    ];
    for (steps, error) in failures {
        let mut run = two_classes();
        for _ in 0..steps {
            ok(&mut run);
        }
        fail(&mut run, error);
        assert_eq!(run.phase(), Phase::Aborted);
        assert_eq!(run.stage(), Stage::Removing { why: Removal::Abort, next: 0 });
        ok(&mut run);
        ok(&mut run);
        ok(&mut run);
        let report = finish(&run);
        assert_eq!(report.setup_error, Some(error));
        assert!(report.results.is_empty());
    }
}

#[test]
fn failures_of_single_threads_are_recorded_and_do_not_fail_the_run() {
    let classes =
        vec![WeightClass::new("A", 10), WeightClass::new("B", 30), WeightClass::new("C", 40)];
    let mut run = Orchestrator::new(BenchmarkConfig::new("my_cgroup", classes, false).unwrap());
    set_up(&mut run);
    run.step(Event::Spawned);
    run.step(Event::Joined(vec![
        WorkerOutcome::BindFailed(GatewayError::PermissionDenied),
        WorkerOutcome::Panicked,
        WorkerOutcome::Completed { elapsed_nanos: 77 },
    ]));
    assert_eq!(run.phase(), Phase::Collected);
    for _ in 0..4 {
        ok(&mut run);
    }
    let report = finish(&run);
    assert!(report.succeeded());
    assert_eq!(report.results.len(), 3);
    assert_eq!(report.results[0].label, "A");
    assert_eq!(
        report.results[0].outcome,
        WorkerOutcome::BindFailed(GatewayError::PermissionDenied)
    );
    assert_eq!(report.results[1].label, "B");
    assert_eq!(report.results[1].outcome, WorkerOutcome::Panicked);
    assert_eq!(report.results[2].label, "C");
    assert_eq!(report.results[2].weight, 40);
    assert_eq!(report.results[2].outcome, WorkerOutcome::Completed { elapsed_nanos: 77 });
}

#[test]
fn failures_of_the_teardown_are_reported_and_the_teardown_goes_on() {
    let mut run = two_classes();
    set_up(&mut run);
    run.step(Event::Spawned);
    run.step(Event::Joined(vec![
        WorkerOutcome::Completed { elapsed_nanos: 2 },
        WorkerOutcome::Completed { elapsed_nanos: 1 },
    ]));
    fail(&mut run, GatewayError::Busy);
    assert_eq!(pending_op(&run), "remove /sys/fs/cgroup/my_cgroup/thread_B");
    ok(&mut run);
    assert_eq!(pending_op(&run), "remove /sys/fs/cgroup/my_cgroup");
    fail(&mut run, GatewayError::Busy);
    assert!(run.is_finished());
    assert_eq!(run.phase(), Phase::Collected);
    let report = finish(&run);
    assert!(!report.succeeded());
    assert_eq!(report.setup_error, None);
    assert_eq!(report.teardown_errors, vec![GatewayError::Busy, GatewayError::Busy]);
    assert_eq!(report.results.len(), 2);
    assert_eq!(report.results[1].outcome, WorkerOutcome::Completed { elapsed_nanos: 1 });
}

#[test]
fn a_group_missing_at_teardown_is_a_failure_too() {
    let mut run = two_classes();
    set_up(&mut run);
    run.step(Event::Spawned);
    run.step(Event::Joined(vec![WorkerOutcome::Panicked, WorkerOutcome::Panicked]));
    fail(&mut run, GatewayError::NotFound);
    ok(&mut run);
    ok(&mut run);
    let report = finish(&run);
    assert_eq!(report.teardown_errors, vec![GatewayError::NotFound]);
    assert!(!report.succeeded());
}

#[test]
fn events_that_do_not_answer_the_pending_action_change_nothing() {
    let mut run = two_classes();
    run.step(Event::Spawned);
    run.step(Event::Joined(vec![WorkerOutcome::Panicked, WorkerOutcome::Panicked]));
    assert_eq!(run.stage(), Stage::Removing { why: Removal::Stale, next: 0 });
    set_up(&mut run);
    ok(&mut run);
    fail(&mut run, GatewayError::Busy);
    run.step(Event::Joined(vec![WorkerOutcome::Panicked, WorkerOutcome::Panicked]));
    assert_eq!(run.stage(), Stage::Spawning);
    run.step(Event::Spawned);
    ok(&mut run);
    run.step(Event::Spawned);
    run.step(Event::Joined(Vec::new()));
    run.step(Event::Joined(vec![WorkerOutcome::Panicked]));
    run.step(Event::Joined(vec![
        WorkerOutcome::Panicked,
        WorkerOutcome::Panicked,
        WorkerOutcome::Panicked,
    ]));
    assert_eq!(run.stage(), Stage::Joining);
    assert_eq!(run.phase(), Phase::Running);
}

#[test]
fn a_finished_run_takes_no_more_events() {
    let mut run = two_classes();
    fail(&mut run, GatewayError::PermissionDenied);
    assert!(run.is_finished());
    ok(&mut run);
    run.step(Event::Spawned);
    run.step(Event::Joined(vec![WorkerOutcome::Panicked, WorkerOutcome::Panicked]));
    fail(&mut run, GatewayError::Busy);
    assert!(run.is_finished());
    let report = finish(&run);
    assert_eq!(report.setup_error, Some(GatewayError::PermissionDenied));
    assert!(report.teardown_errors.is_empty());
    assert!(report.results.is_empty());
}

#[test]
fn a_run_without_classes_spawns_no_thread() {
    let mut run = Orchestrator::new(BenchmarkConfig::new("my_cgroup", Vec::new(), false).unwrap());
    assert_eq!(pending_op(&run), "remove /sys/fs/cgroup/my_cgroup");
    ok(&mut run);
    ok(&mut run);
    ok(&mut run);
    assert_eq!(pending_op(&run), "write /sys/fs/cgroup/my_cgroup/cgroup.subtree_control +cpu\n");
    ok(&mut run);
    assert_eq!(pending_op(&run), "spawn 0");
    run.step(Event::Spawned);
    run.step(Event::Joined(Vec::new()));
    assert_eq!(pending_op(&run), "remove /sys/fs/cgroup/my_cgroup");
    ok(&mut run);
    let report = finish(&run);
    assert!(report.succeeded());
    assert!(report.results.is_empty());
}

#[test]
fn no_operation_of_a_run_is_a_read() {
    let mut run = two_classes();
    let mut seen = 0;
    while !run.is_finished() {
        match run.pending() {
            Action::Perform(GatewayOp::Read { .. }) => panic!("a run reads nothing"),
            Action::Perform(GatewayOp::Write { attribute, .. }) => {
                assert_ne!(attribute, Attribute::Threads);
                assert_ne!(attribute, Attribute::CpuMax);
                ok(&mut run);
            }
            Action::Perform(_) => ok(&mut run),
            Action::Spawn(_) => run.step(Event::Spawned),
            Action::Join => run.step(Event::Joined(vec![
                WorkerOutcome::Panicked,
                WorkerOutcome::Panicked,
            ])),
            Action::Finish(_) => {}
        }
        seen += 1;
    }
    assert_eq!(seen, 17);
}

#[test]
fn the_setup_begins_with_two_delegations_at_the_top_and_a_creation() {
    let classes = vec![WeightClass::new("A", 10)];
    let mut run = Orchestrator::new(BenchmarkConfig::new("my_cgroup", classes, true).unwrap());
    fail(&mut run, GatewayError::NotFound);
    fail(&mut run, GatewayError::NotFound);
    let mut values: Vec<Vec<u8>> = Vec::new();
    for _ in 0..2 {
        match run.pending() {
            Action::Perform(GatewayOp::Write { node, attribute, value }) => {
                assert!(node.is_root());
                assert_eq!(attribute, Attribute::SubtreeControl);
                values.push(value);
            }
            other => panic!("not a write: {:?}", other),
        }
        ok(&mut run);
    }
    assert_eq!(values, vec![b"+cpu\n".to_vec(), b"+cpuset\n".to_vec()]);
    assert_eq!(pending_op(&run), "create /sys/fs/cgroup/my_cgroup");
}

#[test]
fn the_groups_own_weight_is_set_right_after_its_creation() {
    let classes = vec![WeightClass::new("A", 10)];
    let config = BenchmarkConfig::new("my_cgroup", classes, false)
        .unwrap()
        .with_root_weight(8000)
        .unwrap();
    let mut run = Orchestrator::new(config);
    ok(&mut run);
    ok(&mut run);
    ok(&mut run);
    assert_eq!(pending_op(&run), "create /sys/fs/cgroup/my_cgroup");
    ok(&mut run);
    assert_eq!(run.stage(), Stage::WeighingRoot);
    assert_eq!(run.phase(), Phase::Uninitialized);
    assert_eq!(pending_op(&run), "write /sys/fs/cgroup/my_cgroup/cpu.weight 8000");
    ok(&mut run);
    assert_eq!(pending_op(&run), "write /sys/fs/cgroup/my_cgroup/cgroup.subtree_control +cpu\n");
    ok(&mut run);
    assert_eq!(pending_op(&run), "create /sys/fs/cgroup/my_cgroup/thread_A");

    let mut failing = two_classes_weighted();
    for _ in 0..5 {
        ok(&mut failing);
    }
    assert_eq!(failing.stage(), Stage::WeighingRoot);
    fail(&mut failing, GatewayError::NotFound);
    assert_eq!(failing.phase(), Phase::Aborted);
    assert_eq!(failing.stage(), Stage::Removing { why: Removal::Abort, next: 0 });
}

fn two_classes_weighted() -> Orchestrator {
    let classes = vec![WeightClass::new("A", 10), WeightClass::new("B", 30)];
    Orchestrator::new(
        BenchmarkConfig::new("my_cgroup", classes, false).unwrap().with_root_weight(8000).unwrap(),
    )
}

#[test]
fn a_driver_can_ask_whether_an_event_answers() {
    let mut run = two_classes();
    let joined = || Event::Joined(vec![WorkerOutcome::Panicked, WorkerOutcome::Panicked]);
    assert!(run.answers(&Event::Performed(Ok(()))));
    assert!(run.answers(&Event::Performed(Err(GatewayError::Busy))));
    assert!(!run.answers(&Event::Spawned));
    assert!(!run.answers(&joined()));
    set_up(&mut run);
    assert!(run.answers(&Event::Spawned));
    assert!(!run.answers(&Event::Performed(Ok(()))));
    assert!(!run.answers(&joined()));
    run.step(Event::Spawned);
    assert!(run.answers(&joined()));
    assert!(!run.answers(&Event::Joined(vec![WorkerOutcome::Panicked])));
    assert!(!run.answers(&Event::Joined(Vec::new())));
    assert!(!run.answers(&Event::Spawned));
    assert!(!run.answers(&Event::Performed(Ok(()))));
    run.step(joined());
    assert!(run.answers(&Event::Performed(Ok(()))));
    ok(&mut run);
    ok(&mut run);
    ok(&mut run);
    assert!(run.is_finished());
    assert!(!run.answers(&Event::Performed(Ok(()))));
    assert!(!run.answers(&Event::Spawned));
    assert!(!run.answers(&joined()));
}
