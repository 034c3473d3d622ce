use cgroup_harness::error::GatewayError;
use cgroup_harness::gateway::GatewayOp;
use cgroup_harness::manager::{
    bind_current_thread, bind_thread, create_group, delegate, delegate_one, destroy_group,
    forgive_absent, set_ceiling, set_threaded, set_weight, WeightClass,
};
use cgroup_harness::memory::MemoryHierarchy;
use cgroup_harness::node::HierarchyNode;
use cgroup_harness::wire::{Attribute, Controller, ControllerSet, CpuCeiling};

fn group() -> HierarchyNode {
    HierarchyNode::root().child("my_cgroup").unwrap()
}

fn expect_write(op: &GatewayOp, at: &HierarchyNode, what: Attribute, bytes: &[u8]) {
    match op {
        GatewayOp::Write { node, attribute, value } => {
            assert!(node.same_path(at));
            assert_eq!(*attribute, what);
            assert_eq!(value.as_slice(), bytes);
        }
        other => panic!("not a write: {:?}", other),
    }
}

#[test]
fn delegation_writes_one_directive_for_each_controller() {
    let top = HierarchyNode::root();
    let both = delegate(&top, ControllerSet::all());
    assert_eq!(both.len(), 2);
    expect_write(&both[0], &top, Attribute::SubtreeControl, b"+cpu\n");
    expect_write(&both[1], &top, Attribute::SubtreeControl, b"+cpuset\n");
    let cpu = delegate(&group(), ControllerSet::empty().with(Controller::Cpu));
    assert_eq!(cpu.len(), 1);
    expect_write(&cpu[0], &group(), Attribute::SubtreeControl, b"+cpu\n");
    let cpuset = delegate(&group(), ControllerSet::empty().with(Controller::Cpuset));
    assert_eq!(cpuset.len(), 1);
    expect_write(&cpuset[0], &group(), Attribute::SubtreeControl, b"+cpuset\n");
    assert!(delegate(&group(), ControllerSet::empty()).is_empty());
}

#[test]
fn one_controller_is_delegated_by_one_write() {
    expect_write(
        &delegate_one(&group(), Controller::Cpu),
        &group(),
        Attribute::SubtreeControl,
        b"+cpu\n",
    );
    expect_write(
        &delegate_one(&HierarchyNode::root(), Controller::Cpuset),
        &HierarchyNode::root(),
        Attribute::SubtreeControl,
        b"+cpuset\n",
    );
}

#[test]
fn the_group_is_set_up_by_two_delegations_and_a_creation() {
    let mut tree = MemoryHierarchy::new();
    let top = HierarchyNode::root();
    let mut written: Vec<Vec<u8>> = Vec::new();
    for op in delegate(&top, ControllerSet::all()) {
        if let GatewayOp::Write { value, .. } = &op {
            written.push(value.clone());
        }
        assert_eq!(tree.perform(&op), Ok(Vec::new()));
    }
    assert_eq!(written, vec![b"+cpu\n".to_vec(), b"+cpuset\n".to_vec()]);
    let (root, create) = create_group(&top, "my_cgroup").unwrap();
    assert_eq!(tree.perform(&create), Ok(Vec::new()));
    assert!(tree.contains(&root));
    assert_eq!(tree.read(&top, Attribute::SubtreeControl), Ok(b"cpuset cpu\n".to_vec()));
    assert_eq!(tree.read(&root, Attribute::SubtreeControl), Ok(b"\n".to_vec()));
}

#[test]
fn a_group_is_created_below_its_parent() {
    let (node, op) = create_group(&group(), "thread_A").unwrap();
    assert_eq!(node.render("/sys/fs/cgroup"), "/sys/fs/cgroup/my_cgroup/thread_A");
    match op {
        GatewayOp::CreateNode { node: created } => assert!(created.same_path(&node)),
        other => panic!("not a creation: {:?}", other),
    }
    assert_eq!(create_group(&group(), "a/b").err(), Some(GatewayError::InvalidValue));
    assert_eq!(create_group(&group(), "").err(), Some(GatewayError::InvalidValue));
}

#[test]
fn a_weight_outside_the_range_is_an_invalid_value() {
    let op = set_weight(&group(), &WeightClass::new("A", 10)).unwrap();
    expect_write(&op, &group(), Attribute::CpuWeight, b"10");
    let op = set_weight(&group(), &WeightClass::new("main", 8000)).unwrap();
    expect_write(&op, &group(), Attribute::CpuWeight, b"8000");
    assert!(set_weight(&group(), &WeightClass::new("min", 1)).is_ok());
    assert!(set_weight(&group(), &WeightClass::new("max", 10_000)).is_ok());
    assert_eq!(
        set_weight(&group(), &WeightClass::new("none", 0)).err(),
        Some(GatewayError::InvalidValue)
    );
    assert_eq!(
        set_weight(&group(), &WeightClass::new("much", 10_001)).err(),
        Some(GatewayError::InvalidValue)
    );
}

#[test]
fn weight_classes_keep_label_and_weight() {
    let class = WeightClass::new("B", 30);
    assert_eq!(class.label, "B");
    assert_eq!(class.weight, 30);
    assert!(class.is_valid());
    let copy = class.clone();
    assert_eq!(copy.label, "B");
    assert_eq!(copy.weight, 30);
    assert!(!WeightClass::new("B", 0).is_valid());
    assert!(!WeightClass::new("B", u32::MAX).is_valid());
}

#[test]
fn a_ceiling_is_written_as_quota_and_period() {
    let limited = CpuCeiling { quota: Some(10_000), period: 50_000 };
    let op = set_ceiling(&group(), &limited).unwrap();
    expect_write(&op, &group(), Attribute::CpuMax, b"10000 50000");
    let op = set_ceiling(&group(), &CpuCeiling::unlimited()).unwrap();
    expect_write(&op, &group(), Attribute::CpuMax, b"max 100000");
    let broken = CpuCeiling { quota: Some(0), period: 50_000 };
    assert_eq!(set_ceiling(&group(), &broken).err(), Some(GatewayError::InvalidValue));
    let endless = CpuCeiling { quota: Some(1), period: 0 };
    assert_eq!(set_ceiling(&group(), &endless).err(), Some(GatewayError::InvalidValue));
}

#[test]
fn threaded_mode_is_asked_for_by_its_word() {
    expect_write(&set_threaded(&group()), &group(), Attribute::Type, b"threaded");
}

#[test]
fn destroying_a_group_removes_its_node() {
    match destroy_group(&group()) {
        GatewayOp::RemoveNode { node } => assert!(node.same_path(&group())),
        other => panic!("not a removal: {:?}", other),
    }
}

#[test]
fn cleanup_forgives_a_group_that_was_not_there() {
    assert_eq!(forgive_absent(Ok(())), Ok(()));
    assert_eq!(forgive_absent(Err(GatewayError::NotFound)), Ok(()));
    assert_eq!(forgive_absent(Err(GatewayError::Busy)), Err(GatewayError::Busy));
    assert_eq!(
        forgive_absent(Err(GatewayError::PermissionDenied)),
        Err(GatewayError::PermissionDenied)
    );
    assert_eq!(forgive_absent(Err(GatewayError::Timeout)), Err(GatewayError::Timeout));
    assert_eq!(forgive_absent(Err(GatewayError::InvalidValue)), Err(GatewayError::InvalidValue));
    assert_eq!(
        forgive_absent(Err(GatewayError::AlreadyExists)),
        Err(GatewayError::AlreadyExists)
    );
}

#[test]
fn a_thread_is_bound_by_its_kernel_identifier() {
    expect_write(&bind_thread(&group(), 1234), &group(), Attribute::Threads, b"1234");
    expect_write(&bind_thread(&group(), 0), &group(), Attribute::Threads, b"0");
}

#[test]
fn the_calling_thread_binds_itself() {
    let own = gettid::gettid();
    let op = bind_current_thread(&group());
    expect_write(&op, &group(), Attribute::Threads, own.to_string().as_bytes());
    assert_ne!(own, 0);
}

#[test]
fn the_operations_of_the_manager_work_on_a_tree() {
    let mut tree = MemoryHierarchy::new();
    let top = HierarchyNode::root();
    let cpu = ControllerSet::empty().with(Controller::Cpu);
    for op in delegate(&top, cpu) {
        assert_eq!(tree.perform(&op), Ok(Vec::new()));
    }
    let (root, create) = create_group(&top, "my_cgroup").unwrap();
    assert_eq!(tree.perform(&create), Ok(Vec::new()));
    assert_eq!(tree.perform(&create), Err(GatewayError::AlreadyExists));
    let ceiling = CpuCeiling { quota: Some(10_000), period: 50_000 };
    assert_eq!(tree.perform(&set_ceiling(&root, &ceiling).unwrap()), Ok(Vec::new()));
    assert_eq!(
        tree.perform(&bind_current_thread(&root)),
        Err(GatewayError::InvalidValue)
    );
    assert_eq!(tree.perform(&set_threaded(&root)), Ok(Vec::new()));
    assert_eq!(tree.perform(&bind_current_thread(&root)), Ok(Vec::new()));
    let members = tree.read(&root, Attribute::Threads).unwrap();
    assert_eq!(members, format!("{}\n", gettid::gettid()).into_bytes());
    assert_eq!(tree.perform(&destroy_group(&root)), Err(GatewayError::Busy));
    tree.release_thread(gettid::gettid());
    assert_eq!(tree.perform(&destroy_group(&root)), Ok(Vec::new()));
    assert_eq!(
        forgive_absent(tree.perform(&destroy_group(&root)).map(|_| ())),
        Ok(())
    );
    assert!(!tree.contains(&root));
}
