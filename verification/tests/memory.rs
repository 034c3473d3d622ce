use cgroup_harness::error::GatewayError;
use cgroup_harness::gateway::GatewayOp;
use cgroup_harness::memory::MemoryHierarchy;
use cgroup_harness::node::HierarchyNode;
use cgroup_harness::wire::Attribute;

fn top() -> HierarchyNode {
    HierarchyNode::root()
}

fn group() -> HierarchyNode {
    top().child("my_cgroup").unwrap()
}

fn leaf(label: &str) -> HierarchyNode {
    group().child(&format!("thread_{}", label)).unwrap()
}

/// The top delegates the CPU controller, `my_cgroup` exists and delegates it
/// on, and `thread_A` and `thread_B` exist below it.
fn prepared() -> MemoryHierarchy {
    let mut tree = MemoryHierarchy::new();
    assert_eq!(tree.write(&top(), Attribute::SubtreeControl, b"+cpu"), Ok(()));
    assert_eq!(tree.create_node(&group()), Ok(()));
    assert_eq!(tree.write(&group(), Attribute::SubtreeControl, b"+cpu"), Ok(()));
    assert_eq!(tree.create_node(&leaf("A")), Ok(()));
    assert_eq!(tree.create_node(&leaf("B")), Ok(()));
    tree
}

fn threaded() -> MemoryHierarchy {
    let mut tree = prepared();
    assert_eq!(tree.write(&leaf("A"), Attribute::Type, b"threaded"), Ok(()));
    assert_eq!(tree.write(&leaf("B"), Attribute::Type, b"threaded"), Ok(()));
    tree
}

#[test]
fn a_new_tree_has_nothing_but_its_top() {
    let tree = MemoryHierarchy::new();
    assert!(tree.contains(&top()));
    assert!(!tree.contains(&group()));
    assert_eq!(tree.read(&top(), Attribute::SubtreeControl), Ok(b"\n".to_vec()));
    assert_eq!(tree.read(&top(), Attribute::Threads), Ok(Vec::new()));
}

#[test]
fn creating_a_node_needs_a_free_path_and_a_parent() {
    let mut tree = MemoryHierarchy::new();
    assert_eq!(tree.create_node(&leaf("A")), Err(GatewayError::NotFound));
    assert_eq!(tree.create_node(&group()), Ok(()));
    assert!(tree.contains(&group()));
    assert_eq!(tree.create_node(&group()), Err(GatewayError::AlreadyExists));
    assert_eq!(tree.create_node(&top()), Err(GatewayError::AlreadyExists));
    assert_eq!(tree.create_node(&leaf("A")), Ok(()));
    assert!(tree.contains(&leaf("A")));
}

#[test]
fn removing_a_node_needs_it_to_exist_and_to_be_empty() {
    let mut tree = prepared();
    assert_eq!(tree.remove_node(&leaf("C")), Err(GatewayError::NotFound));
    assert_eq!(tree.remove_node(&group()), Err(GatewayError::Busy));
    assert_eq!(tree.remove_node(&top()), Err(GatewayError::Busy));
    assert_eq!(tree.remove_node(&leaf("A")), Ok(()));
    assert!(!tree.contains(&leaf("A")));
    assert_eq!(tree.remove_node(&leaf("A")), Err(GatewayError::NotFound));
    assert_eq!(tree.remove_node(&group()), Err(GatewayError::Busy));
    assert_eq!(tree.remove_node(&leaf("B")), Ok(()));
    assert_eq!(tree.remove_node(&group()), Ok(()));
    assert!(!tree.contains(&group()));
    assert!(tree.contains(&top()));
}

#[test]
fn create_then_destroy_leaves_the_path_absent() {
    let mut tree = prepared();
    let before = tree.read(&group(), Attribute::SubtreeControl);
    assert!(!tree.contains(&leaf("C")));
    assert_eq!(tree.create_node(&leaf("C")), Ok(()));
    assert!(tree.contains(&leaf("C")));
    assert_eq!(tree.remove_node(&leaf("C")), Ok(()));
    assert!(!tree.contains(&leaf("C")));
    assert_eq!(tree.read(&leaf("C"), Attribute::Type), Err(GatewayError::NotFound));
    assert_eq!(tree.read(&group(), Attribute::SubtreeControl), before);
    assert_eq!(tree.create_node(&leaf("C")), Ok(()));
}

#[test]
fn whoever_may_not_change_the_tree_is_denied() {
    let mut tree = MemoryHierarchy::unprivileged();
    assert_eq!(tree.create_node(&group()), Err(GatewayError::PermissionDenied));
    assert_eq!(
        tree.write(&top(), Attribute::SubtreeControl, b"+cpu"),
        Err(GatewayError::PermissionDenied)
    );
    assert_eq!(tree.remove_node(&top()), Err(GatewayError::PermissionDenied));
    assert_eq!(tree.remove_node(&group()), Err(GatewayError::NotFound));
    assert_eq!(tree.create_node(&top()), Err(GatewayError::AlreadyExists));
    assert_eq!(tree.read(&top(), Attribute::SubtreeControl), Ok(b"\n".to_vec()));
    assert!(!tree.contains(&group()));
}

#[test]
fn the_top_has_neither_type_nor_cpu_settings() {
    let mut tree = prepared();
    assert_eq!(tree.read(&top(), Attribute::Type), Err(GatewayError::NotFound));
    assert_eq!(tree.read(&top(), Attribute::CpuWeight), Err(GatewayError::NotFound));
    assert_eq!(tree.read(&top(), Attribute::CpuMax), Err(GatewayError::NotFound));
    assert_eq!(tree.write(&top(), Attribute::Type, b"threaded"), Err(GatewayError::NotFound));
    assert_eq!(tree.write(&top(), Attribute::CpuWeight, b"100"), Err(GatewayError::NotFound));
}

#[test]
fn a_group_becomes_threaded_by_the_word_threaded() {
    let mut tree = prepared();
    assert_eq!(tree.read(&leaf("A"), Attribute::Type), Ok(b"domain\n".to_vec()));
    assert_eq!(tree.write(&leaf("A"), Attribute::Type, b"domain"), Err(GatewayError::InvalidValue));
    assert_eq!(tree.read(&leaf("A"), Attribute::Type), Ok(b"domain\n".to_vec()));
    assert_eq!(tree.write(&leaf("A"), Attribute::Type, b"threaded"), Ok(()));
    assert_eq!(tree.read(&leaf("A"), Attribute::Type), Ok(b"threaded\n".to_vec()));
    assert_eq!(tree.write(&leaf("A"), Attribute::Type, b"threaded\n"), Ok(()));
    assert_eq!(tree.read(&leaf("A"), Attribute::Type), Ok(b"threaded\n".to_vec()));
    assert_eq!(tree.read(&leaf("B"), Attribute::Type), Ok(b"domain\n".to_vec()));
    assert_eq!(tree.write(&leaf("C"), Attribute::Type, b"threaded"), Err(GatewayError::NotFound));
}

#[test]
fn weights_are_kept_within_their_range() {
    let mut tree = prepared();
    assert_eq!(tree.read(&leaf("A"), Attribute::CpuWeight), Ok(b"100\n".to_vec()));
    assert_eq!(tree.write(&leaf("A"), Attribute::CpuWeight, b"10"), Ok(()));
    assert_eq!(tree.read(&leaf("A"), Attribute::CpuWeight), Ok(b"10\n".to_vec()));
    assert_eq!(tree.write(&group(), Attribute::CpuWeight, b"8000"), Ok(()));
    assert_eq!(tree.read(&group(), Attribute::CpuWeight), Ok(b"8000\n".to_vec()));
    for bad in [&b"0"[..], b"10001", b"heavy", b"", b"-5", b"1 2"] {
        assert_eq!(
            tree.write(&leaf("A"), Attribute::CpuWeight, bad),
            Err(GatewayError::InvalidValue)
        );
    }
    assert_eq!(tree.read(&leaf("A"), Attribute::CpuWeight), Ok(b"10\n".to_vec()));
    assert_eq!(tree.write(&leaf("A"), Attribute::CpuWeight, b"10000"), Ok(()));
    assert_eq!(tree.write(&leaf("A"), Attribute::CpuWeight, b"1"), Ok(()));
    assert_eq!(tree.read(&leaf("A"), Attribute::CpuWeight), Ok(b"1\n".to_vec()));
}

#[test]
fn cpu_settings_come_with_the_delegated_controller() {
    let mut tree = MemoryHierarchy::new();
    assert_eq!(tree.create_node(&group()), Ok(()));
    assert_eq!(tree.write(&group(), Attribute::CpuWeight, b"8000"), Err(GatewayError::NotFound));
    assert_eq!(tree.read(&group(), Attribute::CpuWeight), Err(GatewayError::NotFound));
    assert_eq!(tree.read(&group(), Attribute::CpuMax), Err(GatewayError::NotFound));
    assert_eq!(tree.write(&top(), Attribute::SubtreeControl, b"+cpuset"), Ok(()));
    assert_eq!(tree.write(&group(), Attribute::CpuWeight, b"8000"), Err(GatewayError::NotFound));
    assert_eq!(tree.write(&top(), Attribute::SubtreeControl, b"+cpu\n"), Ok(()));
    assert_eq!(tree.write(&group(), Attribute::CpuWeight, b"8000"), Ok(()));
    assert_eq!(tree.read(&group(), Attribute::CpuWeight), Ok(b"8000\n".to_vec()));
    assert_eq!(tree.read(&group(), Attribute::CpuMax), Ok(b"max 100000\n".to_vec()));
}

#[test]
fn ceilings_are_a_quota_and_a_period_on_the_tree() {
    let mut tree = prepared();
    assert_eq!(tree.write(&group(), Attribute::CpuMax, b"10000 50000"), Ok(()));
    assert_eq!(tree.read(&group(), Attribute::CpuMax), Ok(b"10000 50000\n".to_vec()));
    assert_eq!(tree.write(&group(), Attribute::CpuMax, b"10000"), Err(GatewayError::InvalidValue));
    assert_eq!(
        tree.write(&group(), Attribute::CpuMax, b"0 50000"),
        Err(GatewayError::InvalidValue)
    );
    assert_eq!(tree.read(&group(), Attribute::CpuMax), Ok(b"10000 50000\n".to_vec()));
    assert_eq!(tree.write(&group(), Attribute::CpuMax, b"max 100000"), Ok(()));
    assert_eq!(tree.read(&group(), Attribute::CpuMax), Ok(b"max 100000\n".to_vec()));
}

#[test]
fn delegating_twice_is_the_same_as_delegating_once() {
    let mut tree = MemoryHierarchy::new();
    assert_eq!(tree.write(&top(), Attribute::SubtreeControl, b"+cpu"), Ok(()));
    let once = tree.read(&top(), Attribute::SubtreeControl);
    assert_eq!(once, Ok(b"cpu\n".to_vec()));
    assert_eq!(tree.write(&top(), Attribute::SubtreeControl, b"+cpu"), Ok(()));
    assert_eq!(tree.read(&top(), Attribute::SubtreeControl), once);
    assert_eq!(tree.write(&top(), Attribute::SubtreeControl, b"+cpuset"), Ok(()));
    assert_eq!(tree.read(&top(), Attribute::SubtreeControl), Ok(b"cpuset cpu\n".to_vec()));
    assert_eq!(tree.write(&top(), Attribute::SubtreeControl, b"+cpu +cpuset"), Ok(()));
    assert_eq!(tree.read(&top(), Attribute::SubtreeControl), Ok(b"cpuset cpu\n".to_vec()));
    assert_eq!(tree.write(&top(), Attribute::SubtreeControl, b""), Ok(()));
    assert_eq!(tree.read(&top(), Attribute::SubtreeControl), Ok(b"cpuset cpu\n".to_vec()));
}

#[test]
fn a_group_hands_down_only_what_it_was_handed() {
    let mut tree = MemoryHierarchy::new();
    assert_eq!(tree.create_node(&group()), Ok(()));
    assert_eq!(
        tree.write(&group(), Attribute::SubtreeControl, b"+cpu"),
        Err(GatewayError::NotFound)
    );
    assert_eq!(tree.read(&group(), Attribute::SubtreeControl), Ok(b"\n".to_vec()));
    assert_eq!(tree.write(&top(), Attribute::SubtreeControl, b"+cpu"), Ok(()));
    assert_eq!(tree.write(&group(), Attribute::SubtreeControl, b"+cpu"), Ok(()));
    assert_eq!(
        tree.write(&group(), Attribute::SubtreeControl, b"+cpu +cpuset"),
        Err(GatewayError::NotFound)
    );
    assert_eq!(tree.read(&group(), Attribute::SubtreeControl), Ok(b"cpu\n".to_vec()));
    assert_eq!(
        tree.write(&group(), Attribute::SubtreeControl, b"+memory"),
        Err(GatewayError::InvalidValue)
    );
    assert_eq!(
        tree.write(&group(), Attribute::SubtreeControl, b"-cpu"),
        Err(GatewayError::InvalidValue)
    );
}

#[test]
fn binding_to_a_group_that_is_not_threaded_fails() {
    let mut tree = prepared();
    assert_eq!(
        tree.write(&leaf("A"), Attribute::Threads, b"1234"),
        Err(GatewayError::InvalidValue)
    );
    assert_eq!(tree.read(&leaf("A"), Attribute::Threads), Ok(Vec::new()));
    assert_eq!(tree.write(&top(), Attribute::Threads, b"1234"), Err(GatewayError::InvalidValue));
    assert_eq!(tree.write(&leaf("C"), Attribute::Threads, b"1234"), Err(GatewayError::NotFound));
    assert_eq!(tree.remove_node(&leaf("A")), Ok(()));
}

#[test]
fn binding_needs_the_cpu_controller_at_the_group() {
    let mut tree = MemoryHierarchy::new();
    assert_eq!(tree.create_node(&group()), Ok(()));
    assert_eq!(tree.write(&group(), Attribute::Type, b"threaded"), Ok(()));
    assert_eq!(tree.write(&group(), Attribute::Threads, b"1234"), Err(GatewayError::NotFound));
    assert_eq!(tree.write(&top(), Attribute::SubtreeControl, b"+cpu"), Ok(()));
    assert_eq!(tree.write(&group(), Attribute::Threads, b"1234"), Ok(()));
    assert_eq!(tree.read(&group(), Attribute::Threads), Ok(b"1234\n".to_vec()));
}

#[test]
fn members_are_listed_in_the_order_in_which_they_joined() {
    let mut tree = threaded();
    assert_eq!(tree.write(&leaf("A"), Attribute::Threads, b"1234"), Ok(()));
    assert_eq!(tree.write(&leaf("A"), Attribute::Threads, b"99\n"), Ok(()));
    assert_eq!(tree.write(&leaf("B"), Attribute::Threads, b"5678"), Ok(()));
    assert_eq!(tree.read(&leaf("A"), Attribute::Threads), Ok(b"1234\n99\n".to_vec()));
    assert_eq!(tree.read(&leaf("B"), Attribute::Threads), Ok(b"5678\n".to_vec()));
    assert_eq!(tree.write(&leaf("A"), Attribute::Threads, b"A"), Err(GatewayError::InvalidValue));
    assert_eq!(tree.write(&leaf("A"), Attribute::Threads, b""), Err(GatewayError::InvalidValue));
    assert_eq!(tree.read(&leaf("A"), Attribute::Threads), Ok(b"1234\n99\n".to_vec()));
}

#[test]
fn a_thread_is_a_member_of_one_group_at_a_time() {
    let mut tree = threaded();
    assert_eq!(tree.write(&leaf("A"), Attribute::Threads, b"1234"), Ok(()));
    assert_eq!(tree.write(&leaf("A"), Attribute::Threads, b"99"), Ok(()));
    assert_eq!(tree.write(&leaf("B"), Attribute::Threads, b"1234"), Ok(()));
    assert_eq!(tree.read(&leaf("A"), Attribute::Threads), Ok(b"99\n".to_vec()));
    assert_eq!(tree.read(&leaf("B"), Attribute::Threads), Ok(b"1234\n".to_vec()));
    assert_eq!(tree.write(&leaf("B"), Attribute::Threads, b"1234"), Ok(()));
    assert_eq!(tree.read(&leaf("B"), Attribute::Threads), Ok(b"1234\n".to_vec()));
    assert_eq!(tree.write(&leaf("A"), Attribute::Threads, b"1234"), Ok(()));
    assert_eq!(tree.read(&leaf("A"), Attribute::Threads), Ok(b"99\n1234\n".to_vec()));
    assert_eq!(tree.read(&leaf("B"), Attribute::Threads), Ok(Vec::new()));
}

#[test]
fn a_group_with_a_bound_thread_is_busy_until_the_thread_is_gone() {
    let mut tree = threaded();
    assert_eq!(tree.write(&leaf("A"), Attribute::Threads, b"1234"), Ok(()));
    assert_eq!(tree.write(&leaf("A"), Attribute::Threads, b"99"), Ok(()));
    assert_eq!(tree.remove_node(&leaf("A")), Err(GatewayError::Busy));
    assert!(tree.contains(&leaf("A")));
    tree.release_thread(1234);
    assert_eq!(tree.remove_node(&leaf("A")), Err(GatewayError::Busy));
    assert_eq!(tree.read(&leaf("A"), Attribute::Threads), Ok(b"99\n".to_vec()));
    tree.release_thread(99);
    assert_eq!(tree.read(&leaf("A"), Attribute::Threads), Ok(Vec::new()));
    assert_eq!(tree.remove_node(&leaf("A")), Ok(()));
    assert!(!tree.contains(&leaf("A")));
}

#[test]
fn a_group_is_free_once_its_thread_is_bound_elsewhere() {
    let mut tree = threaded();
    assert_eq!(tree.write(&leaf("A"), Attribute::Threads, b"1234"), Ok(()));
    assert_eq!(tree.remove_node(&leaf("A")), Err(GatewayError::Busy));
    assert_eq!(tree.write(&leaf("B"), Attribute::Threads, b"1234"), Ok(()));
    assert_eq!(tree.remove_node(&leaf("A")), Ok(()));
    assert_eq!(tree.remove_node(&leaf("B")), Err(GatewayError::Busy));
}

#[test]
fn releasing_a_thread_that_is_no_member_changes_nothing() {
    let mut tree = threaded();
    assert_eq!(tree.write(&leaf("A"), Attribute::Threads, b"1234"), Ok(()));
    tree.release_thread(77);
    assert_eq!(tree.read(&leaf("A"), Attribute::Threads), Ok(b"1234\n".to_vec()));
}

#[test]
fn operations_are_performed_as_the_single_calls_are() {
    let mut tree = MemoryHierarchy::new();
    let create = GatewayOp::CreateNode { node: group() };
    assert_eq!(tree.perform(&create), Ok(Vec::new()));
    assert_eq!(tree.perform(&create), Err(GatewayError::AlreadyExists));
    let delegate = GatewayOp::Write {
        node: top(),
        attribute: Attribute::SubtreeControl,
        value: b"+cpu".to_vec(),
    };
    assert_eq!(tree.perform(&delegate), Ok(Vec::new()));
    let weigh = GatewayOp::Write {
        node: group(),
        attribute: Attribute::CpuWeight,
        value: b"8000".to_vec(),
    };
    assert_eq!(tree.perform(&weigh), Ok(Vec::new()));
    let read = GatewayOp::Read { node: group(), attribute: Attribute::CpuWeight };
    assert_eq!(tree.perform(&read), Ok(b"8000\n".to_vec()));
    let remove = GatewayOp::RemoveNode { node: group() };
    assert_eq!(tree.perform(&remove), Ok(Vec::new()));
    assert_eq!(tree.perform(&remove), Err(GatewayError::NotFound));
    assert_eq!(tree.perform(&read), Err(GatewayError::NotFound));
    assert!(read.clone().target().same_path(&group()));
    assert!(delegate.target().same_path(&top()));
}
