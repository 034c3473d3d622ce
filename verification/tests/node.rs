use cgroup_harness::node::{is_valid_name, HierarchyNode};

fn group() -> HierarchyNode {
    HierarchyNode::root().child("my_cgroup").unwrap()
}

#[test]
fn the_top_has_no_name_and_no_parent() {
    let top = HierarchyNode::root();
    assert!(top.is_root());
    assert_eq!(top.depth(), 0);
    assert_eq!(top.name(), None);
    assert!(top.parent().is_none());
    assert_eq!(top.render("/sys/fs/cgroup"), "/sys/fs/cgroup");
}

#[test]
fn children_extend_the_path_by_their_name() {
    let root = group();
    assert!(!root.is_root());
    assert_eq!(root.depth(), 1);
    assert_eq!(root.name(), Some("my_cgroup"));
    let leaf = root.child("thread_A").unwrap();
    assert_eq!(leaf.depth(), 2);
    assert_eq!(leaf.name(), Some("thread_A"));
    assert_eq!(leaf.render("/sys/fs/cgroup"), "/sys/fs/cgroup/my_cgroup/thread_A");
    assert_eq!(root.render("/sys/fs/cgroup"), "/sys/fs/cgroup/my_cgroup");
}

#[test]
fn the_parent_of_a_child_is_the_node_itself() {
    let root = group();
    let leaf = root.child("thread_A").unwrap();
    assert!(leaf.parent().unwrap().same_path(&root));
    assert!(root.parent().unwrap().same_path(&HierarchyNode::root()));
    assert!(leaf.is_child_of(&root));
    assert!(root.is_child_of(&HierarchyNode::root()));
    assert!(!leaf.is_child_of(&HierarchyNode::root()));
    assert!(!root.is_child_of(&leaf));
    assert!(!root.is_child_of(&root));
}

#[test]
fn nodes_are_the_same_where_their_paths_are() {
    let a = group().child("thread_A").unwrap();
    let b = group().child("thread_A").unwrap();
    let c = group().child("thread_B").unwrap();
    assert!(a.same_path(&b));
    assert!(!a.same_path(&c));
    assert!(!a.same_path(&group()));
    assert!(a.clone().same_path(&a));
    let elsewhere = HierarchyNode::root().child("other").unwrap().child("thread_A").unwrap();
    assert!(!a.same_path(&elsewhere));
    assert!(!a.is_child_of(&HierarchyNode::root().child("other").unwrap()));
}

#[test]
fn names_that_cannot_name_a_node_are_refused() {
    assert!(is_valid_name("my_cgroup"));
    assert!(is_valid_name("thread_A"));
    assert!(is_valid_name("..."));
    assert!(is_valid_name(".hidden"));
    assert!(is_valid_name("gr\u{fc}n"));
    assert!(!is_valid_name(""));
    assert!(!is_valid_name("."));
    assert!(!is_valid_name(".."));
    assert!(!is_valid_name("a/b"));
    assert!(!is_valid_name("/"));
    assert!(!is_valid_name("a\0b"));
    assert!(HierarchyNode::root().child("a/b").is_none());
    assert!(HierarchyNode::root().child("").is_none());
    assert!(HierarchyNode::root().child("..").is_none());
}
