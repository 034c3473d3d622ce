//! The rules of the control-group tree, as mathematics.
//!
//! A [`Hierarchy`] is one state of the tree. Each operation is a function from
//! the state before to the state after and the report; a failed operation
//! leaves the state as it was.

use vstd::prelude::*;
use crate::error::GatewayError;
use crate::gateway::OpView;
use crate::node::{is_child_path, parent_path, NodePath};
use crate::text::{decimal, LINE_FEED};
use crate::wire::{
    ceiling_text, controllers_text, names_threaded, parse_ceiling, parse_directives,
    parse_thread_id, parse_weight, type_text, Attribute, Controller, CpuCeiling, DEFAULT_WEIGHT,
};

verus! {

/// What is configured at one group.
pub struct GroupState {
    /// Whether the group takes single threads as members.
    pub threaded: bool,
    /// The group's share of CPU time among its siblings.
    pub weight: u32,
    /// The ceiling on the group's CPU time.
    pub ceiling: CpuCeiling,
    /// The controllers handed down to the group's children.
    pub delegated: Set<Controller>,
}

impl GroupState {
    /// A group as it is right after its creation.
    pub open spec fn fresh() -> GroupState {
        GroupState {
            threaded: false,
            weight: DEFAULT_WEIGHT,
            ceiling: CpuCeiling::spec_unlimited(),
            delegated: Set::empty(),
        }
    }
}

/// A thread and the one group it is a member of.
pub struct Membership {
    pub thread: u64,
    pub node: NodePath,
}

/// The memberships without that of `thread`, in the same order.
pub open spec fn without_thread(threads: Seq<Membership>, thread: u64) -> Seq<Membership>
    decreases threads.len(),
{
    if threads.len() == 0 {
        threads
    } else if threads.last().thread == thread {
        without_thread(threads.drop_last(), thread)
    } else {
        without_thread(threads.drop_last(), thread).push(threads.last())
    }
}

/// What the membership list of `node` reads as: the members in the order in
/// which they joined, each as a decimal numeral and a line feed.
pub open spec fn threads_text(threads: Seq<Membership>, node: NodePath) -> Seq<u8>
    decreases threads.len(),
{
    if threads.len() == 0 {
        Seq::empty()
    } else if threads.last().node == node {
        threads_text(threads.drop_last(), node) + decimal(threads.last().thread as nat).push(
            LINE_FEED,
        )
    } else {
        threads_text(threads.drop_last(), node)
    }
}

/// The state after an operation that changes the tree, and its report.
pub struct Change {
    pub after: Hierarchy,
    pub result: Result<(), GatewayError>,
}

/// The state after any operation, and its report: the bytes read, which are
/// none unless the operation was a read, or the failure.
pub struct Outcome {
    pub after: Hierarchy,
    pub result: Result<Seq<u8>, GatewayError>,
}

/// One state of the control-group tree.
pub struct Hierarchy {
    /// The groups that exist, by path, with what is configured at each.
    pub groups: Map<NodePath, GroupState>,
    /// The threads that are members of a group, in the order in which they
    /// joined their present group.
    pub threads: Seq<Membership>,
    /// Whether the holder of the tree may change it.
    pub privileged: bool,
}

impl Hierarchy {
    /// The tree with nothing but its top.
    pub open spec fn initial(privileged: bool) -> Hierarchy {
        Hierarchy {
            groups: Map::empty().insert(Seq::empty(), GroupState::fresh()),
            threads: Seq::empty(),
            privileged,
        }
    }

    /// What holds of every state that the operations can reach: the top
    /// exists, every other group has its parent, every member sits in a group
    /// that exists, and no thread is a member twice.
    pub open spec fn wf(self) -> bool {
        &&& self.groups.contains_key(Seq::empty())
        &&& forall|node: NodePath| #[trigger]
            self.groups.contains_key(node) && node.len() > 0 ==> self.groups.contains_key(
                parent_path(node),
            )
        &&& forall|i: int|
            0 <= i < self.threads.len() ==> self.groups.contains_key(
                (#[trigger] self.threads[i]).node,
            )
        &&& forall|i: int, j: int|
            0 <= i < j < self.threads.len() ==> (#[trigger] self.threads[i]).thread != (
            #[trigger] self.threads[j]).thread
    }

    /// Whether a group exists at `node`.
    pub open spec fn has_node(self, node: NodePath) -> bool {
        self.groups.contains_key(node)
    }

    /// The controllers a group can use: all of them at the top, below it those
    /// that the parent hands down.
    pub open spec fn available(self, node: NodePath) -> Set<Controller> {
        if node.len() == 0 {
            Set::full()
        } else if self.has_node(parent_path(node)) {
            self.groups[parent_path(node)].delegated
        } else {
            Set::empty()
        }
    }

    /// Whether `node` exists and has the attribute. The top has neither a type
    /// nor CPU settings; below it the CPU settings come with the CPU
    /// controller.
    pub open spec fn has_attribute(self, node: NodePath, attribute: Attribute) -> bool {
        self.has_node(node) && match attribute {
            Attribute::Type => node.len() > 0,
            Attribute::CpuWeight => node.len() > 0 && self.available(node).contains(
                Controller::Cpu,
            ),
            Attribute::CpuMax => node.len() > 0 && self.available(node).contains(Controller::Cpu),
            Attribute::SubtreeControl => true,
            Attribute::Threads => true,
        }
    }

    /// Whether a group exists directly below `node`.
    pub open spec fn has_children(self, node: NodePath) -> bool {
        exists|child: NodePath| #[trigger]
            self.groups.contains_key(child) && is_child_path(child, node)
    }

    /// Whether some thread is a member of `node`.
    pub open spec fn has_members(self, node: NodePath) -> bool {
        exists|i: int| 0 <= i < self.threads.len() && (#[trigger] self.threads[i]).node == node
    }

    /// Whether `thread` is a member of `node`.
    pub open spec fn is_member(self, thread: u64, node: NodePath) -> bool {
        exists|i: int|
            0 <= i < self.threads.len() && #[trigger] self.threads[i] == (Membership {
                thread,
                node,
            })
    }

    /// A failed change: the state stays.
    pub open spec fn refuse(self, error: GatewayError) -> Change {
        Change { after: self, result: Err(error) }
    }

    /// The state with `state` configured at `node`.
    pub open spec fn with_group(self, node: NodePath, state: GroupState) -> Hierarchy {
        Hierarchy { groups: self.groups.insert(node, state), ..self }
    }

    /// Creating a group at `node`: refused where the path is taken, then
    /// where the parent is missing, then where the holder may not change the
    /// tree.
    pub open spec fn create_node(self, node: NodePath) -> Change {
        if self.has_node(node) {
            self.refuse(GatewayError::AlreadyExists)
        } else if !self.has_node(parent_path(node)) {
            self.refuse(GatewayError::NotFound)
        } else if !self.privileged {
            self.refuse(GatewayError::PermissionDenied)
        } else {
            Change { after: self.with_group(node, GroupState::fresh()), result: Ok(()) }
        }
    }

    /// Removing the group at `node`: refused where no group is there, then
    /// where the holder may not change the tree, then where the group is the
    /// top of the tree or has children or members.
    pub open spec fn remove_node(self, node: NodePath) -> Change {
        if !self.has_node(node) {
            self.refuse(GatewayError::NotFound)
        } else if !self.privileged {
            self.refuse(GatewayError::PermissionDenied)
        } else if node.len() == 0 || self.has_children(node) || self.has_members(node) {
            self.refuse(GatewayError::Busy)
        } else {
            Change { after: Hierarchy { groups: self.groups.remove(node), ..self }, result: Ok(()) }
        }
    }

    /// Writing `value` to an attribute that exists, by a holder who may. A
    /// value that does not fit the grammar is an invalid value. Beyond that,
    /// a group hands down only controllers that it can use itself, and a
    /// thread joins only a threaded group that can use the CPU controller;
    /// joining takes the thread out of the group it was in.
    pub open spec fn apply_value(
        self,
        node: NodePath,
        attribute: Attribute,
        value: Seq<u8>,
    ) -> Change {
        let group = self.groups[node];
        match attribute {
            Attribute::Type => if names_threaded(value) {
                Change {
                    after: self.with_group(node, GroupState { threaded: true, ..group }),
                    result: Ok(()),
                }
            } else {
                self.refuse(GatewayError::InvalidValue)
            },
            Attribute::CpuWeight => match parse_weight(value) {
                Some(weight) => Change {
                    after: self.with_group(node, GroupState { weight, ..group }),
                    result: Ok(()),
                },
                None => self.refuse(GatewayError::InvalidValue),
            },
            Attribute::CpuMax => match parse_ceiling(value) {
                Some(ceiling) => Change {
                    after: self.with_group(node, GroupState { ceiling, ..group }),
                    result: Ok(()),
                },
                None => self.refuse(GatewayError::InvalidValue),
            },
            Attribute::SubtreeControl => match parse_directives(value) {
                Some(asked) => if asked.subset_of(self.available(node)) {
                    Change {
                        after: self.with_group(
                            node,
                            GroupState { delegated: group.delegated.union(asked), ..group },
                        ),
                        result: Ok(()),
                    }
                } else {
                    self.refuse(GatewayError::NotFound)
                },
                None => self.refuse(GatewayError::InvalidValue),
            },
            Attribute::Threads => match parse_thread_id(value) {
                Some(thread) => if !group.threaded {
                    self.refuse(GatewayError::InvalidValue)
                } else if !self.available(node).contains(Controller::Cpu) {
                    self.refuse(GatewayError::NotFound)
                } else {
                    Change {
                        after: Hierarchy {
                            threads: without_thread(self.threads, thread).push(
                                Membership { thread, node },
                            ),
                            ..self
                        },
                        result: Ok(()),
                    }
                },
                None => self.refuse(GatewayError::InvalidValue),
            },
        }
    }

    /// Writing `value` to an attribute of `node`: refused where the group or
    /// the attribute is missing, then where the holder may not change the
    /// tree, then as [`Hierarchy::apply_value`] says.
    pub open spec fn write(self, node: NodePath, attribute: Attribute, value: Seq<u8>) -> Change {
        if !self.has_attribute(node, attribute) {
            self.refuse(GatewayError::NotFound)
        } else if !self.privileged {
            self.refuse(GatewayError::PermissionDenied)
        } else {
            self.apply_value(node, attribute, value)
        }
    }

    /// Reading an attribute of `node`, which anybody may: refused where the
    /// group or the attribute is missing.
    pub open spec fn read(self, node: NodePath, attribute: Attribute) -> Result<
        Seq<u8>,
        GatewayError,
    > {
        if !self.has_attribute(node, attribute) {
            Err(GatewayError::NotFound)
        } else {
            let group = self.groups[node];
            Ok(
                match attribute {
                    Attribute::Type => type_text(group.threaded),
                    Attribute::CpuWeight => decimal(group.weight as nat).push(LINE_FEED),
                    Attribute::CpuMax => ceiling_text(group.ceiling).push(LINE_FEED),
                    Attribute::SubtreeControl => controllers_text(group.delegated),
                    Attribute::Threads => threads_text(self.threads, node),
                },
            )
        }
    }

    /// The state once `thread` has ended: it is a member of no group.
    pub open spec fn release(self, thread: u64) -> Hierarchy {
        Hierarchy { threads: without_thread(self.threads, thread), ..self }
    }

    /// Performing any operation.
    pub open spec fn perform(self, op: OpView) -> Outcome {
        match op {
            OpView::Read { node, attribute } => Outcome {
                after: self,
                result: self.read(node, attribute),
            },
            OpView::Write { node, attribute, value } => {
                let change = self.write(node, attribute, value);
                Outcome { after: change.after, result: silent(change.result) }
            },
            OpView::CreateNode { node } => {
                let change = self.create_node(node);
                Outcome { after: change.after, result: silent(change.result) }
            },
            OpView::RemoveNode { node } => {
                let change = self.remove_node(node);
                Outcome { after: change.after, result: silent(change.result) }
            },
        }
    }
}

/// The report of a change in the form of any operation's report: no bytes.
pub open spec fn silent(result: Result<(), GatewayError>) -> Result<Seq<u8>, GatewayError> {
    match result {
        Ok(_) => Ok(Seq::empty()),
        Err(error) => Err(error),
    }
}

/// Every membership that is left once `thread` is taken out is one that was
/// there, of another thread; the others all stay; and no thread that was a
/// member once is a member twice.
pub proof fn without_thread_keeps(threads: Seq<Membership>, thread: u64)
    ensures
        forall|j: int|
            0 <= j < without_thread(threads, thread).len() ==> (#[trigger] without_thread(
                threads,
                thread,
            )[j]).thread != thread && threads.contains(without_thread(threads, thread)[j]),
        forall|i: int|
            0 <= i < threads.len() && (#[trigger] threads[i]).thread != thread
                ==> without_thread(threads, thread).contains(threads[i]),
        (forall|i: int, j: int|
            0 <= i < j < threads.len() ==> (#[trigger] threads[i]).thread != (
            #[trigger] threads[j]).thread) ==> (forall|i: int, j: int|
            0 <= i < j < without_thread(threads, thread).len() ==> (#[trigger] without_thread(
                threads,
                thread,
            )[i]).thread != (#[trigger] without_thread(threads, thread)[j]).thread),
    decreases threads.len(),
{
    let kept = without_thread(threads, thread);
    if threads.len() > 0 {
        let front = threads.drop_last();
        let kept_front = without_thread(front, thread);
        without_thread_keeps(front, thread);
        assert forall|i: int|
            0 <= i < threads.len() && (#[trigger] threads[i]).thread
                != thread implies kept.contains(threads[i]) by {
            if i < front.len() {
                let k = choose|k: int| 0 <= k < kept_front.len() && kept_front[k] == front[i];
                assert(kept[k] == threads[i]);
            } else {
                assert(kept[kept.len() - 1] == threads[i]);
            }
        }
    }
}

impl Hierarchy {
    /// Creating a group never leaves the states that the operations can
    /// reach.
    pub proof fn create_node_keeps_wf(self, node: NodePath)
        requires
            self.wf(),
        ensures
            self.create_node(node).after.wf(),
    {
    }

    /// Removing a group never leaves the states that the operations can
    /// reach.
    pub proof fn remove_node_keeps_wf(self, node: NodePath)
        requires
            self.wf(),
        ensures
            self.remove_node(node).after.wf(),
    {
    }

    /// Writing a value never leaves the states that the operations can
    /// reach.
    pub proof fn write_keeps_wf(self, node: NodePath, attribute: Attribute, value: Seq<u8>)
        requires
            self.wf(),
        ensures
            self.write(node, attribute, value).after.wf(),
    {
        if let Some(thread) = parse_thread_id(value) {
            without_thread_keeps(self.threads, thread);
        }
    }

    /// The end of a thread never leaves the states that the operations can
    /// reach, and leaves the thread a member of no group.
    pub proof fn release_keeps_wf(self, thread: u64)
        requires
            self.wf(),
        ensures
            self.release(thread).wf(),
            forall|node: NodePath| !self.release(thread).is_member(thread, node),
    {
        without_thread_keeps(self.threads, thread);
    }

    /// Performing any operation never leaves the states that the operations
    /// can reach.
    pub proof fn perform_keeps_wf(self, op: OpView)
        requires
            self.wf(),
        ensures
            self.perform(op).after.wf(),
    {
        if let OpView::Write { node, attribute, value } = op {
            self.write_keeps_wf(node, attribute, value);
        }
    }
}

} // verus!
