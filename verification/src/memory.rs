//! A control-group tree held in memory.
//!
//! [`MemoryHierarchy`] performs every operation exactly as the rules of
//! [`crate::model`] say, so a run against it shows what the same run would do
//! to a tree that follows those rules.

use vstd::prelude::*;
use crate::error::GatewayError;
use crate::gateway::{report_view, GatewayOp};
use crate::model::{
    threads_text, without_thread, GroupState, Hierarchy, Membership,
};
use crate::node::{is_child_path, HierarchyNode, NodePath};
use crate::text::{append_bytes, encode_decimal, LINE_FEED};
use crate::wire::{
    decode_ceiling, decode_directives, decode_thread_id, decode_threaded, decode_weight,
    encode_ceiling, encode_controllers, encode_type, Attribute, Controller, ControllerSet,
    CpuCeiling, DEFAULT_WEIGHT,
};

verus! {

/// One group of the tree and what is configured at it.
struct Group {
    node: HierarchyNode,
    threaded: bool,
    weight: u32,
    ceiling: CpuCeiling,
    delegated: ControllerSet,
}

/// One thread and the group it is a member of.
struct Member {
    thread: u64,
    node: HierarchyNode,
}

impl Group {
    spec fn state(self) -> GroupState {
        GroupState {
            threaded: self.threaded,
            weight: self.weight,
            ceiling: self.ceiling,
            delegated: self.delegated@,
        }
    }
}

/// No two groups of the list have the same path.
spec fn distinct(groups: Seq<Group>) -> bool {
    forall|i: int, j: int|
        0 <= i < j < groups.len() ==> (#[trigger] groups[i]).node@ != (#[trigger] groups[j]).node@
}

/// Whether the list holds a group at `node`.
spec fn listed(groups: Seq<Group>, node: NodePath) -> bool {
    exists|i: int| 0 <= i < groups.len() && (#[trigger] groups[i]).node@ == node
}

/// The place in the list of the group at `node`.
spec fn slot(groups: Seq<Group>, node: NodePath) -> int {
    choose|i: int| 0 <= i < groups.len() && (#[trigger] groups[i]).node@ == node
}

/// The groups of the list, by path.
spec fn groups_map(groups: Seq<Group>) -> Map<NodePath, GroupState> {
    Map::new(
        |node: NodePath| listed(groups, node),
        |node: NodePath| groups[slot(groups, node)].state(),
    )
}

/// The memberships of the list, in its order.
spec fn members_view(members: Seq<Member>) -> Seq<Membership> {
    Seq::new(
        members.len(),
        |i: int| Membership { thread: members[i].thread, node: members[i].node@ },
    )
}

proof fn lemma_push(groups: Seq<Group>, group: Group)
    requires
        distinct(groups),
        !listed(groups, group.node@),
    ensures
        distinct(groups.push(group)),
        groups_map(groups.push(group)) == groups_map(groups).insert(group.node@, group.state()),
{
    let longer = groups.push(group);
    let before = groups_map(groups).insert(group.node@, group.state());
    let after = groups_map(longer);
    assert forall|node: NodePath| before.contains_key(node) == after.contains_key(node) by {
        if after.contains_key(node) {
            let k = slot(longer, node);
            assert(longer[k].node@ == node);
        }
        if before.contains_key(node) {
            if node == group.node@ {
                assert(longer[groups.len() as int] == group);
            } else {
                let k = slot(groups, node);
                assert(longer[k] == groups[k]);
            }
        }
    }
}

proof fn lemma_remove(groups: Seq<Group>, at: int)
    requires
        distinct(groups),
        0 <= at < groups.len(),
    ensures
        distinct(groups.remove(at)),
        groups_map(groups.remove(at)) == groups_map(groups).remove(groups[at].node@),
{
    let shorter = groups.remove(at);
    let before = groups_map(groups).remove(groups[at].node@);
    let after = groups_map(shorter);
    assert forall|node: NodePath| before.contains_key(node) == after.contains_key(node) by {
        if after.contains_key(node) {
            let k = slot(shorter, node);
            let a = if k < at { k } else { k + 1 };
            assert(shorter[k] == groups[a]);
        }
        if before.contains_key(node) {
            let k = slot(groups, node);
            let b = if k < at { k } else { k - 1 };
            assert(shorter[b] == groups[k]);
        }
    }
}

proof fn lemma_update(groups: Seq<Group>, at: int, group: Group)
    requires
        distinct(groups),
        0 <= at < groups.len(),
        group.node@ == groups[at].node@,
    ensures
        distinct(groups.update(at, group)),
        groups_map(groups.update(at, group)) == groups_map(groups).insert(
            group.node@,
            group.state(),
        ),
{
    let changed = groups.update(at, group);
    let before = groups_map(groups).insert(group.node@, group.state());
    let after = groups_map(changed);
    assert forall|node: NodePath| before.contains_key(node) == after.contains_key(node) by {
        if before.contains_key(node) {
            if node == group.node@ {
                assert(changed[at] == group);
            } else {
                let k = slot(groups, node);
                assert(changed[k] == groups[k]);
            }
        }
    }
}

/// A control-group tree held in memory.
pub struct MemoryHierarchy {
    groups: Vec<Group>,
    members: Vec<Member>,
    privileged: bool,
}

impl View for MemoryHierarchy {
    type V = Hierarchy;

    closed spec fn view(&self) -> Hierarchy {
        Hierarchy {
            groups: groups_map(self.groups@),
            threads: members_view(self.members@),
            privileged: self.privileged,
        }
    }
}

impl MemoryHierarchy {
    /// What every tree built by this module satisfies: its state is one that
    /// the operations can reach.
    pub closed spec fn wf(&self) -> bool {
        distinct(self.groups@) && self@.wf()
    }

    /// A tree is well formed only in a well-formed state.
    pub proof fn wf_state(&self)
        requires
            self.wf(),
        ensures
            self@.wf(),
    {
    }

    fn with_privilege(privileged: bool) -> (tree: Self)
        ensures
            tree.wf(),
            tree@ == Hierarchy::initial(privileged),
    {
        let top = Group {
            node: HierarchyNode::root(),
            threaded: false,
            weight: DEFAULT_WEIGHT,
            ceiling: CpuCeiling::unlimited(),
            delegated: ControllerSet::empty(),
        };
        let mut groups: Vec<Group> = Vec::new();
        proof {
            assert(groups_map(groups@) =~= Map::<NodePath, GroupState>::empty());
            lemma_push(groups@, top);
        }
        groups.push(top);
        let tree = MemoryHierarchy { groups, members: Vec::new(), privileged };
        assert(tree@.threads =~= Seq::<Membership>::empty());
        tree
    }

    /// A tree with nothing but its top, held by someone who may change it.
    pub fn new() -> (tree: Self)
        ensures
            tree.wf(),
            tree@ == Hierarchy::initial(true),
    {
        Self::with_privilege(true)
    }

    /// A tree with nothing but its top, held by someone who may not change it.
    pub fn unprivileged() -> (tree: Self)
        ensures
            tree.wf(),
            tree@ == Hierarchy::initial(false),
    {
        Self::with_privilege(false)
    }

    fn find(&self, node: &HierarchyNode) -> (found: Option<usize>)
        ensures
            match found {
                Some(i) => i < self.groups@.len() && self.groups@[i as int].node@ == node@,
                None => !listed(self.groups@, node@),
            },
    {
        let mut i: usize = 0;
        while i < self.groups.len()
            invariant
                i <= self.groups@.len(),
                forall|j: int| 0 <= j < i ==> (#[trigger] self.groups@[j]).node@ != node@,
            decreases self.groups@.len() - i,
        {
            if self.groups[i].node.same_path(node) {
                return Some(i);
            }
            i += 1;
        }
        None
    }

    fn available(&self, node: &HierarchyNode) -> (set: ControllerSet)
        requires
            self.wf(),
        ensures
            set@ == self@.available(node@),
    {
        match node.parent() {
            None => ControllerSet::all(),
            Some(parent) => match self.find(&parent) {
                Some(i) => self.groups[i].delegated,
                None => ControllerSet::empty(),
            },
        }
    }

    fn locate(&self, node: &HierarchyNode, attribute: Attribute) -> (found: Option<usize>)
        requires
            self.wf(),
        ensures
            match found {
                Some(i) => self@.has_attribute(node@, attribute) && i < self.groups@.len()
                    && self.groups@[i as int].node@ == node@,
                None => !self@.has_attribute(node@, attribute),
            },
    {
        let at = match self.find(node) {
            Some(i) => i,
            None => {
                return None;
            },
        };
        let present = match attribute {
            Attribute::Type => !node.is_root(),
            Attribute::CpuWeight => !node.is_root() && self.available(node).contains(
                Controller::Cpu,
            ),
            Attribute::CpuMax => !node.is_root() && self.available(node).contains(Controller::Cpu),
            Attribute::SubtreeControl => true,
            Attribute::Threads => true,
        };
        if present {
            Some(at)
        } else {
            None
        }
    }

    fn has_children(&self, node: &HierarchyNode) -> (found: bool)
        requires
            self.wf(),
        ensures
            found == self@.has_children(node@),
    {
        let mut i: usize = 0;
        while i < self.groups.len()
            invariant
                i <= self.groups@.len(),
                distinct(self.groups@),
                forall|j: int|
                    0 <= j < i ==> !is_child_path((#[trigger] self.groups@[j]).node@, node@),
            decreases self.groups@.len() - i,
        {
            if self.groups[i].node.is_child_of(node) {
                assert(self@.groups.contains_key(self.groups@[i as int].node@));
                return true;
            }
            i += 1;
        }
        false
    }

    fn has_members(&self, node: &HierarchyNode) -> (found: bool)
        ensures
            found == self@.has_members(node@),
    {
        let mut i: usize = 0;
        while i < self.members.len()
            invariant
                i <= self.members@.len(),
                forall|j: int| 0 <= j < i ==> (#[trigger] self.members@[j]).node@ != node@,
            decreases self.members@.len() - i,
        {
            if self.members[i].node.same_path(node) {
                assert(self@.threads[i as int].node == node@);
                return true;
            }
            i += 1;
        }
        false
    }

    fn drop_member(&mut self, thread: u64)
        ensures
            final(self).groups == old(self).groups,
            final(self).privileged == old(self).privileged,
            members_view(final(self).members@) == without_thread(
                members_view(old(self).members@),
                thread,
            ),
    {
        let mut kept: Vec<Member> = Vec::new();
        let mut i: usize = 0;
        let ghost all = members_view(self.members@);
        while i < self.members.len()
            invariant
                i <= self.members@.len(),
                all == members_view(self.members@),
                members_view(kept@) == without_thread(all.take(i as int), thread),
            decreases self.members@.len() - i,
        {
            assert(all.take(i + 1).drop_last() =~= all.take(i as int));
            if self.members[i].thread != thread {
                let member = Member {
                    thread: self.members[i].thread,
                    node: self.members[i].node.clone(),
                };
                kept.push(member);
            }
            i += 1;
        }
        assert(all.take(all.len() as int) =~= all);
        self.members = kept;
    }

    /// Whether a group exists at `node`.
    pub fn contains(&self, node: &HierarchyNode) -> (found: bool)
        requires
            self.wf(),
        ensures
            found == self@.has_node(node@),
    {
        self.find(node).is_some()
    }

    /// Creates a group at `node`, as [`Hierarchy::create_node`] says.
    pub fn create_node(&mut self, node: &HierarchyNode) -> (result: Result<(), GatewayError>)
        requires
            old(self).wf(),
        ensures
            final(self).wf(),
            final(self)@ == old(self)@.create_node(node@).after,
            result == old(self)@.create_node(node@).result,
    {
        if self.find(node).is_some() {
            return Err(GatewayError::AlreadyExists);
        }
        let parent_found = match node.parent() {
            Some(parent) => self.find(&parent).is_some(),
            None => {
                assert(node@ =~= Seq::<Seq<char>>::empty());
                false
            },
        };
        if !parent_found {
            return Err(GatewayError::NotFound);
        }
        if !self.privileged {
            return Err(GatewayError::PermissionDenied);
        }
        let group = Group {
            node: node.clone(),
            threaded: false,
            weight: DEFAULT_WEIGHT,
            ceiling: CpuCeiling::unlimited(),
            delegated: ControllerSet::empty(),
        };
        proof {
            lemma_push(self.groups@, group);
        }
        self.groups.push(group);
        Ok(())
    }

    /// Removes the group at `node`, as [`Hierarchy::remove_node`] says.
    pub fn remove_node(&mut self, node: &HierarchyNode) -> (result: Result<(), GatewayError>)
        requires
            old(self).wf(),
        ensures
            final(self).wf(),
            final(self)@ == old(self)@.remove_node(node@).after,
            result == old(self)@.remove_node(node@).result,
    {
        let at = match self.find(node) {
            Some(i) => i,
            None => {
                return Err(GatewayError::NotFound);
            },
        };
        if !self.privileged {
            return Err(GatewayError::PermissionDenied);
        }
        if node.is_root() || self.has_children(node) || self.has_members(node) {
            return Err(GatewayError::Busy);
        }
        proof {
            lemma_remove(self.groups@, at as int);
        }
        self.groups.remove(at);
        Ok(())
    }

    /// Writes `value` to an attribute of `node`, as [`Hierarchy::write`] says.
    pub fn write(&mut self, node: &HierarchyNode, attribute: Attribute, value: &[u8]) -> (result:
        Result<(), GatewayError>)
        requires
            old(self).wf(),
        ensures
            final(self).wf(),
            final(self)@ == old(self)@.write(node@, attribute, value@).after,
            result == old(self)@.write(node@, attribute, value@).result,
    {
        proof {
            self@.write_keeps_wf(node@, attribute, value@);
        }
        let at = match self.locate(node, attribute) {
            Some(i) => i,
            None => {
                return Err(GatewayError::NotFound);
            },
        };
        if !self.privileged {
            return Err(GatewayError::PermissionDenied);
        }
        let ghost before = self.groups@;
        match attribute {
            Attribute::Type => {
                if !decode_threaded(value) {
                    return Err(GatewayError::InvalidValue);
                }
                self.groups[at].threaded = true;
            },
            Attribute::CpuWeight => {
                match decode_weight(value) {
                    Some(weight) => {
                        self.groups[at].weight = weight;
                    },
                    None => {
                        return Err(GatewayError::InvalidValue);
                    },
                }
            },
            Attribute::CpuMax => {
                match decode_ceiling(value) {
                    Some(ceiling) => {
                        self.groups[at].ceiling = ceiling;
                    },
                    None => {
                        return Err(GatewayError::InvalidValue);
                    },
                }
            },
            Attribute::SubtreeControl => {
                match decode_directives(value) {
                    Some(asked) => {
                        if !asked.is_subset_of(&self.available(node)) {
                            return Err(GatewayError::NotFound);
                        }
                        let delegated = self.groups[at].delegated.union(asked);
                        self.groups[at].delegated = delegated;
                    },
                    None => {
                        return Err(GatewayError::InvalidValue);
                    },
                }
            },
            Attribute::Threads => {
                match decode_thread_id(value) {
                    Some(thread) => {
                        if !self.groups[at].threaded {
                            return Err(GatewayError::InvalidValue);
                        }
                        if !self.available(node).contains(Controller::Cpu) {
                            return Err(GatewayError::NotFound);
                        }
                        self.drop_member(thread);
                        let ghost kept = members_view(self.members@);
                        self.members.push(Member { thread, node: node.clone() });
                        assert(members_view(self.members@) =~= kept.push(
                            Membership { thread, node: node@ },
                        ));
                    },
                    None => {
                        return Err(GatewayError::InvalidValue);
                    },
                }
            },
        }
        proof {
            if attribute != Attribute::Threads {
                lemma_update(before, at as int, self.groups@[at as int]);
            }
        }
        Ok(())
    }

    /// Reads an attribute of `node`, as [`Hierarchy::read`] says.
    pub fn read(&self, node: &HierarchyNode, attribute: Attribute) -> (result: Result<
        Vec<u8>,
        GatewayError,
    >)
        requires
            self.wf(),
        ensures
            report_view(result) == self@.read(node@, attribute),
    {
        let at = match self.locate(node, attribute) {
            Some(i) => i,
            None => {
                return Err(GatewayError::NotFound);
            },
        };
        let group = &self.groups[at];
        let bytes = match attribute {
            Attribute::Type => encode_type(group.threaded),
            Attribute::CpuWeight => {
                let mut bytes = encode_decimal(group.weight as u64);
                bytes.push(LINE_FEED);
                bytes
            },
            Attribute::CpuMax => {
                let mut bytes = encode_ceiling(&group.ceiling);
                bytes.push(LINE_FEED);
                bytes
            },
            Attribute::SubtreeControl => encode_controllers(group.delegated),
            Attribute::Threads => self.list_members(node),
        };
        Ok(bytes)
    }

    fn list_members(&self, node: &HierarchyNode) -> (bytes: Vec<u8>)
        ensures
            bytes@ == threads_text(self@.threads, node@),
    {
        let mut bytes: Vec<u8> = Vec::new();
        let mut i: usize = 0;
        let ghost all = members_view(self.members@);
        while i < self.members.len()
            invariant
                i <= self.members@.len(),
                all == members_view(self.members@),
                bytes@ == threads_text(all.take(i as int), node@),
            decreases self.members@.len() - i,
        {
            assert(all.take(i + 1).drop_last() =~= all.take(i as int));
            if self.members[i].node.same_path(node) {
                let mut line = encode_decimal(self.members[i].thread);
                line.push(LINE_FEED);
                append_bytes(&mut bytes, line.as_slice());
            }
            i += 1;
        }
        assert(all.take(all.len() as int) =~= all);
        bytes
    }

    /// Takes `thread` out of whatever group it is a member of, as the end of
    /// the thread does.
    pub fn release_thread(&mut self, thread: u64)
        requires
            old(self).wf(),
        ensures
            final(self).wf(),
            final(self)@ == old(self)@.release(thread),
    {
        proof {
            self@.release_keeps_wf(thread);
        }
        self.drop_member(thread);
    }

    /// Performs `op`, as [`Hierarchy::perform`] says.
    pub fn perform(&mut self, op: &GatewayOp) -> (report: Result<Vec<u8>, GatewayError>)
        requires
            old(self).wf(),
        ensures
            final(self).wf(),
            final(self)@ == old(self)@.perform(op@).after,
            report_view(report) == old(self)@.perform(op@).result,
    {
        match op {
            GatewayOp::Read { node, attribute } => self.read(node, *attribute),
            GatewayOp::Write { node, attribute, value } => {
                match self.write(node, *attribute, value.as_slice()) {
                    Ok(()) => Ok(Vec::new()),
                    Err(error) => Err(error),
                }
            },
            GatewayOp::CreateNode { node } => {
                match self.create_node(node) {
                    Ok(()) => Ok(Vec::new()),
                    Err(error) => Err(error),
                }
            },
            GatewayOp::RemoveNode { node } => {
                match self.remove_node(node) {
                    Ok(()) => Ok(Vec::new()),
                    Err(error) => Err(error),
                }
            },
        }
    }
}

} // verus!
