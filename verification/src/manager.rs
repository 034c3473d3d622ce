//! Delegating controllers, managing groups and binding threads.
//!
//! Each function builds the operation that does the work; it touches no tree.
//! What the operation does to a tree that follows the rules is stated in
//! [`crate::tree_laws`].

use vstd::prelude::*;
use vstd::string::*;
use crate::error::GatewayError;
use crate::gateway::{ops_view, GatewayOp, OpView};
use crate::node::{valid_name, HierarchyNode, NodePath};
use crate::text::{decimal, encode_decimal};
use crate::wire::{
    ceiling_text, directive_line, encode_ceiling, encode_directive, encode_threaded,
    threaded_text, Attribute, Controller, ControllerSet, CpuCeiling, MAX_WEIGHT, MIN_WEIGHT,
};

verus! {

/// A label and the CPU weight of the threads that run under it. Only the
/// ratio between the weights of sibling groups matters.
#[derive(Debug)]
pub struct WeightClass {
    pub label: String,
    pub weight: u32,
}

/// The mathematical form of a [`WeightClass`].
pub struct WeightClassView {
    pub label: Seq<char>,
    pub weight: u32,
}

impl WeightClassView {
    /// Whether the weight lies in the range a group accepts.
    pub open spec fn valid(self) -> bool {
        MIN_WEIGHT <= self.weight <= MAX_WEIGHT
    }
}

impl View for WeightClass {
    type V = WeightClassView;

    open spec fn view(&self) -> WeightClassView {
        WeightClassView { label: self.label@, weight: self.weight }
    }
}

impl Clone for WeightClass {
    fn clone(&self) -> (copy: Self)
        ensures
            copy@ == self@,
    {
        WeightClass { label: self.label.clone(), weight: self.weight }
    }
}

impl WeightClass {
    /// The class with this label and weight.
    pub fn new(label: &str, weight: u32) -> (class: Self)
        ensures
            class@ == (WeightClassView { label: label@, weight }),
    {
        WeightClass { label: String::from_str(label), weight }
    }

    /// Whether the weight lies in the range a group accepts.
    pub fn is_valid(&self) -> (valid: bool)
        ensures
            valid == self@.valid(),
    {
        MIN_WEIGHT <= self.weight && self.weight <= MAX_WEIGHT
    }
}

/// The operation that hands `controller` down to the children of `node`:
/// its directive and a line feed, written to the node's subtree control.
pub open spec fn delegate_op(node: NodePath, controller: Controller) -> OpView {
    OpView::Write {
        node,
        attribute: Attribute::SubtreeControl,
        value: directive_line(controller),
    }
}

/// The operations that hand `controllers` down to the children of `node`:
/// one write for each controller of the set, the CPU controller first.
pub open spec fn delegate_ops(node: NodePath, controllers: Set<Controller>) -> Seq<OpView> {
    let cpu = if controllers.contains(Controller::Cpu) {
        seq![delegate_op(node, Controller::Cpu)]
    } else {
        Seq::empty()
    };
    let cpuset = if controllers.contains(Controller::Cpuset) {
        seq![delegate_op(node, Controller::Cpuset)]
    } else {
        Seq::empty()
    };
    cpu + cpuset
}

/// The operation that sets the CPU weight of `node`.
pub open spec fn weight_op(node: NodePath, weight: u32) -> OpView {
    OpView::Write { node, attribute: Attribute::CpuWeight, value: decimal(weight as nat) }
}

/// The operation that sets the CPU ceiling of `node`.
pub open spec fn ceiling_op(node: NodePath, ceiling: CpuCeiling) -> OpView {
    OpView::Write { node, attribute: Attribute::CpuMax, value: ceiling_text(ceiling) }
}

/// The operation that lets `node` take single threads as members.
pub open spec fn threaded_op(node: NodePath) -> OpView {
    OpView::Write { node, attribute: Attribute::Type, value: threaded_text() }
}

/// The operation that makes `thread` a member of `node`.
pub open spec fn bind_op(node: NodePath, thread: u64) -> OpView {
    OpView::Write { node, attribute: Attribute::Threads, value: decimal(thread as nat) }
}

/// Builds the operation that hands `controller` down to the children of
/// `node`.
pub fn delegate_one(node: &HierarchyNode, controller: Controller) -> (op: GatewayOp)
    ensures
        op@ == delegate_op(node@, controller),
{
    GatewayOp::Write {
        node: node.clone(),
        attribute: Attribute::SubtreeControl,
        value: encode_directive(controller),
    }
}

/// Hands `controllers` down to the children of `node`: one write to the
/// node's subtree control for each controller of the set, each an additive
/// directive and a line feed, the CPU controller first.
pub fn delegate(node: &HierarchyNode, controllers: ControllerSet) -> (ops: Vec<GatewayOp>)
    ensures
        ops_view(ops@) == delegate_ops(node@, controllers@),
{
    let mut ops: Vec<GatewayOp> = Vec::new();
    if controllers.contains(Controller::Cpu) {
        ops.push(delegate_one(node, Controller::Cpu));
    }
    if controllers.contains(Controller::Cpuset) {
        ops.push(delegate_one(node, Controller::Cpuset));
    }
    assert(ops_view(ops@) =~= delegate_ops(node@, controllers@));
    ops
}

/// Names the group `name` below `parent` and builds the operation that
/// creates it. A name that cannot name a node is refused as
/// [`GatewayError::InvalidValue`].
pub fn create_group(parent: &HierarchyNode, name: &str) -> (request: Result<
    (HierarchyNode, GatewayOp),
    GatewayError,
>)
    ensures
        match request {
            Ok((node, op)) => valid_name(name@) && node@ == parent@.push(name@) && op@
                == (OpView::CreateNode { node: parent@.push(name@) }),
            Err(error) => !valid_name(name@) && error == GatewayError::InvalidValue,
        },
{
    match parent.child(name) {
        Some(node) => {
            let op = GatewayOp::CreateNode { node: node.clone() };
            Ok((node, op))
        },
        None => Err(GatewayError::InvalidValue),
    }
}

/// Builds the operation that gives `node` the weight of `class`. A weight
/// outside the accepted range is refused as [`GatewayError::InvalidValue`].
pub fn set_weight(node: &HierarchyNode, class: &WeightClass) -> (request: Result<
    GatewayOp,
    GatewayError,
>)
    ensures
        match request {
            Ok(op) => class@.valid() && op@ == weight_op(node@, class.weight),
            Err(error) => !class@.valid() && error == GatewayError::InvalidValue,
        },
{
    if !class.is_valid() {
        return Err(GatewayError::InvalidValue);
    }
    Ok(
        GatewayOp::Write {
            node: node.clone(),
            attribute: Attribute::CpuWeight,
            value: encode_decimal(class.weight as u64),
        },
    )
}

/// Builds the operation that puts a ceiling on the CPU time of `node`. A
/// ceiling that cannot be set is refused as [`GatewayError::InvalidValue`].
pub fn set_ceiling(node: &HierarchyNode, ceiling: &CpuCeiling) -> (request: Result<
    GatewayOp,
    GatewayError,
>)
    ensures
        match request {
            Ok(op) => ceiling.valid() && op@ == ceiling_op(node@, *ceiling),
            Err(error) => !ceiling.valid() && error == GatewayError::InvalidValue,
        },
{
    if !ceiling.is_valid() {
        return Err(GatewayError::InvalidValue);
    }
    Ok(
        GatewayOp::Write {
            node: node.clone(),
            attribute: Attribute::CpuMax,
            value: encode_ceiling(ceiling),
        },
    )
}

/// Builds the operation that lets `node` take single threads as members.
pub fn set_threaded(node: &HierarchyNode) -> (op: GatewayOp)
    ensures
        op@ == threaded_op(node@),
{
    GatewayOp::Write { node: node.clone(), attribute: Attribute::Type, value: encode_threaded() }
}

/// Builds the operation that removes the group at `node`.
pub fn destroy_group(node: &HierarchyNode) -> (op: GatewayOp)
    ensures
        op@ == (OpView::RemoveNode { node: node@ }),
{
    GatewayOp::RemoveNode { node: node.clone() }
}

/// How a removal that only clears the way counts: a group that was not there
/// is as good as a group removed.
pub open spec fn forgiven(result: Result<(), GatewayError>) -> Result<(), GatewayError> {
    match result {
        Err(GatewayError::NotFound) => Ok(()),
        _ => result,
    }
}

/// Reads the report of a removal that only clears the way, as [`forgiven`]
/// says.
pub fn forgive_absent(result: Result<(), GatewayError>) -> (cleared: Result<(), GatewayError>)
    ensures
        cleared == forgiven(result),
{
    match result {
        Err(GatewayError::NotFound) => Ok(()),
        other => other,
    }
}

/// `gettid::gettid`: the kernel's identifier of the calling thread. Nothing
/// is claimed of the number.
#[verifier::external_body]
fn current_thread_id() -> u64 {
    gettid::gettid()
}

/// Builds the operation that makes `thread` a member of `node`.
pub fn bind_thread(node: &HierarchyNode, thread: u64) -> (op: GatewayOp)
    ensures
        op@ == bind_op(node@, thread),
{
    GatewayOp::Write {
        node: node.clone(),
        attribute: Attribute::Threads,
        value: encode_decimal(thread),
    }
}

/// Builds the operation that makes the calling thread a member of `node`.
/// The thread is always the one that calls: no thread can be bound from
/// outside.
pub fn bind_current_thread(node: &HierarchyNode) -> (op: GatewayOp)
    ensures
        exists|thread: u64| op@ == bind_op(node@, thread),
{
    bind_thread(node, current_thread_id())
}

} // verus!
