//! Operations on the control-group tree, as plain values.
//!
//! Whoever holds the tree performs an operation and reports how it went; the
//! rest of the crate only builds operations and reads the reports.

use vstd::prelude::*;
use crate::error::GatewayError;
use crate::node::{HierarchyNode, NodePath};
use crate::text::append_bytes;
use crate::wire::Attribute;

verus! {

/// One operation on the control-group tree.
#[derive(Debug)]
pub enum GatewayOp {
    /// Read an attribute of a node.
    Read { node: HierarchyNode, attribute: Attribute },
    /// Write a value to an attribute of a node.
    Write { node: HierarchyNode, attribute: Attribute, value: Vec<u8> },
    /// Create a node below an existing one.
    CreateNode { node: HierarchyNode },
    /// Remove a node that has neither members nor children.
    RemoveNode { node: HierarchyNode },
}

/// The mathematical form of a [`GatewayOp`].
pub enum OpView {
    Read { node: NodePath, attribute: Attribute },
    Write { node: NodePath, attribute: Attribute, value: Seq<u8> },
    CreateNode { node: NodePath },
    RemoveNode { node: NodePath },
}

impl OpView {
    /// The node the operation is about.
    pub open spec fn target(self) -> NodePath {
        match self {
            OpView::Read { node, .. } => node,
            OpView::Write { node, .. } => node,
            OpView::CreateNode { node } => node,
            OpView::RemoveNode { node } => node,
        }
    }
}

impl View for GatewayOp {
    type V = OpView;

    open spec fn view(&self) -> OpView {
        match self {
            GatewayOp::Read { node, attribute } => OpView::Read {
                node: node@,
                attribute: *attribute,
            },
            GatewayOp::Write { node, attribute, value } => OpView::Write {
                node: node@,
                attribute: *attribute,
                value: value@,
            },
            GatewayOp::CreateNode { node } => OpView::CreateNode { node: node@ },
            GatewayOp::RemoveNode { node } => OpView::RemoveNode { node: node@ },
        }
    }
}

impl Clone for GatewayOp {
    fn clone(&self) -> (copy: Self)
        ensures
            copy@ == self@,
    {
        match self {
            GatewayOp::Read { node, attribute } => GatewayOp::Read {
                node: node.clone(),
                attribute: *attribute,
            },
            GatewayOp::Write { node, attribute, value } => {
                let mut bytes: Vec<u8> = Vec::new();
                append_bytes(&mut bytes, value.as_slice());
                GatewayOp::Write { node: node.clone(), attribute: *attribute, value: bytes }
            },
            GatewayOp::CreateNode { node } => GatewayOp::CreateNode { node: node.clone() },
            GatewayOp::RemoveNode { node } => GatewayOp::RemoveNode { node: node.clone() },
        }
    }
}

impl GatewayOp {
    /// The node the operation is about.
    pub fn target(&self) -> (node: &HierarchyNode)
        ensures
            node@ == self@.target(),
    {
        match self {
            GatewayOp::Read { node, .. } => node,
            GatewayOp::Write { node, .. } => node,
            GatewayOp::CreateNode { node } => node,
            GatewayOp::RemoveNode { node } => node,
        }
    }
}

/// The mathematical form of a list of operations.
pub open spec fn ops_view(ops: Seq<GatewayOp>) -> Seq<OpView> {
    Seq::new(ops.len(), |i: int| ops[i]@)
}

/// What a performed operation reports: the bytes read, which are none unless
/// the operation was a read, or the failure.
pub open spec fn report_view(report: Result<Vec<u8>, GatewayError>) -> Result<
    Seq<u8>,
    GatewayError,
> {
    match report {
        Ok(bytes) => Ok(bytes@),
        Err(error) => Err(error),
    }
}

} // verus!
