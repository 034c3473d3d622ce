//! The failures a control-group tree can report.

use vstd::prelude::*;

verus! {

/// Why an operation on the control-group tree did not take effect.
#[derive(Clone, Copy, Debug, PartialEq, Eq, Structural)]
pub enum GatewayError {
    /// The node, its parent or the attribute does not exist.
    NotFound,
    /// The path is already taken, typically by a group an earlier run left behind.
    AlreadyExists,
    /// The caller may not change the tree.
    PermissionDenied,
    /// The value does not fit the attribute's grammar or range.
    InvalidValue,
    /// The node still has member threads or child nodes.
    Busy,
    /// A bounded wait ran out.
    Timeout,
}

impl GatewayError {
    /// The text of [`GatewayError::message`], one distinct sentence per kind.
    pub open spec fn spec_message(self) -> Seq<char> {
        match self {
            GatewayError::NotFound => "control group or attribute not found"@,
            GatewayError::AlreadyExists => "control group already exists"@,
            GatewayError::PermissionDenied => "permission denied: elevated privilege is needed"@,
            GatewayError::InvalidValue => "value rejected by the control-group attribute"@,
            GatewayError::Busy => "control group busy: members or child groups remain"@,
            GatewayError::Timeout => "timed out waiting for the control-group tree"@,
        }
    }

    /// A message that tells this kind of failure apart from every other.
    pub fn message(&self) -> (text: &'static str)
        ensures
            text@ == self.spec_message(),
    {
        match self {
            GatewayError::NotFound => "control group or attribute not found",
            GatewayError::AlreadyExists => "control group already exists",
            GatewayError::PermissionDenied => "permission denied: elevated privilege is needed",
            GatewayError::InvalidValue => "value rejected by the control-group attribute",
            GatewayError::Busy => "control group busy: members or child groups remain",
            GatewayError::Timeout => "timed out waiting for the control-group tree",
        }
    }
}

/// What went wrong at whoever holds the tree, before it is read as a
/// failure of the tree.
#[derive(Clone, Copy, Debug, PartialEq, Eq, Structural)]
pub enum FailureKind {
    /// Something that was named does not exist.
    NotFound,
    /// Something that was to be created exists.
    AlreadyExists,
    /// The caller lacks the privilege.
    PermissionDenied,
    /// An argument was refused.
    InvalidInput,
    /// The data handed over were refused.
    InvalidData,
    /// The operation is not supported in this place.
    Unsupported,
    /// What was to be changed is in use.
    ResourceBusy,
    /// A directory that was to be removed is not empty.
    DirectoryNotEmpty,
    /// The wait ran out.
    TimedOut,
    /// Anything else.
    Other,
}

/// The failure of the tree that a kind stands for; none for a kind that is
/// no failure of the tree.
pub open spec fn classified(kind: FailureKind) -> Option<GatewayError> {
    match kind {
        FailureKind::NotFound => Some(GatewayError::NotFound),
        FailureKind::AlreadyExists => Some(GatewayError::AlreadyExists),
        FailureKind::PermissionDenied => Some(GatewayError::PermissionDenied),
        FailureKind::InvalidInput => Some(GatewayError::InvalidValue),
        FailureKind::InvalidData => Some(GatewayError::InvalidValue),
        FailureKind::Unsupported => Some(GatewayError::InvalidValue),
        FailureKind::ResourceBusy => Some(GatewayError::Busy),
        FailureKind::DirectoryNotEmpty => Some(GatewayError::Busy),
        FailureKind::TimedOut => Some(GatewayError::Timeout),
        FailureKind::Other => None,
    }
}

/// Reads a kind as a failure of the tree, as [`classified`] says.
pub fn classify(kind: FailureKind) -> (error: Option<GatewayError>)
    ensures
        error == classified(kind),
{
    match kind {
        FailureKind::NotFound => Some(GatewayError::NotFound),
        FailureKind::AlreadyExists => Some(GatewayError::AlreadyExists),
        FailureKind::PermissionDenied => Some(GatewayError::PermissionDenied),
        FailureKind::InvalidInput => Some(GatewayError::InvalidValue),
        FailureKind::InvalidData => Some(GatewayError::InvalidValue),
        FailureKind::Unsupported => Some(GatewayError::InvalidValue),
        FailureKind::ResourceBusy => Some(GatewayError::Busy),
        FailureKind::DirectoryNotEmpty => Some(GatewayError::Busy),
        FailureKind::TimedOut => Some(GatewayError::Timeout),
        FailureKind::Other => None,
    }
}

/// No two kinds of failure share a message.
pub proof fn messages_are_distinct(a: GatewayError, b: GatewayError)
    requires
        a != b,
    ensures
        a.spec_message() != b.spec_message(),
{
    reveal_strlit("control group or attribute not found");
    reveal_strlit("control group already exists");
    reveal_strlit("permission denied: elevated privilege is needed");
    reveal_strlit("value rejected by the control-group attribute");
    reveal_strlit("control group busy: members or child groups remain");
    reveal_strlit("timed out waiting for the control-group tree");
    assert(a.spec_message().len() != b.spec_message().len());
}

} // verus!
