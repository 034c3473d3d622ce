use cgroup_harness::error::{classify, FailureKind, GatewayError};

#[test]
fn every_kind_of_failure_has_its_own_message() {
    let kinds = [
        GatewayError::NotFound,
        GatewayError::AlreadyExists,
        GatewayError::PermissionDenied,
        GatewayError::InvalidValue,
        GatewayError::Busy,
        GatewayError::Timeout,
    ];
    for (i, a) in kinds.iter().enumerate() {
        assert!(!a.message().is_empty());
        for (j, b) in kinds.iter().enumerate() {
            assert_eq!(i == j, a.message() == b.message());
        }
    }
    assert_eq!(
        GatewayError::Busy.message(),
        "control group busy: members or child groups remain"
    );
    assert_eq!(GatewayError::NotFound.message(), "control group or attribute not found");
}

#[test]
fn kinds_of_failure_are_read_as_failures_of_the_tree() {
    assert_eq!(classify(FailureKind::NotFound), Some(GatewayError::NotFound));
    assert_eq!(classify(FailureKind::AlreadyExists), Some(GatewayError::AlreadyExists));
    assert_eq!(classify(FailureKind::PermissionDenied), Some(GatewayError::PermissionDenied));
    assert_eq!(classify(FailureKind::InvalidInput), Some(GatewayError::InvalidValue));
    assert_eq!(classify(FailureKind::InvalidData), Some(GatewayError::InvalidValue));
    assert_eq!(classify(FailureKind::Unsupported), Some(GatewayError::InvalidValue));
    assert_eq!(classify(FailureKind::ResourceBusy), Some(GatewayError::Busy));
    assert_eq!(classify(FailureKind::DirectoryNotEmpty), Some(GatewayError::Busy));
    assert_eq!(classify(FailureKind::TimedOut), Some(GatewayError::Timeout));
}

#[test]
fn an_unknown_kind_is_no_failure_of_the_tree() {
    assert_eq!(classify(FailureKind::Other), None);
}
