use filo::ruleset::Action;
use filo::transfer::{
    classify_io_error, io_failure, is_cross_device_error, FailureKind, IoFailure, Transfer,
    TransferEvent, TransferPhase, TransferRequest,
};
use std::io;

#[test]
fn test_is_cross_device_error_true() {
    let e = io::Error::new(io::ErrorKind::CrossesDevices, "cross device");
    assert!(is_cross_device_error(&e));
}

#[test]
fn test_is_cross_device_error_false() {
    let e = io::Error::new(io::ErrorKind::PermissionDenied, "permission denied");
    assert!(!is_cross_device_error(&e));
}

#[test]
fn test_classify_io_error_permission_denied() {
    let e = io::Error::new(io::ErrorKind::PermissionDenied, "denied");
    let msg = classify_io_error(&e);
    assert!(msg.contains("Permission denied"), "got: {}", msg);
}

#[test]
fn test_classify_io_error_storage_full() {
    let e = io::Error::new(io::ErrorKind::StorageFull, "full");
    let msg = classify_io_error(&e);
    assert!(msg.contains("Disk full"), "got: {}", msg);
}

#[test]
fn test_classify_io_error_fallback() {
    let e = io::Error::new(io::ErrorKind::Other, "something else");
    let msg = classify_io_error(&e);
    assert!(msg.contains("Operation failed"), "got: {}", msg);
}

#[test]
fn test_classify_io_error_not_found() {
    let e = io::Error::new(io::ErrorKind::NotFound, "not found");
    let msg = classify_io_error(&e);
    assert!(msg.contains("File not found"), "got: {}", msg);
}

#[test]
fn test_classify_io_error_cross_device() {
    let e = io::Error::new(io::ErrorKind::CrossesDevices, "cross device");
    let msg = classify_io_error(&e);
    assert!(msg.contains("Cross-device"), "got: {}", msg);
}

fn failure(kind: FailureKind, message: &str) -> IoFailure {
    IoFailure { kind, message: message.to_string() }
}

#[test]
fn the_reason_is_the_prefix_and_the_message() {
    assert_eq!(
        classify_io_error(&io::Error::new(io::ErrorKind::PermissionDenied, "denied")),
        "Permission denied: denied"
    );
    assert_eq!(
        classify_io_error(&io::Error::new(io::ErrorKind::StorageFull, "full")),
        "Disk full: full"
    );
    assert_eq!(
        classify_io_error(&io::Error::new(io::ErrorKind::NotFound, "gone")),
        "File not found: gone"
    );
    assert_eq!(
        classify_io_error(&io::Error::new(io::ErrorKind::CrossesDevices, "far")),
        "Cross-device operation failed: far"
    );
    assert_eq!(
        classify_io_error(&io::Error::new(io::ErrorKind::TimedOut, "late")),
        "Operation failed: late"
    );
    assert_eq!(failure(FailureKind::Other, "x").classify(), "Operation failed: x");
}

#[test]
fn an_error_of_the_host_keeps_its_kind_and_message() {
    let f = io_failure(&io::Error::new(io::ErrorKind::NotFound, "no such file"));
    assert_eq!(f, failure(FailureKind::NotFound, "no such file"));
    let f = io_failure(&io::Error::new(io::ErrorKind::AlreadyExists, "there"));
    assert_eq!(f, failure(FailureKind::Other, "there"));
    assert!(failure(FailureKind::CrossesDevices, "").is_cross_device());
    assert!(!failure(FailureKind::NotFound, "").is_cross_device());
}

#[test]
fn an_incomplete_copy_names_both_sizes() {
    assert_eq!(
        IoFailure::incomplete(11, 7),
        failure(FailureKind::Other, "Copy incomplete: expected 11 bytes, got 7 bytes")
    );
    assert_eq!(
        IoFailure::incomplete(0, 18446744073709551615).message,
        "Copy incomplete: expected 0 bytes, got 18446744073709551615 bytes"
    );
    assert_eq!(
        IoFailure::incomplete(1000, 10).classify(),
        "Operation failed: Copy incomplete: expected 1000 bytes, got 10 bytes"
    );
}

fn begin(kind: Action) -> (Transfer, TransferRequest) {
    Transfer::begin(kind, "/src/a.txt".to_string(), "/dst/a.txt".to_string(), 7)
}

#[test]
fn a_move_is_a_rename() {
    let (mut t, first) = begin(Action::Move);
    assert_eq!(
        first,
        TransferRequest::Rename { from: "/src/a.txt".to_string(), to: "/dst/a.txt".to_string() }
    );
    assert_eq!(t.step(TransferEvent::Renamed(Ok(()))), TransferRequest::Done(Ok(())));
    assert_eq!(t.phase, TransferPhase::Finished);
}

#[test]
fn a_rename_that_finds_no_file_is_not_followed_by_a_copy() {
    let (mut t, _) = begin(Action::Move);
    let gone = failure(FailureKind::NotFound, "No such file or directory (os error 2)");
    assert_eq!(
        t.step(TransferEvent::Renamed(Err(gone.clone()))),
        TransferRequest::Done(Err(gone))
    );
    assert_eq!(t.phase, TransferPhase::Finished);
}

#[test]
fn a_move_across_devices_copies_checks_and_removes_the_source() {
    let (mut t, _) = begin(Action::Move);
    assert_eq!(
        t.step(TransferEvent::Renamed(Err(failure(FailureKind::CrossesDevices, "xdev")))),
        TransferRequest::Copy { from: "/src/a.txt".to_string(), to: "/dst/a.txt".to_string() }
    );
    assert_eq!(
        t.step(TransferEvent::Copied(Ok(7))),
        TransferRequest::RemoveSource { path: "/src/a.txt".to_string() }
    );
    assert_eq!(t.step(TransferEvent::Removed(Ok(()))), TransferRequest::Done(Ok(())));
}

#[test]
fn a_source_that_cannot_be_removed_fails_the_move() {
    let (mut t, _) = begin(Action::Move);
    t.step(TransferEvent::Renamed(Err(failure(FailureKind::CrossesDevices, "xdev"))));
    t.step(TransferEvent::Copied(Ok(7)));
    let denied = failure(FailureKind::PermissionDenied, "denied");
    assert_eq!(
        t.step(TransferEvent::Removed(Err(denied.clone()))),
        TransferRequest::Done(Err(denied))
    );
}

#[test]
fn a_copy_of_the_right_size_succeeds() {
    let (mut t, first) = begin(Action::Copy);
    assert_eq!(
        first,
        TransferRequest::Copy { from: "/src/a.txt".to_string(), to: "/dst/a.txt".to_string() }
    );
    assert_eq!(t.step(TransferEvent::Copied(Ok(7))), TransferRequest::Done(Ok(())));
}

#[test]
fn a_copy_of_another_size_is_discarded() {
    let (mut t, _) = begin(Action::Copy);
    assert_eq!(
        t.step(TransferEvent::Copied(Ok(6))),
        TransferRequest::DiscardDestination { path: "/dst/a.txt".to_string() }
    );
    assert_eq!(
        t.step(TransferEvent::Removed(Err(failure(FailureKind::NotFound, "gone")))),
        TransferRequest::Done(Err(IoFailure::incomplete(7, 6)))
    );
}

#[test]
fn a_failed_copy_is_discarded_and_the_source_stays() {
    let (mut t, _) = begin(Action::Move);
    t.step(TransferEvent::Renamed(Err(failure(FailureKind::CrossesDevices, "xdev"))));
    let full = failure(FailureKind::StorageFull, "No space left on device");
    assert_eq!(
        t.step(TransferEvent::Copied(Err(full.clone()))),
        TransferRequest::DiscardDestination { path: "/dst/a.txt".to_string() }
    );
    assert_eq!(t.step(TransferEvent::Removed(Ok(()))), TransferRequest::Done(Err(full)));
}

#[test]
fn an_event_that_answers_nothing_is_rejected() {
    let (mut t, _) = begin(Action::Move);
    assert_eq!(t.step(TransferEvent::Copied(Ok(7))), TransferRequest::Rejected);
    assert_eq!(t.phase, TransferPhase::Renaming);
    assert_eq!(t.step(TransferEvent::Removed(Ok(()))), TransferRequest::Rejected);
    assert_eq!(t.step(TransferEvent::Renamed(Ok(()))), TransferRequest::Done(Ok(())));
    assert_eq!(t.step(TransferEvent::Renamed(Ok(()))), TransferRequest::Rejected);
    assert_eq!(t.phase, TransferPhase::Finished);
}
