use reactor::connection::{ReadOutcome, WriteOutcome};
use reactor::io_error::{severity, IoErrorKind, Severity};
use reactor::multiplexer::{after_accept_error, AcceptStep};
use reactor::poller::{after_wait_error, WaitStep};
use reactor::{interrupted, would_block};
use std::io::{Error, ErrorKind};

#[test]
fn would_block_is_recognised() {
    assert!(would_block(&Error::from(ErrorKind::WouldBlock)));
    assert!(!would_block(&Error::from(ErrorKind::Interrupted)));
    assert!(!would_block(&Error::from(ErrorKind::ConnectionReset)));
    assert!(!would_block(&Error::new(ErrorKind::Other, "would block")));
}

#[test]
fn interrupted_is_recognised() {
    assert!(interrupted(&Error::from(ErrorKind::Interrupted)));
    assert!(!interrupted(&Error::from(ErrorKind::WouldBlock)));
    assert!(!interrupted(&Error::from(ErrorKind::BrokenPipe)));
}

#[test]
fn kinds_are_sorted_into_three_classes() {
    assert_eq!(IoErrorKind::of(&Error::from(ErrorKind::WouldBlock)), IoErrorKind::WouldBlock);
    assert_eq!(IoErrorKind::of(&Error::from(ErrorKind::Interrupted)), IoErrorKind::Interrupted);
    assert_eq!(IoErrorKind::of(&Error::from(ErrorKind::ConnectionReset)), IoErrorKind::Other);
    assert_eq!(IoErrorKind::of(&Error::from(ErrorKind::TimedOut)), IoErrorKind::Other);
    assert_eq!(IoErrorKind::of(&Error::new(ErrorKind::WouldBlock, "later")), IoErrorKind::WouldBlock);
}

#[test]
fn transient_kinds_are_would_block_and_interrupted() {
    assert_eq!(severity(IoErrorKind::WouldBlock), Severity::Transient);
    assert_eq!(severity(IoErrorKind::Interrupted), Severity::Transient);
    assert_eq!(severity(IoErrorKind::Other), Severity::Fatal);
}

#[test]
fn read_outcome_of_each_kind() {
    assert!(matches!(ReadOutcome::from_kind(IoErrorKind::WouldBlock), ReadOutcome::Deferred));
    assert!(matches!(ReadOutcome::from_kind(IoErrorKind::Interrupted), ReadOutcome::Deferred));
    assert!(matches!(ReadOutcome::from_kind(IoErrorKind::Other), ReadOutcome::Failed));
}

#[test]
fn write_outcome_of_each_kind() {
    assert_eq!(WriteOutcome::from_kind(IoErrorKind::WouldBlock), WriteOutcome::Deferred);
    assert_eq!(WriteOutcome::from_kind(IoErrorKind::Interrupted), WriteOutcome::Deferred);
    assert_eq!(WriteOutcome::from_kind(IoErrorKind::Other), WriteOutcome::Failed);
}

#[test]
fn accept_loop_stops_only_on_would_block() {
    assert_eq!(after_accept_error(IoErrorKind::WouldBlock), AcceptStep::Stop);
    assert_eq!(after_accept_error(IoErrorKind::Interrupted), AcceptStep::Skip);
    assert_eq!(after_accept_error(IoErrorKind::Other), AcceptStep::Skip);
}

#[test]
fn wait_is_retried_only_when_interrupted() {
    assert_eq!(after_wait_error(IoErrorKind::Interrupted), WaitStep::Retry);
    assert_eq!(after_wait_error(IoErrorKind::WouldBlock), WaitStep::Abort);
    assert_eq!(after_wait_error(IoErrorKind::Other), WaitStep::Abort);
}

#[test]
fn decisions_from_real_errors() {
    let stop = Error::from(ErrorKind::WouldBlock);
    let lost = Error::from(ErrorKind::ConnectionAborted);
    let signal = Error::from(ErrorKind::Interrupted);
    assert_eq!(after_accept_error(IoErrorKind::of(&stop)), AcceptStep::Stop);
    assert_eq!(after_accept_error(IoErrorKind::of(&lost)), AcceptStep::Skip);
    assert_eq!(after_wait_error(IoErrorKind::of(&signal)), WaitStep::Retry);
    assert_eq!(after_wait_error(IoErrorKind::of(&lost)), WaitStep::Abort);
    assert_eq!(WriteOutcome::from_kind(IoErrorKind::of(&signal)), WriteOutcome::Deferred);
    assert_eq!(WriteOutcome::from_kind(IoErrorKind::of(&lost)), WriteOutcome::Failed);
}
