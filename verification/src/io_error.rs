//! Sorting I/O errors into the ones that only defer an operation and the ones
//! that end it.

use vstd::prelude::*;

verus! {

/// `std::io::Error`, carried through as an opaque value.
#[verifier::external_type_specification]
#[verifier::external_body]
pub struct ExIoError(std::io::Error);

/// What the multiplexer needs to know of an error's kind.
#[derive(Clone, Copy, Debug, PartialEq, Eq, Structural)]
pub enum IoErrorKind {
    /// The operation would have had to wait.
    WouldBlock,
    /// A signal arrived before the operation did anything.
    Interrupted,
    /// Any other kind.
    Other,
}

/// Class of the kind that `std::io::Error::kind` reports for `e`.
pub uninterp spec fn kind_of(e: std::io::Error) -> IoErrorKind;

/// Calls `std::io::Error::kind` and maps the answer to its class:
/// `ErrorKind::WouldBlock` and `ErrorKind::Interrupted` to the variants of the
/// same name, every other kind to `Other`. The contract only names the
/// result; that equal errors have equal kinds is all it claims.
#[verifier::external_body]
pub(crate) fn error_kind(e: &std::io::Error) -> (kind: IoErrorKind)
    ensures
        kind == kind_of(*e),
{
    match e.kind() {
        std::io::ErrorKind::WouldBlock => IoErrorKind::WouldBlock,
        std::io::ErrorKind::Interrupted => IoErrorKind::Interrupted,
        _ => IoErrorKind::Other,
    }
}

/// How an error bears on the operation that met it.
#[derive(Clone, Copy, Debug, PartialEq, Eq, Structural)]
pub enum Severity {
    /// Nothing went wrong; the operation is tried again on the next readiness
    /// notification.
    Transient,
    /// The operation failed for good.
    Fatal,
}

/// Transient are the kinds that ask for a retry: would-block and interrupted.
pub open spec fn severity_of(kind: IoErrorKind) -> Severity {
    match kind {
        IoErrorKind::WouldBlock => Severity::Transient,
        IoErrorKind::Interrupted => Severity::Transient,
        IoErrorKind::Other => Severity::Fatal,
    }
}

/// Sorts a kind into transient or fatal.
pub fn severity(kind: IoErrorKind) -> (s: Severity)
    ensures
        s == severity_of(kind),
{
    match kind {
        IoErrorKind::WouldBlock => Severity::Transient,
        IoErrorKind::Interrupted => Severity::Transient,
        IoErrorKind::Other => Severity::Fatal,
    }
}

/// Whether `e` says that the operation would have had to wait.
pub fn would_block(e: &std::io::Error) -> (b: bool)
    ensures
        b == (kind_of(*e) == IoErrorKind::WouldBlock),
{
    match error_kind(e) {
        IoErrorKind::WouldBlock => true,
        _ => false,
    }
}

/// Whether `e` says that a signal interrupted the operation.
pub fn interrupted(e: &std::io::Error) -> (b: bool)
    ensures
        b == (kind_of(*e) == IoErrorKind::Interrupted),
{
    match error_kind(e) {
        IoErrorKind::Interrupted => true,
        _ => false,
    }
}

impl IoErrorKind {
    /// The class of `e`'s kind.
    pub fn of(e: &std::io::Error) -> (kind: IoErrorKind)
        ensures
            kind == kind_of(*e),
    {
        if would_block(e) {
            IoErrorKind::WouldBlock
        } else if interrupted(e) {
            IoErrorKind::Interrupted
        } else {
            IoErrorKind::Other
        }
    }
}

} // verus!
