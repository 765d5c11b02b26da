//! What crosses the border to the readiness poller: interests, readiness
//! events, and what to do when waiting fails.

use crate::io_error::IoErrorKind;
use crate::token::Token;
use vstd::prelude::*;

verus! {

/// Longest time, in milliseconds, that one wait may block. It is bounded so
/// that the loop comes round even without traffic.
pub const WAIT_TIMEOUT_MS: u64 = 500;

/// Number of readiness events that one wait can return.
pub const EVENT_CAPACITY: usize = 128;

/// Size of the buffer that one read attempt fills.
pub const READ_CHUNK: usize = 1024;

/// The operation a source wants to be notified for.
#[derive(Clone, Copy, Debug, PartialEq, Eq, Structural)]
pub enum Interest {
    /// A read would not block.
    Readable,
    /// A write would not block.
    Writable,
}

/// A report that the source registered under `token` may support at least one
/// read or write without blocking.
#[derive(Clone, Copy, Debug, PartialEq, Eq, Structural)]
pub struct Readiness {
    pub token: Token,
    pub readable: bool,
    pub writable: bool,
}

/// How the loop goes on after a wait that returned an error.
#[derive(Clone, Copy, Debug, PartialEq, Eq, Structural)]
pub enum WaitStep {
    /// A signal cut the wait short: wait again.
    Retry,
    /// The poller is broken: hand the error to the caller.
    Abort,
}

/// Only an interrupted wait is retried.
pub open spec fn wait_step_of(kind: IoErrorKind) -> WaitStep {
    match kind {
        IoErrorKind::Interrupted => WaitStep::Retry,
        _ => WaitStep::Abort,
    }
}

/// Decides how the loop goes on after a wait failed with an error of this
/// kind.
pub fn after_wait_error(kind: IoErrorKind) -> (step: WaitStep)
    ensures
        step == wait_step_of(kind),
{
    match kind {
        IoErrorKind::Interrupted => WaitStep::Retry,
        _ => WaitStep::Abort,
    }
}

} // verus!
