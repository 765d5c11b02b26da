//! The core of a single-threaded, readiness-driven connection multiplexer.
//!
//! One loop serves many TCP connections over one readiness poller. This crate
//! is that loop's memory and judgement and does no I/O itself. The loop waits
//! for readiness events and asks the [`multiplexer::Multiplexer`] whom each
//! one is for; it accepts peers, makes at most one read and one write attempt
//! per event and hands the outcomes back; the multiplexer advances the
//! connection's state machine and answers with the [`connection::Action`]
//! that the poller has to carry out.
//!
//! A connection collects bytes until the blank line that ends a request head
//! ([`framer`]), queues one fixed reply ([`response`]), sends it over as many
//! write attempts as the socket needs, and is closed when the last byte has
//! left.
//!
//! The modules [`traces`] and [`invariants`] hold no code that runs: they
//! state and prove what holds of whole runs.

pub mod connection;
pub mod framer;
pub mod invariants;
pub mod io_error;
pub mod multiplexer;
pub mod poller;
pub mod response;
pub mod token;
pub mod traces;

pub use io_error::interrupted;
pub use io_error::would_block;
pub use token::next;
pub use token::Token;
pub use token::TokenAllocator;
