//! One connection: its buffers and the state machine that readiness signals
//! drive.

use crate::framer::{boundary, find_boundary, has_marker, MARKER_LEN};
use crate::io_error::{severity, severity_of, IoErrorKind, Severity};
use crate::poller::Interest;
use crate::response::{build_response, lemma_response_len, response};
use crate::token::Token;
use vstd::prelude::*;

verus! {

/// Room that each buffer of a new connection starts with.
pub const BUFFER_CAPACITY: usize = 1024;

/// Where a connection stands in its life.
#[derive(Clone, Copy, Debug, PartialEq, Eq, Structural)]
pub enum ConnState {
    /// Collecting request bytes until the boundary shows up.
    Reading,
    /// Sending the queued reply.
    Writing,
    /// Finished; the socket is to be deregistered and dropped.
    Closing,
}

/// What the poller has to do for a connection after a step.
#[derive(Clone, Copy, Debug, PartialEq, Eq, Structural)]
pub enum Action {
    /// The interest stays as it is; the poller must notify again while the
    /// condition holds.
    Keep(Interest),
    /// Replace the registered interest by this one.
    Switch(Interest),
    /// Deregister the socket and drop the connection.
    Close,
}

/// Result of one non-blocking read attempt.
#[derive(Clone, Copy, Debug)]
pub enum ReadOutcome<'a> {
    /// The bytes that the attempt returned; none means the peer has closed.
    Received(&'a [u8]),
    /// The attempt would have blocked or was interrupted.
    Deferred,
    /// The attempt failed for good.
    Failed,
}

/// A read outcome as the contracts see it.
pub enum ReadEvent {
    /// The bytes that the attempt returned, as a sequence.
    Received(Seq<u8>),
    /// The attempt would have blocked or was interrupted.
    Deferred,
    /// The attempt failed for good.
    Failed,
}

impl<'a> View for ReadOutcome<'a> {
    type V = ReadEvent;

    open spec fn view(&self) -> ReadEvent {
        match *self {
            ReadOutcome::Received(data) => ReadEvent::Received(data@),
            ReadOutcome::Deferred => ReadEvent::Deferred,
            ReadOutcome::Failed => ReadEvent::Failed,
        }
    }
}

/// Result of one non-blocking write attempt.
#[derive(Clone, Copy, Debug, PartialEq, Eq, Structural)]
pub enum WriteOutcome {
    /// The attempt took this many bytes off the front of the pending bytes.
    Sent(usize),
    /// The attempt would have blocked or was interrupted.
    Deferred,
    /// The attempt failed for good.
    Failed,
}

/// The read outcome that an error of this kind stands for.
pub open spec fn read_event_of(kind: IoErrorKind) -> ReadEvent {
    match severity_of(kind) {
        Severity::Transient => ReadEvent::Deferred,
        Severity::Fatal => ReadEvent::Failed,
    }
}

/// The write outcome that an error of this kind stands for.
pub open spec fn write_outcome_of(kind: IoErrorKind) -> WriteOutcome {
    match severity_of(kind) {
        Severity::Transient => WriteOutcome::Deferred,
        Severity::Fatal => WriteOutcome::Failed,
    }
}

impl<'a> ReadOutcome<'a> {
    /// The outcome of a read attempt that ended in an error of this kind:
    /// deferred for a transient one, failed for any other.
    pub fn from_kind(kind: IoErrorKind) -> (outcome: ReadOutcome<'a>)
        ensures
            outcome@ == read_event_of(kind),
    {
        match severity(kind) {
            Severity::Transient => ReadOutcome::Deferred,
            Severity::Fatal => ReadOutcome::Failed,
        }
    }
}

impl WriteOutcome {
    /// The outcome of a write attempt that ended in an error of this kind:
    /// deferred for a transient one, failed for any other.
    pub fn from_kind(kind: IoErrorKind) -> (outcome: WriteOutcome)
        ensures
            outcome == write_outcome_of(kind),
    {
        match severity(kind) {
            Severity::Transient => WriteOutcome::Deferred,
            Severity::Fatal => WriteOutcome::Failed,
        }
    }
}

/// A connection as the contracts see it.
pub struct ConnectionView {
    pub token: Token,
    pub read_buffer: Seq<u8>,
    pub write_buffer: Seq<u8>,
    pub state: ConnState,
}

impl ConnectionView {
    /// A connection that was just accepted.
    pub open spec fn fresh(token: Token) -> ConnectionView {
        ConnectionView {
            token,
            read_buffer: Seq::empty(),
            write_buffer: Seq::empty(),
            state: ConnState::Reading,
        }
    }

    /// While reading, no request is complete yet and nothing is queued; while
    /// writing, something is left to send.
    pub open spec fn wf(self) -> bool {
        match self.state {
            ConnState::Reading => !has_marker(self.read_buffer) && self.write_buffer.len() == 0,
            ConnState::Writing => self.write_buffer.len() > 0,
            ConnState::Closing => true,
        }
    }

    /// The same connection, closing.
    pub open spec fn closing(self) -> ConnectionView {
        ConnectionView { state: ConnState::Closing, ..self }
    }

    /// The interest that the connection is registered for, while it lives.
    pub open spec fn interest(self) -> Option<Interest> {
        match self.state {
            ConnState::Reading => Some(Interest::Readable),
            ConnState::Writing => Some(Interest::Writable),
            ConnState::Closing => None,
        }
    }
}

/// The step that a read outcome causes. Only a reading connection reacts: an
/// empty read or a failure closes it, a deferred attempt changes nothing, and
/// received bytes are appended; once the buffer holds the boundary, the request
/// up to and including it is consumed, the reply for `body` is queued and the
/// connection turns to writing.
pub open spec fn read_step(c: ConnectionView, outcome: ReadEvent, body: Seq<u8>) -> (
    ConnectionView,
    Action,
) {
    match c.state {
        ConnState::Reading => match outcome {
            ReadEvent::Received(data) => if data.len() == 0 {
                (c.closing(), Action::Close)
            } else {
                let buffered = c.read_buffer + data;
                match boundary(buffered) {
                    Some(p) => (
                        ConnectionView {
                            read_buffer: buffered.skip(p + 4),
                            write_buffer: c.write_buffer + response(body),
                            state: ConnState::Writing,
                            ..c
                        },
                        Action::Switch(Interest::Writable),
                    ),
                    None => (
                        ConnectionView { read_buffer: buffered, ..c },
                        Action::Keep(Interest::Readable),
                    ),
                }
            },
            ReadEvent::Deferred => (c, Action::Keep(Interest::Readable)),
            ReadEvent::Failed => (c.closing(), Action::Close),
        },
        ConnState::Writing => (c, Action::Keep(Interest::Writable)),
        ConnState::Closing => (c, Action::Close),
    }
}

/// A write outcome that the connection can have met: no attempt sends more
/// than was pending.
pub open spec fn write_fits(c: ConnectionView, outcome: WriteOutcome) -> bool {
    outcome matches WriteOutcome::Sent(k) ==> (c.state == ConnState::Writing ==> k
        <= c.write_buffer.len())
}

/// The step that a write outcome causes. Only a writing connection reacts: the
/// bytes that were sent leave the front of the write buffer, and the connection
/// closes when none is left or when the attempt failed for good.
pub open spec fn write_step(c: ConnectionView, outcome: WriteOutcome) -> (ConnectionView, Action) {
    match c.state {
        ConnState::Reading => (c, Action::Keep(Interest::Readable)),
        ConnState::Writing => match outcome {
            WriteOutcome::Sent(k) => {
                let rest = c.write_buffer.skip(k as int);
                if rest.len() == 0 {
                    (
                        ConnectionView { write_buffer: rest, state: ConnState::Closing, ..c },
                        Action::Close,
                    )
                } else {
                    (ConnectionView { write_buffer: rest, ..c }, Action::Keep(Interest::Writable))
                }
            },
            WriteOutcome::Deferred => (c, Action::Keep(Interest::Writable)),
            WriteOutcome::Failed => (c.closing(), Action::Close),
        },
        ConnState::Closing => (c, Action::Close),
    }
}

/// A read step keeps a connection well formed.
pub proof fn lemma_read_step_wf(c: ConnectionView, outcome: ReadEvent, body: Seq<u8>)
    requires
        c.wf(),
    ensures
        read_step(c, outcome, body).0.wf(),
        read_step(c, outcome, body).0.token == c.token,
{
    lemma_response_len(body);
}

/// A write step keeps a connection well formed.
pub proof fn lemma_write_step_wf(c: ConnectionView, outcome: WriteOutcome)
    requires
        c.wf(),
    ensures
        write_step(c, outcome).0.wf(),
        write_step(c, outcome).0.token == c.token,
{
}

/// The action of a read step tells the state it leaves: `Close` comes with
/// `Closing` and with nothing else; a kept interest is the one that the
/// unchanged state is registered for; a switched interest is the one of the
/// new state.
pub proof fn lemma_read_action_matches_state(c: ConnectionView, outcome: ReadEvent, body: Seq<u8>)
    ensures
        ({
            let (after, action) = read_step(c, outcome, body);
            &&& action == Action::Close <==> after.state == ConnState::Closing
            &&& action matches Action::Keep(i) ==> after.interest() == Some(i) && after.state
                == c.state
            &&& action matches Action::Switch(i) ==> after.interest() == Some(i) && after.state
                != c.state
        }),
{
}

/// The action of a write step tells the state it leaves in the same way; a
/// write step never switches the interest.
pub proof fn lemma_write_action_matches_state(c: ConnectionView, outcome: WriteOutcome)
    ensures
        ({
            let (after, action) = write_step(c, outcome);
            &&& action == Action::Close <==> after.state == ConnState::Closing
            &&& action matches Action::Keep(i) ==> after.interest() == Some(i) && after.state
                == c.state
            &&& !(action is Switch)
        }),
{
}

/// An accepted peer: its token, what it has sent and not yet been answered
/// for, and what is still to be sent to it.
#[derive(Debug)]
pub struct Connection {
    token: Token,
    read_buffer: Vec<u8>,
    write_buffer: Vec<u8>,
    state: ConnState,
}

impl View for Connection {
    type V = ConnectionView;

    closed spec fn view(&self) -> ConnectionView {
        ConnectionView {
            token: self.token,
            read_buffer: self.read_buffer@,
            write_buffer: self.write_buffer@,
            state: self.state,
        }
    }
}

impl Connection {
    /// Whether the connection's buffers fit its state.
    pub open spec fn wf(&self) -> bool {
        self@.wf()
    }

    /// A connection in `Reading` with empty buffers.
    pub fn new(token: Token) -> (c: Connection)
        ensures
            c@ == ConnectionView::fresh(token),
            c.wf(),
    {
        let c = Connection {
            token,
            read_buffer: Vec::with_capacity(BUFFER_CAPACITY),
            write_buffer: Vec::with_capacity(BUFFER_CAPACITY),
            state: ConnState::Reading,
        };
        c
    }

    /// The token that events for this connection carry.
    pub fn token(&self) -> (t: Token)
        ensures
            t == self@.token,
    {
        self.token
    }

    /// The state the connection is in.
    pub fn state(&self) -> (s: ConnState)
        ensures
            s == self@.state,
    {
        self.state
    }

    /// The interest the connection is registered for; none once it is closing.
    pub fn interest(&self) -> (i: Option<Interest>)
        ensures
            i == self@.interest(),
    {
        match self.state {
            ConnState::Reading => Some(Interest::Readable),
            ConnState::Writing => Some(Interest::Writable),
            ConnState::Closing => None,
        }
    }

    /// The bytes received and not yet consumed as a request.
    pub fn buffered(&self) -> (bytes: &[u8])
        ensures
            bytes@ == self@.read_buffer,
    {
        self.read_buffer.as_slice()
    }

    /// The bytes still to be sent, in order.
    pub fn pending(&self) -> (bytes: &[u8])
        ensures
            bytes@ == self@.write_buffer,
    {
        self.write_buffer.as_slice()
    }

    /// Feeds the outcome of one read attempt to the state machine; `body` is
    /// what the reply carries.
    pub fn on_read(&mut self, outcome: ReadOutcome<'_>, body: &[u8]) -> (action: Action)
        requires
            old(self).wf(),
        ensures
            final(self).wf(),
            (final(self)@, action) == read_step(old(self)@, outcome@, body@),
    {
        proof {
            lemma_read_step_wf(self@, outcome@, body@);
        }
        match self.state {
            ConnState::Reading => match outcome {
                ReadOutcome::Received(data) => {
                    if data.len() == 0 {
                        self.state = ConnState::Closing;
                        Action::Close
                    } else {
                        self.read_buffer.extend_from_slice(data);
                        assert(self.read_buffer@ =~= old(self).read_buffer@ + data@);
                        match find_boundary(self.read_buffer.as_slice()) {
                            Some(p) => {
                                let reply = build_response(body);
                                self.write_buffer.extend_from_slice(reply.as_slice());
                                assert(self.write_buffer@ =~= old(self).write_buffer@ + response(
                                    body@,
                                ));
                                let rest = self.read_buffer.split_off(p + MARKER_LEN);
                                self.read_buffer = rest;
                                self.state = ConnState::Writing;
                                Action::Switch(Interest::Writable)
                            },
                            None => Action::Keep(Interest::Readable),
                        }
                    }
                },
                ReadOutcome::Deferred => Action::Keep(Interest::Readable),
                ReadOutcome::Failed => {
                    self.state = ConnState::Closing;
                    Action::Close
                },
            },
            ConnState::Writing => Action::Keep(Interest::Writable),
            ConnState::Closing => Action::Close,
        }
    }

    /// Feeds the outcome of one write attempt to the state machine.
    pub fn on_write(&mut self, outcome: WriteOutcome) -> (action: Action)
        requires
            old(self).wf(),
            write_fits(old(self)@, outcome),
        ensures
            final(self).wf(),
            (final(self)@, action) == write_step(old(self)@, outcome),
    {
        match self.state {
            ConnState::Reading => Action::Keep(Interest::Readable),
            ConnState::Writing => match outcome {
                WriteOutcome::Sent(k) => {
                    let rest = self.write_buffer.split_off(k);
                    self.write_buffer = rest;
                    if self.write_buffer.len() == 0 {
                        self.state = ConnState::Closing;
                        Action::Close
                    } else {
                        Action::Keep(Interest::Writable)
                    }
                },
                WriteOutcome::Deferred => Action::Keep(Interest::Writable),
                WriteOutcome::Failed => {
                    self.state = ConnState::Closing;
                    Action::Close
                },
            },
            ConnState::Closing => Action::Close,
        }
    }
}

} // verus!
