//! The connection table with its token allocator, and the routing of
//! readiness events to the connections they are for.

use crate::connection::{
    read_step, write_fits, write_step, Action, ConnState, Connection, ConnectionView, ReadEvent,
    ReadOutcome, WriteOutcome,
};
use crate::io_error::IoErrorKind;
use crate::poller::Readiness;
use crate::token::{Token, TokenAllocator, LISTENER};
use std::collections::HashMap;
use vstd::prelude::*;

verus! {

/// Whom a readiness event is for.
#[derive(Clone, Copy, Debug, PartialEq, Eq, Structural)]
pub enum Route {
    /// The listening socket: peers are waiting to be accepted.
    Listener,
    /// A live connection.
    Connection,
    /// No live connection holds the token; the event is stale.
    Unknown,
}

/// How the accept loop goes on after an accept that returned an error.
#[derive(Clone, Copy, Debug, PartialEq, Eq, Structural)]
pub enum AcceptStep {
    /// No peer is waiting any more: leave the accept loop.
    Stop,
    /// This candidate is lost: go on with the next.
    Skip,
}

/// Only a would-block ends the accept loop.
pub open spec fn accept_step_of(kind: IoErrorKind) -> AcceptStep {
    match kind {
        IoErrorKind::WouldBlock => AcceptStep::Stop,
        _ => AcceptStep::Skip,
    }
}

/// Decides how the accept loop goes on after an accept failed with an error of
/// this kind.
pub fn after_accept_error(kind: IoErrorKind) -> (step: AcceptStep)
    ensures
        step == accept_step_of(kind),
{
    match kind {
        IoErrorKind::WouldBlock => AcceptStep::Stop,
        _ => AcceptStep::Skip,
    }
}

/// The multiplexer as the contracts see it.
pub struct MultiplexerView {
    /// The token that the next accepted peer gets.
    pub next_token: Token,
    /// The live connections, each under the number of its token.
    pub connections: Map<usize, ConnectionView>,
    /// The body of every reply.
    pub body: Seq<u8>,
}

impl MultiplexerView {
    /// A multiplexer without connections, whose allocator stands just above
    /// the listener's token.
    pub open spec fn start(body: Seq<u8>) -> MultiplexerView {
        MultiplexerView {
            next_token: Token((LISTENER + 1) as usize),
            connections: Map::empty(),
            body,
        }
    }

    /// Whether a live connection holds `token`.
    pub open spec fn live(self, token: Token) -> bool {
        self.connections.dom().contains(token.0)
    }

    /// The allocator stands above the listener's token and above every token
    /// it has issued; each live connection holds the token it is filed under,
    /// which is not the listener's, fits its state, and is not closing.
    pub open spec fn wf(self) -> bool {
        &&& self.next_token.0 > LISTENER
        &&& forall|k: usize| #[trigger]
            self.connections.dom().contains(k) ==> {
                &&& k != LISTENER
                &&& k < self.next_token.0
                &&& self.connections[k].token == Token(k)
                &&& self.connections[k].wf()
                &&& self.connections[k].state != ConnState::Closing
            }
    }

    /// Whom an event with this token is for.
    pub open spec fn route(self, token: Token) -> Route {
        if token.0 == LISTENER {
            Route::Listener
        } else if self.live(token) {
            Route::Connection
        } else {
            Route::Unknown
        }
    }

    /// A read attempt is due: the event reports readable for a connection that
    /// is reading.
    pub open spec fn wants_read(self, event: Readiness) -> bool {
        &&& event.readable
        &&& self.live(event.token)
        &&& self.connections[event.token.0].state == ConnState::Reading
    }

    /// The bytes to hand to a write attempt, where one is due: the event
    /// reports writable for a connection that is writing.
    pub open spec fn pending_write(self, event: Readiness) -> Option<Seq<u8>> {
        if event.writable && self.live(event.token) && self.connections[event.token.0].state
            == ConnState::Writing {
            Some(self.connections[event.token.0].write_buffer)
        } else {
            None
        }
    }

    /// Accepting a peer: it gets the next token and a fresh connection under
    /// it, unless the allocator has run out of tokens.
    pub open spec fn accept(self) -> (MultiplexerView, Option<Token>) {
        if self.next_token.0 < usize::MAX {
            (
                MultiplexerView {
                    next_token: Token((self.next_token.0 + 1) as usize),
                    connections: self.connections.insert(
                        self.next_token.0,
                        ConnectionView::fresh(self.next_token),
                    ),
                    ..self
                },
                Some(self.next_token),
            )
        } else {
            (self, None)
        }
    }

    /// Files the connection `after` a step under `token`, or drops the entry
    /// when the step's action is to close.
    pub open spec fn settle(
        self,
        token: Token,
        after: ConnectionView,
        action: Action,
    ) -> MultiplexerView {
        MultiplexerView {
            connections: if action == Action::Close {
                self.connections.remove(token.0)
            } else {
                self.connections.insert(token.0, after)
            },
            ..self
        }
    }

    /// Handing a read outcome to the connection under `token`; nothing happens
    /// when there is none.
    pub open spec fn deliver_read(self, token: Token, outcome: ReadEvent) -> (
        MultiplexerView,
        Option<Action>,
    ) {
        if self.live(token) {
            let (after, action) = read_step(self.connections[token.0], outcome, self.body);
            (self.settle(token, after, action), Some(action))
        } else {
            (self, None)
        }
    }

    /// Handing a write outcome to the connection under `token`; nothing
    /// happens when there is none.
    pub open spec fn deliver_write(self, token: Token, outcome: WriteOutcome) -> (
        MultiplexerView,
        Option<Action>,
    ) {
        if self.live(token) {
            let (after, action) = write_step(self.connections[token.0], outcome);
            (self.settle(token, after, action), Some(action))
        } else {
            (self, None)
        }
    }
}

/// Owns every live connection and the counter that tokens come from.
#[derive(Debug)]
pub struct Multiplexer {
    tokens: TokenAllocator,
    connections: HashMap<usize, Connection>,
    body: Vec<u8>,
}

impl View for Multiplexer {
    type V = MultiplexerView;

    closed spec fn view(&self) -> MultiplexerView {
        MultiplexerView {
            next_token: self.tokens@,
            connections: self.connections@.map_values(|c: Connection| c@),
            body: self.body@,
        }
    }
}

impl Multiplexer {
    /// Whether the table and the allocator are consistent.
    pub open spec fn wf(&self) -> bool {
        self@.wf()
    }

    /// A multiplexer without connections that answers every request with
    /// `body`.
    pub fn new(body: Vec<u8>) -> (m: Multiplexer)
        ensures
            m.wf(),
            m@ == MultiplexerView::start(body@),
    {
        Multiplexer::with_tokens(body, TokenAllocator::new())
    }

    /// A multiplexer without connections whose tokens come from `tokens`.
    pub fn with_tokens(body: Vec<u8>, tokens: TokenAllocator) -> (m: Multiplexer)
        requires
            tokens.wf(),
        ensures
            m.wf(),
            m@ == (MultiplexerView { next_token: tokens@, ..MultiplexerView::start(body@) }),
    {
        let m = Multiplexer { tokens, connections: HashMap::new(), body };
        assert(m@.connections =~= Map::<usize, ConnectionView>::empty());
        m
    }

    /// Number of live connections.
    pub fn len(&self) -> (n: usize)
        ensures
            n == self@.connections.len(),
    {
        assert(self@.connections.dom() =~= self.connections@.dom());
        self.connections.len()
    }

    /// Whether a live connection holds `token`.
    pub fn contains(&self, token: Token) -> (b: bool)
        ensures
            b == self@.live(token),
    {
        self.connections.contains_key(&token.0)
    }

    /// The state of the connection under `token`.
    pub fn state_of(&self, token: Token) -> (s: Option<ConnState>)
        ensures
            s == if self@.live(token) {
                Some(self@.connections[token.0].state)
            } else {
                None
            },
    {
        match self.connections.get(&token.0) {
            Some(conn) => Some(conn.state()),
            None => None,
        }
    }

    /// Whom an event with this token is for.
    pub fn route(&self, token: Token) -> (r: Route)
        ensures
            r == self@.route(token),
    {
        if token.0 == LISTENER {
            Route::Listener
        } else if self.connections.contains_key(&token.0) {
            Route::Connection
        } else {
            Route::Unknown
        }
    }

    /// Whether the loop is to make a read attempt for this event.
    pub fn wants_read(&self, event: &Readiness) -> (b: bool)
        ensures
            b == self@.wants_read(*event),
    {
        if !event.readable {
            return false;
        }
        match self.connections.get(&event.token.0) {
            Some(conn) => match conn.state() {
                ConnState::Reading => true,
                _ => false,
            },
            None => false,
        }
    }

    /// The bytes that the loop is to hand to a write attempt for this event,
    /// if one is due.
    pub fn pending_write(&self, event: &Readiness) -> (bytes: Option<&[u8]>)
        ensures
            match bytes {
                Some(b) => self@.pending_write(*event) == Some(b@),
                None => self@.pending_write(*event).is_none(),
            },
    {
        if !event.writable {
            return None;
        }
        match self.connections.get(&event.token.0) {
            Some(conn) => match conn.state() {
                ConnState::Writing => Some(conn.pending()),
                _ => None,
            },
            None => None,
        }
    }

    /// Takes in a peer that the listener has accepted: allocates a fresh token
    /// and files a connection in `Reading` under it. Without a token left the
    /// peer is turned away and nothing changes.
    pub fn accept(&mut self) -> (token: Option<Token>)
        requires
            old(self).wf(),
        ensures
            final(self).wf(),
            (final(self)@, token) == old(self)@.accept(),
            token matches Some(t) ==> t.0 != LISTENER && !old(self)@.live(t) && final(self)@.live(
                t,
            ),
    {
        match self.tokens.allocate() {
            None => None,
            Some(token) => {
                let conn = Connection::new(token);
                self.connections.insert(token.0, conn);
                assert(self@.connections =~= old(self)@.connections.insert(
                    token.0,
                    ConnectionView::fresh(token),
                ));
                Some(token)
            },
        }
    }

    /// Hands the outcome of a read attempt to the connection under `token` and
    /// says what the poller has to do; the connection leaves the table when
    /// that is to close it. For a token that no live connection holds, nothing
    /// happens.
    pub fn on_read(&mut self, token: Token, outcome: ReadOutcome<'_>) -> (action: Option<Action>)
        requires
            old(self).wf(),
        ensures
            final(self).wf(),
            (final(self)@, action) == old(self)@.deliver_read(token, outcome@),
    {
        match self.connections.remove(&token.0) {
            None => {
                assert(self@.connections =~= old(self)@.connections);
                None
            },
            Some(conn) => {
                let mut conn = conn;
                assert(old(self)@.live(token) && old(self)@.connections[token.0] == conn@);
                let action = conn.on_read(outcome, self.body.as_slice());
                match action {
                    Action::Close => {
                        assert(self@.connections =~= old(self)@.connections.remove(token.0));
                    },
                    _ => {
                        self.connections.insert(token.0, conn);
                        assert(self@.connections =~= old(self)@.connections.insert(
                            token.0,
                            conn@,
                        ));
                    },
                }
                Some(action)
            },
        }
    }

    /// Hands the outcome of a write attempt to the connection under `token`
    /// and says what the poller has to do; the connection leaves the table
    /// when that is to close it. For a token that no live connection holds,
    /// nothing happens.
    pub fn on_write(&mut self, token: Token, outcome: WriteOutcome) -> (action: Option<Action>)
        requires
            old(self).wf(),
            old(self)@.live(token) ==> write_fits(old(self)@.connections[token.0], outcome),
        ensures
            final(self).wf(),
            (final(self)@, action) == old(self)@.deliver_write(token, outcome),
    {
        match self.connections.remove(&token.0) {
            None => {
                assert(self@.connections =~= old(self)@.connections);
                None
            },
            Some(conn) => {
                let mut conn = conn;
                assert(old(self)@.live(token) && old(self)@.connections[token.0] == conn@);
                let action = conn.on_write(outcome);
                match action {
                    Action::Close => {
                        assert(self@.connections =~= old(self)@.connections.remove(token.0));
                    },
                    _ => {
                        self.connections.insert(token.0, conn);
                        assert(self@.connections =~= old(self)@.connections.insert(
                            token.0,
                            conn@,
                        ));
                    },
                }
                Some(action)
            },
        }
    }
}

} // verus!
