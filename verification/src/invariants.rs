//! What holds of the multiplexer at all times, whatever has happened to it.

use crate::connection::{
    lemma_read_action_matches_state, lemma_read_step_wf, lemma_write_action_matches_state,
    lemma_write_step_wf, write_fits, ReadEvent, WriteOutcome,
};
use crate::connection::{Action, ConnState, ConnectionView};
use crate::multiplexer::{MultiplexerView, Route};
use crate::poller::Interest;
use crate::token::{Token, LISTENER};
use vstd::prelude::*;

verus! {

/// One thing that can happen to a multiplexer.
pub enum Happening {
    /// The listener accepted a peer.
    Accepted,
    /// A read attempt for the token ended with the outcome.
    ReadDone(Token, ReadEvent),
    /// A write attempt for the token ended with the outcome.
    WriteDone(Token, WriteOutcome),
}

/// Whether `h` can happen to `m`: a write attempt sends no more than was
/// pending.
pub open spec fn possible(m: MultiplexerView, h: Happening) -> bool {
    match h {
        Happening::WriteDone(token, outcome) => m.live(token) ==> write_fits(
            m.connections[token.0],
            outcome,
        ),
        _ => true,
    }
}

/// The multiplexer after `h`.
pub open spec fn after(m: MultiplexerView, h: Happening) -> MultiplexerView {
    match h {
        Happening::Accepted => m.accept().0,
        Happening::ReadDone(token, outcome) => m.deliver_read(token, outcome).0,
        Happening::WriteDone(token, outcome) => m.deliver_write(token, outcome).0,
    }
}

/// Whether the whole history can happen to `m`, one happening after the other.
pub open spec fn possible_history(m: MultiplexerView, history: Seq<Happening>) -> bool
    decreases history.len(),
{
    history.len() == 0 || (possible(m, history.first()) && possible_history(
        after(m, history.first()),
        history.drop_first(),
    ))
}

/// The multiplexer after the whole history.
pub open spec fn after_history(m: MultiplexerView, history: Seq<Happening>) -> MultiplexerView
    decreases history.len(),
{
    if history.len() == 0 {
        m
    } else {
        after_history(after(m, history.first()), history.drop_first())
    }
}

/// In a consistent multiplexer no two live connections hold the same token,
/// and none holds the listener's.
pub proof fn lemma_live_tokens_distinct(m: MultiplexerView)
    requires
        m.wf(),
    ensures
        forall|j: usize, k: usize|
            m.connections.dom().contains(j) && m.connections.dom().contains(k) && j != k
                ==> m.connections[j].token != m.connections[k].token,
        forall|k: usize|
            m.connections.dom().contains(k) ==> (#[trigger] m.connections[k]).token != Token(
                LISTENER,
            ),
        !m.live(Token(LISTENER)),
{
}

/// One happening keeps a multiplexer consistent. The allocator never steps
/// back, and a token below it that is not live stays so: no token is issued
/// twice.
pub proof fn lemma_step_keeps_wf(m: MultiplexerView, h: Happening)
    requires
        m.wf(),
        possible(m, h),
    ensures
        after(m, h).wf(),
        after(m, h).body == m.body,
        after(m, h).next_token.0 >= m.next_token.0,
        forall|k: usize|
            k < m.next_token.0 && !m.connections.dom().contains(k) ==> !after(
                m,
                h,
            ).connections.dom().contains(k),
{
    match h {
        Happening::Accepted => {},
        Happening::ReadDone(token, outcome) => {
            if m.live(token) {
                lemma_read_step_wf(m.connections[token.0], outcome, m.body);
                lemma_read_action_matches_state(m.connections[token.0], outcome, m.body);
            }
        },
        Happening::WriteDone(token, outcome) => {
            if m.live(token) {
                lemma_write_step_wf(m.connections[token.0], outcome);
                lemma_write_action_matches_state(m.connections[token.0], outcome);
            }
        },
    }
}

/// What happens to one connection leaves the others as they are, and a newly
/// accepted peer displaces nobody.
pub proof fn lemma_others_untouched(m: MultiplexerView, h: Happening, k: usize)
    requires
        m.wf(),
        m.connections.dom().contains(k),
        match h {
            Happening::Accepted => true,
            Happening::ReadDone(token, _) => token.0 != k,
            Happening::WriteDone(token, _) => token.0 != k,
        },
    ensures
        after(m, h).connections.dom().contains(k),
        after(m, h).connections[k] == m.connections[k],
{
}

/// Whatever happens to a multiplexer that starts without connections, it
/// stays consistent: at all times the live tokens are pairwise distinct and
/// the listener's is not among them.
pub proof fn lemma_always_wf(body: Seq<u8>, history: Seq<Happening>)
    requires
        possible_history(MultiplexerView::start(body), history),
    ensures
        after_history(MultiplexerView::start(body), history).wf(),
        !after_history(MultiplexerView::start(body), history).live(Token(LISTENER)),
{
    lemma_history_keeps_wf(MultiplexerView::start(body), history);
}

/// A history keeps a consistent multiplexer consistent, and brings back no
/// token that had been issued and was no longer live.
pub proof fn lemma_history_keeps_wf(m: MultiplexerView, history: Seq<Happening>)
    requires
        m.wf(),
        possible_history(m, history),
    ensures
        after_history(m, history).wf(),
        after_history(m, history).next_token.0 >= m.next_token.0,
        forall|k: usize|
            k < m.next_token.0 && !m.connections.dom().contains(k) ==> !after_history(
                m,
                history,
            ).connections.dom().contains(k),
    decreases history.len(),
{
    if history.len() > 0 {
        lemma_step_keeps_wf(m, history.first());
        lemma_history_keeps_wf(after(m, history.first()), history.drop_first());
    }
}

/// Once a connection has been closed, events that still carry its token are
/// stale for good: whatever happens later, they are routed to no connection.
pub proof fn lemma_closed_token_stays_unknown(
    m: MultiplexerView,
    token: Token,
    history: Seq<Happening>,
)
    requires
        m.wf(),
        token.0 != LISTENER,
        token.0 < m.next_token.0,
        !m.live(token),
        possible_history(m, history),
    ensures
        after_history(m, history).route(token) == Route::Unknown,
{
    lemma_history_keeps_wf(m, history);
}

/// A write attempt takes a connection out of the table only by sending the
/// last pending byte: whenever bytes are left, the connection stays, writing,
/// with exactly those bytes pending.
pub proof fn lemma_leaves_only_when_drained(m: MultiplexerView, token: Token, sent: usize)
    requires
        m.wf(),
        m.live(token),
        m.connections[token.0].state == ConnState::Writing,
        sent <= m.connections[token.0].write_buffer.len(),
    ensures
        ({
            let pending = m.connections[token.0].write_buffer;
            let (later, action) = m.deliver_write(token, WriteOutcome::Sent(sent));
            &&& action == Some(Action::Close) <==> sent == pending.len()
            &&& later.live(token) <==> sent < pending.len()
            &&& later.live(token) ==> later.connections[token.0].state == ConnState::Writing
                && later.connections[token.0].write_buffer == pending.skip(sent as int)
        }),
{
}

/// The registrations that the poller holds when every action has been carried
/// out: each live connection under its token, with the interest of its state.
pub open spec fn registered(m: MultiplexerView) -> Map<usize, Interest> {
    Map::new(
        |k: usize| m.connections.dom().contains(k),
        |k: usize| m.connections[k].interest()->Some_0,
    )
}

/// What carrying out `action` for `token` does to the registrations: a kept
/// interest leaves them alone, a switched one replaces the token's entry, and
/// closing takes the entry away.
pub open spec fn carry_out(registry: Map<usize, Interest>, token: Token, action: Action) -> Map<
    usize,
    Interest,
> {
    match action {
        Action::Keep(_) => registry,
        Action::Switch(interest) => registry.insert(token.0, interest),
        Action::Close => registry.remove(token.0),
    }
}

/// An accepted peer is one more registration, for reading, under a token that
/// was not registered.
pub proof fn lemma_accept_registers_reader(m: MultiplexerView)
    requires
        m.wf(),
    ensures
        match m.accept().1 {
            Some(token) => !registered(m).dom().contains(token.0) && registered(m.accept().0)
                == registered(m).insert(token.0, Interest::Readable),
            None => registered(m.accept().0) == registered(m),
        },
{
    match m.accept().1 {
        Some(token) => {
            assert(registered(m.accept().0) =~= registered(m).insert(
                token.0,
                Interest::Readable,
            ));
        },
        None => {},
    }
}

/// The action that a step returns is exactly what the poller has to catch up
/// on. It concerns a token that is registered; a kept interest is the one
/// registered, a switched one differs from it; and once the action is carried
/// out, the registrations again match the live connections.
pub proof fn lemma_action_updates_registrations(m: MultiplexerView, h: Happening)
    requires
        m.wf(),
        possible(m, h),
    ensures
        match h {
            Happening::Accepted => true,
            Happening::ReadDone(token, outcome) => match m.deliver_read(token, outcome).1 {
                Some(action) => {
                    &&& registered(m).dom().contains(token.0)
                    &&& action matches Action::Keep(i) ==> registered(m)[token.0] == i
                    &&& action matches Action::Switch(i) ==> registered(m)[token.0] != i
                    &&& registered(after(m, h)) == carry_out(registered(m), token, action)
                },
                None => !registered(m).dom().contains(token.0) && after(m, h) == m,
            },
            Happening::WriteDone(token, outcome) => match m.deliver_write(token, outcome).1 {
                Some(action) => {
                    &&& registered(m).dom().contains(token.0)
                    &&& action matches Action::Keep(i) ==> registered(m)[token.0] == i
                    &&& action matches Action::Switch(i) ==> registered(m)[token.0] != i
                    &&& registered(after(m, h)) == carry_out(registered(m), token, action)
                },
                None => !registered(m).dom().contains(token.0) && after(m, h) == m,
            },
        },
{
    match h {
        Happening::Accepted => {},
        Happening::ReadDone(token, outcome) => {
            if m.live(token) {
                let c: ConnectionView = m.connections[token.0];
                lemma_read_action_matches_state(c, outcome, m.body);
                let action = m.deliver_read(token, outcome).1->Some_0;
                assert(registered(after(m, h)) =~= carry_out(registered(m), token, action));
            }
        },
        Happening::WriteDone(token, outcome) => {
            if m.live(token) {
                let c: ConnectionView = m.connections[token.0];
                lemma_write_action_matches_state(c, outcome);
                let action = m.deliver_write(token, outcome).1->Some_0;
                assert(registered(after(m, h)) =~= carry_out(registered(m), token, action));
            }
        },
    }
}

} // verus!
