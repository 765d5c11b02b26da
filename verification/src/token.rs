//! Tokens identify registered I/O sources; the allocator hands out fresh ones.

use vstd::prelude::*;

verus! {

/// Identifier that ties a readiness event back to the source it was
/// registered for.
#[derive(Clone, Copy, Debug, PartialEq, Eq, Structural)]
pub struct Token(pub usize);

/// Value of the token reserved for the listening socket.
pub const LISTENER: usize = 0;

/// Hands out the token held in `current` and advances the counter by one.
pub fn next(current: &mut Token) -> (issued: Token)
    requires
        old(current).0 < usize::MAX,
    ensures
        issued == *old(current),
        final(current).0 == old(current).0 + 1,
{
    let issued = *current;
    current.0 = current.0 + 1;
    issued
}

/// Monotonic source of tokens for accepted connections. It never issues the
/// listener's token and never issues a token twice.
#[derive(Debug)]
pub struct TokenAllocator {
    upcoming: Token,
}

impl View for TokenAllocator {
    type V = Token;

    /// The token that is issued next.
    closed spec fn view(&self) -> Token {
        self.upcoming
    }
}

impl TokenAllocator {
    /// The counter stands above the listener's token.
    pub open spec fn wf(&self) -> bool {
        self@.0 > LISTENER
    }

    /// An allocator seeded just above the listener's token.
    pub fn new() -> (a: TokenAllocator)
        ensures
            a.wf(),
            a@ == Token((LISTENER + 1) as usize),
    {
        TokenAllocator { upcoming: Token(LISTENER + 1) }
    }

    /// An allocator whose first token is `first`; none for the listener's
    /// token, which is never issued.
    pub fn starting_at(first: Token) -> (a: Option<TokenAllocator>)
        ensures
            match a {
                Some(a) => first.0 != LISTENER && a.wf() && a@ == first,
                None => first.0 == LISTENER,
            },
    {
        if first.0 == LISTENER {
            None
        } else {
            Some(TokenAllocator { upcoming: first })
        }
    }

    /// The token that the next call of `allocate` issues, if it issues one.
    pub fn upcoming(&self) -> (t: Token)
        ensures
            t == self@,
    {
        self.upcoming
    }

    /// Issues the next token. The counter ends at `usize::MAX`: from there on
    /// nothing is issued and nothing changes.
    pub fn allocate(&mut self) -> (issued: Option<Token>)
        requires
            old(self).wf(),
        ensures
            final(self).wf(),
            match issued {
                Some(t) => {
                    &&& t == old(self)@
                    &&& t.0 != LISTENER
                    &&& final(self)@.0 == t.0 + 1
                },
                None => old(self)@.0 == usize::MAX && final(self)@ == old(self)@,
            },
    {
        if self.upcoming.0 == usize::MAX {
            None
        } else {
            Some(next(&mut self.upcoming))
        }
    }
}

} // verus!
