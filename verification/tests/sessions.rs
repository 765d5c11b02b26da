use reactor::connection::{Action, ConnState, ReadOutcome, WriteOutcome};
use reactor::multiplexer::{Multiplexer, Route};
use reactor::poller::{Interest, Readiness};
use reactor::Token;

const REPLY: &[u8] =
    b"HTTP/1.1 200 OK\r\nConnection: close\r\nContent-Length: 13\r\n\r\nHello, World!";

fn server() -> Multiplexer {
    Multiplexer::new(b"Hello, World!".to_vec())
}

fn readable(token: Token) -> Readiness {
    Readiness { token, readable: true, writable: false }
}

fn writable(token: Token) -> Readiness {
    Readiness { token, readable: false, writable: true }
}

/// Plays the part of the socket: takes at most `limit` bytes per attempt and
/// collects what was sent until the connection is closed.
fn drain(mux: &mut Multiplexer, token: Token, limit: usize) -> (Vec<u8>, usize) {
    let mut sent: Vec<u8> = Vec::new();
    let mut attempts: usize = 0;
    loop {
        let pending: Vec<u8> = match mux.pending_write(&writable(token)) {
            Some(bytes) => bytes.to_vec(),
            None => panic!("nothing pending for a writing connection"),
        };
        let n: usize = limit.min(pending.len());
        sent.extend_from_slice(&pending[..n]);
        attempts += 1;
        match mux.on_write(token, WriteOutcome::Sent(n)) {
            Some(Action::Close) => return (sent, attempts),
            Some(Action::Keep(Interest::Writable)) => {
                assert_eq!(mux.state_of(token), Some(ConnState::Writing));
            }
            other => panic!("unexpected action {:?}", other),
        }
    }
}

#[test]
fn request_in_one_write_is_answered_and_closed() {
    let mut mux = server();
    let token = mux.accept().unwrap();
    assert_eq!(mux.route(token), Route::Connection);
    assert!(mux.wants_read(&readable(token)));
    assert_eq!(
        mux.on_read(token, ReadOutcome::Received(b"GET / HTTP/1.1\r\nHost: x\r\n\r\n")),
        Some(Action::Switch(Interest::Writable))
    );
    assert_eq!(mux.pending_write(&writable(token)), Some(REPLY));
    assert_eq!(mux.on_write(token, WriteOutcome::Sent(REPLY.len())), Some(Action::Close));
    assert!(!mux.contains(token));
    assert_eq!(mux.len(), 0);
}

#[test]
fn request_in_two_writes_is_answered_after_the_second() {
    let mut mux = server();
    let token = mux.accept().unwrap();
    assert_eq!(
        mux.on_read(token, ReadOutcome::Received(b"GET / HTTP/1.1\r\n")),
        Some(Action::Keep(Interest::Readable))
    );
    assert_eq!(mux.state_of(token), Some(ConnState::Reading));
    assert_eq!(mux.pending_write(&writable(token)), None);
    assert_eq!(
        mux.pending_write(&Readiness { token, readable: true, writable: true }),
        None
    );
    assert!(mux.wants_read(&readable(token)));
    assert_eq!(
        mux.on_read(token, ReadOutcome::Received(b"Host: x\r\n\r\n")),
        Some(Action::Switch(Interest::Writable))
    );
    let (sent, attempts) = drain(&mut mux, token, usize::MAX);
    assert_eq!(sent, REPLY.to_vec());
    assert_eq!(attempts, 1);
    assert!(!mux.contains(token));
}

#[test]
fn peer_that_leaves_at_once_is_removed_silently() {
    let mut mux = server();
    let other = mux.accept().unwrap();
    let token = mux.accept().unwrap();
    assert!(mux.wants_read(&readable(token)));
    assert_eq!(mux.on_read(token, ReadOutcome::Received(b"")), Some(Action::Close));
    assert!(!mux.contains(token));
    assert_eq!(mux.route(token), Route::Unknown);
    assert!(!mux.wants_read(&readable(token)));
    assert_eq!(mux.pending_write(&writable(token)), None);
    assert_eq!(mux.on_read(token, ReadOutcome::Received(b"late")), None);
    assert_eq!(mux.on_write(token, WriteOutcome::Deferred), None);
    assert_eq!(mux.state_of(other), Some(ConnState::Reading));
    assert_eq!(mux.len(), 1);
    let later = mux.accept().unwrap();
    assert_ne!(later, token);
    assert_eq!(mux.route(token), Route::Unknown);
}

#[test]
fn short_write_splits_the_reply_over_two_writable_events() {
    let mut mux = server();
    let token = mux.accept().unwrap();
    mux.on_read(token, ReadOutcome::Received(b"GET / HTTP/1.1\r\nHost: x\r\n\r\n"));
    let first: Vec<u8> = mux.pending_write(&writable(token)).unwrap().to_vec();
    assert_eq!(first, REPLY.to_vec());
    assert_eq!(
        mux.on_write(token, WriteOutcome::Sent(20)),
        Some(Action::Keep(Interest::Writable))
    );
    assert!(mux.contains(token));
    assert_eq!(mux.state_of(token), Some(ConnState::Writing));
    let second: Vec<u8> = mux.pending_write(&writable(token)).unwrap().to_vec();
    assert_eq!(second, REPLY[20..].to_vec());
    assert_eq!(mux.on_write(token, WriteOutcome::Sent(second.len())), Some(Action::Close));
    assert!(!mux.contains(token));
    let mut delivered: Vec<u8> = first[..20].to_vec();
    delivered.extend_from_slice(&second);
    assert_eq!(delivered, REPLY.to_vec());
}

#[test]
fn reply_survives_any_kernel_buffer_limit() {
    let limits: [usize; 7] = [1, 2, 5, 16, 64, 65, 4096];
    for limit in limits {
        let mut mux = server();
        let token = mux.accept().unwrap();
        mux.on_read(token, ReadOutcome::Received(b"GET / HTTP/1.1\r\nHost: x\r\n\r\n"));
        let (sent, attempts) = drain(&mut mux, token, limit);
        assert_eq!(sent, REPLY.to_vec());
        assert_eq!(attempts, (REPLY.len() + limit - 1) / limit);
        assert!(!mux.contains(token));
    }
}

#[test]
fn would_block_between_short_writes_loses_nothing() {
    let mut mux = server();
    let token = mux.accept().unwrap();
    mux.on_read(token, ReadOutcome::Received(b"GET /\r\n\r\n"));
    assert_eq!(mux.on_write(token, WriteOutcome::Sent(30)), Some(Action::Keep(Interest::Writable)));
    assert_eq!(mux.on_write(token, WriteOutcome::Deferred), Some(Action::Keep(Interest::Writable)));
    assert_eq!(mux.pending_write(&writable(token)), Some(&REPLY[30..]));
    let (rest, _) = drain(&mut mux, token, 1000);
    assert_eq!(rest, REPLY[30..].to_vec());
}

#[test]
fn many_peers_interleaved() {
    let mut mux = server();
    let tokens: Vec<Token> = (0..8).map(|_| mux.accept().unwrap()).collect();
    for t in &tokens {
        assert_eq!(
            mux.on_read(*t, ReadOutcome::Received(b"GET / HTTP/1.1\r\n")),
            Some(Action::Keep(Interest::Readable))
        );
    }
    for t in tokens.iter().rev() {
        assert_eq!(
            mux.on_read(*t, ReadOutcome::Received(b"\r\n")),
            Some(Action::Switch(Interest::Writable))
        );
    }
    for (i, t) in tokens.iter().enumerate() {
        let (sent, _) = drain(&mut mux, *t, i + 1);
        assert_eq!(sent, REPLY.to_vec());
        assert_eq!(mux.len(), tokens.len() - i - 1);
    }
}
