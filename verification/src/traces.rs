//! What holds of whole runs of a connection: a request that arrives in
//! pieces, and a reply that leaves in pieces.

use crate::connection::{read_step, write_step, ConnState, ConnectionView, ReadEvent, WriteOutcome};
use crate::framer::{
    boundary, first_marker, has_marker, lemma_boundary_is_first_marker, lemma_boundary_of_prefix,
};
use crate::response::response;
use crate::token::Token;
use vstd::prelude::*;

verus! {

/// The connection after one read attempt per chunk, each returning that chunk.
pub open spec fn after_reads(
    c: ConnectionView,
    chunks: Seq<Seq<u8>>,
    body: Seq<u8>,
) -> ConnectionView
    decreases chunks.len(),
{
    if chunks.len() == 0 {
        c
    } else {
        after_reads(
            read_step(c, ReadEvent::Received(chunks.first()), body).0,
            chunks.drop_first(),
            body,
        )
    }
}

/// The offsets at which the framer reports a boundary during that run, in the
/// order of the reports. The framer is asked whenever a reading connection has
/// appended a chunk that is not empty.
pub open spec fn detected_offsets(
    c: ConnectionView,
    chunks: Seq<Seq<u8>>,
    body: Seq<u8>,
) -> Seq<int>
    decreases chunks.len(),
{
    if chunks.len() == 0 {
        Seq::empty()
    } else {
        let asked = c.state == ConnState::Reading && chunks.first().len() > 0;
        let here = match boundary(c.read_buffer + chunks.first()) {
            Some(q) if asked => seq![q],
            _ => Seq::empty(),
        };
        here + detected_offsets(
            read_step(c, ReadEvent::Received(chunks.first()), body).0,
            chunks.drop_first(),
            body,
        )
    }
}

/// Once a connection has left `Reading`, read attempts change nothing and the
/// framer is not asked again.
pub proof fn lemma_reads_after_detection(c: ConnectionView, chunks: Seq<Seq<u8>>, body: Seq<u8>)
    requires
        c.state != ConnState::Reading,
    ensures
        after_reads(c, chunks, body) == c,
        detected_offsets(c, chunks, body) == Seq::<int>::empty(),
    decreases chunks.len(),
{
    if chunks.len() > 0 {
        lemma_reads_after_detection(c, chunks.drop_first(), body);
    }
}

/// However a stream that holds the marker is cut into chunks that are not
/// empty and handed to a new connection one read at a time, the framer reports
/// a boundary exactly once, and reports the offset of the first marker in the
/// stream. The connection then has the reply queued and is writing.
pub proof fn lemma_split_stream_detected_once(
    stream: Seq<u8>,
    chunks: Seq<Seq<u8>>,
    token: Token,
    body: Seq<u8>,
)
    requires
        has_marker(stream),
        chunks.flatten() == stream,
        forall|i: int| 0 <= i < chunks.len() ==> (#[trigger] chunks[i]).len() > 0,
    ensures
        boundary(stream) matches Some(p) && first_marker(stream, p) && detected_offsets(
            ConnectionView::fresh(token),
            chunks,
            body,
        ) == seq![p],
        after_reads(ConnectionView::fresh(token), chunks, body).state == ConnState::Writing,
        after_reads(ConnectionView::fresh(token), chunks, body).write_buffer == response(body),
{
    lemma_boundary_is_first_marker(stream);
    let p = boundary(stream)->Some_0;
    let c = ConnectionView::fresh(token);
    assert(c.read_buffer + chunks.flatten() =~= stream);
    assert(!has_marker(c.read_buffer));
    lemma_chunked_request_detected_once(c, chunks, body, p);
}

/// The same of a connection that has already buffered part of the request:
/// `p` is the offset of the first marker in what is buffered followed by what
/// the chunks bring.
pub proof fn lemma_chunked_request_detected_once(
    c: ConnectionView,
    chunks: Seq<Seq<u8>>,
    body: Seq<u8>,
    p: int,
)
    requires
        c.wf(),
        c.state == ConnState::Reading,
        forall|i: int| 0 <= i < chunks.len() ==> (#[trigger] chunks[i]).len() > 0,
        first_marker(c.read_buffer + chunks.flatten(), p),
    ensures
        detected_offsets(c, chunks, body) == seq![p],
        after_reads(c, chunks, body).state == ConnState::Writing,
        after_reads(c, chunks, body).write_buffer == response(body),
        after_reads(c, chunks, body).token == c.token,
    decreases chunks.len(),
{
    let stream = c.read_buffer + chunks.flatten();
    if chunks.len() == 0 {
        // Nothing arrives, so the marker would have to be buffered already.
        assert(stream =~= c.read_buffer);
        assert(false);
    } else {
        let data = chunks.first();
        let rest = chunks.drop_first();
        let buffered = c.read_buffer + data;
        assert(data == chunks[0]);
        assert(stream =~= buffered + rest.flatten());
        assert(buffered =~= stream.take(buffered.len() as int));
        lemma_boundary_of_prefix(stream, p, buffered.len() as int);
        let next = read_step(c, ReadEvent::Received(data), body).0;
        if buffered.len() >= p + 4 {
            assert(boundary(buffered) == Some(p));
            lemma_reads_after_detection(next, rest, body);
            assert(next.write_buffer =~= response(body));
            assert(detected_offsets(c, chunks, body) =~= seq![p]);
        } else {
            assert(boundary(buffered) == None::<int>);
            assert(next.read_buffer == buffered);
            assert forall|i: int| 0 <= i < rest.len() implies (#[trigger] rest[i]).len() > 0 by {
                assert(rest[i] == chunks[i + 1]);
            }
            lemma_chunked_request_detected_once(next, rest, body, p);
            assert(detected_offsets(c, chunks, body) =~= seq![p]);
        }
    }
}

/// Write attempts that each send at least one byte and at most what is pending
/// when they are made.
pub open spec fn partial_writes(pending: nat, sent: Seq<usize>) -> bool
    decreases sent.len(),
{
    sent.len() == 0 || (1 <= sent.first() <= pending && partial_writes(
        (pending - sent.first()) as nat,
        sent.drop_first(),
    ))
}

/// Number of bytes that the attempts sent together.
pub open spec fn total_sent(sent: Seq<usize>) -> nat
    decreases sent.len(),
{
    if sent.len() == 0 {
        0
    } else {
        sent.first() as nat + total_sent(sent.drop_first())
    }
}

/// The connection after the write attempts, one step each.
pub open spec fn after_writes(c: ConnectionView, sent: Seq<usize>) -> ConnectionView
    decreases sent.len(),
{
    if sent.len() == 0 {
        c
    } else {
        after_writes(write_step(c, WriteOutcome::Sent(sent.first())).0, sent.drop_first())
    }
}

/// The bytes that the attempts took, in the order in which they left: each
/// attempt is handed the pending bytes and takes its share off their front.
pub open spec fn delivered(c: ConnectionView, sent: Seq<usize>) -> Seq<u8>
    decreases sent.len(),
{
    if sent.len() == 0 {
        Seq::empty()
    } else {
        c.write_buffer.take(sent.first() as int) + delivered(
            write_step(c, WriteOutcome::Sent(sent.first())).0,
            sent.drop_first(),
        )
    }
}

/// However a reply is split over write attempts, what has left is a prefix of
/// it, what is pending is the rest, and the connection closes with the attempt
/// that sends the last byte: it is never closing while bytes are pending. Each
/// attempt makes progress, so there are no more attempts than bytes.
pub proof fn lemma_closes_only_when_drained(c: ConnectionView, sent: Seq<usize>)
    requires
        c.wf(),
        c.state == ConnState::Writing,
        partial_writes(c.write_buffer.len(), sent),
    ensures
        sent.len() <= total_sent(sent) <= c.write_buffer.len(),
        delivered(c, sent) == c.write_buffer.take(total_sent(sent) as int),
        after_writes(c, sent).write_buffer == c.write_buffer.skip(total_sent(sent) as int),
        after_writes(c, sent).state == if total_sent(sent) == c.write_buffer.len() {
            ConnState::Closing
        } else {
            ConnState::Writing
        },
        after_writes(c, sent).state == ConnState::Closing ==> after_writes(
            c,
            sent,
        ).write_buffer.len() == 0,
    decreases sent.len(),
{
    if sent.len() == 0 {
        assert(c.write_buffer.take(0) =~= Seq::<u8>::empty());
        assert(c.write_buffer.skip(0) =~= c.write_buffer);
    } else {
        let k = sent.first();
        let rest = sent.drop_first();
        let next = write_step(c, WriteOutcome::Sent(k)).0;
        assert(next.write_buffer == c.write_buffer.skip(k as int));
        if next.write_buffer.len() == 0 {
            assert(partial_writes(0, rest));
            assert(rest.len() == 0);
            assert(total_sent(rest) == 0);
            assert(delivered(next, rest) =~= Seq::<u8>::empty());
            assert(after_writes(next, rest) == next);
            assert(delivered(c, sent) =~= c.write_buffer.take(total_sent(sent) as int));
            assert(after_writes(c, sent).write_buffer =~= c.write_buffer.skip(
                total_sent(sent) as int,
            ));
        } else {
            lemma_closes_only_when_drained(next, rest);
            let n = total_sent(rest);
            assert(delivered(c, sent) =~= c.write_buffer.take(k + n));
            assert(after_writes(c, sent).write_buffer =~= c.write_buffer.skip(k + n));
        }
    }
}

} // verus!
