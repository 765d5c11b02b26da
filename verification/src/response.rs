//! The fixed reply: a status head, the body's length in decimal, a blank line
//! and the body.

use crate::framer::marker;
use vstd::prelude::*;
use vstd::string::StringSliceAdditionalSpecFns;

verus! {

/// Everything of the reply that precedes the length digits.
pub open spec fn status_head() -> Seq<u8> {
    "HTTP/1.1 200 OK\r\nConnection: close\r\nContent-Length: ".spec_bytes()
}

/// ASCII code of the decimal digit `d`.
pub open spec fn digit(d: nat) -> u8
    recommends
        d < 10,
{
    (48 + d) as u8
}

/// Decimal numeral of `n` in ASCII, without leading zeros.
pub open spec fn decimal(n: nat) -> Seq<u8>
    decreases n,
{
    if n < 10 {
        seq![digit(n)]
    } else {
        decimal(n / 10).push(digit(n % 10))
    }
}

/// Number that a string of ASCII digits denotes.
pub open spec fn decimal_value(digits: Seq<u8>) -> nat
    decreases digits.len(),
{
    if digits.len() == 0 {
        0
    } else {
        10 * decimal_value(digits.drop_last()) + (digits.last() - 48) as nat
    }
}

/// The complete reply for `body`.
pub open spec fn response(body: Seq<u8>) -> Seq<u8> {
    status_head() + decimal(body.len()) + marker() + body
}

/// A numeral has at least one digit, holds digits only, and starts with a zero
/// only when it is the numeral of zero.
pub proof fn lemma_decimal_shape(n: nat)
    ensures
        decimal(n).len() >= 1,
        forall|i: int| 0 <= i < decimal(n).len() ==> 48 <= #[trigger] decimal(n)[i] <= 57,
        decimal(n)[0] == 48 <==> n == 0,
    decreases n,
{
    if n >= 10 {
        lemma_decimal_shape(n / 10);
    }
}

/// Reading a numeral back gives the number it was written for.
pub proof fn lemma_decimal_round_trip(n: nat)
    ensures
        decimal_value(decimal(n)) == n,
    decreases n,
{
    if n < 10 {
        let d = decimal(n);
        assert(decimal_value(d.drop_last()) == 0);
    } else {
        lemma_decimal_round_trip(n / 10);
        let d = decimal(n);
        assert(d.drop_last() =~= decimal(n / 10));
    }
}

/// The status head byte by byte: the ASCII codes of `HTTP/1.1 200 OK`, a line
/// end, `Connection: close`, a line end, and `Content-Length: `.
pub proof fn lemma_status_head_bytes()
    ensures
        status_head().len() == 52,
        status_head() == seq![
            72u8, 84, 84, 80, 47, 49, 46, 49, 32, 50, 48, 48, 32, 79, 75, 13, 10, 67, 111, 110,
            110, 101, 99, 116, 105, 111, 110, 58, 32, 99, 108, 111, 115, 101, 13, 10, 67, 111, 110,
            116, 101, 110, 116, 45, 76, 101, 110, 103, 116, 104, 58, 32,
        ],
{
    reveal_strlit("HTTP/1.1 200 OK\r\nConnection: close\r\nContent-Length: ");
    let head = "HTTP/1.1 200 OK\r\nConnection: close\r\nContent-Length: ";
    vstd::string::is_ascii_spec_bytes(head);
    assert(status_head() =~= seq![
        72u8, 84, 84, 80, 47, 49, 46, 49, 32, 50, 48, 48, 32, 79, 75, 13, 10, 67, 111, 110,
        110, 101, 99, 116, 105, 111, 110, 58, 32, 99, 108, 111, 115, 101, 13, 10, 67, 111, 110,
        116, 101, 110, 116, 45, 76, 101, 110, 103, 116, 104, 58, 32,
    ]);
}

/// The reply announces exactly the body's length: it opens with the status
/// head, the digits that follow denote `body.len()`, then comes the blank line,
/// and the body closes it unchanged.
pub proof fn lemma_content_length_matches_body(body: Seq<u8>)
    ensures
        ({
            let reply = response(body);
            let digits_from = status_head().len() as int;
            let digits_to = digits_from + decimal(body.len()).len();
            &&& reply.len() == digits_to + 4 + body.len()
            &&& reply.subrange(0, digits_from) == status_head()
            &&& decimal_value(reply.subrange(digits_from, digits_to)) == body.len()
            &&& reply.subrange(digits_to, digits_to + 4) == marker()
            &&& reply.subrange(digits_to + 4, reply.len() as int) == body
        }),
{
    let reply = response(body);
    let digits_from = status_head().len() as int;
    let digits_to = digits_from + decimal(body.len()).len();
    lemma_decimal_round_trip(body.len());
    assert(reply.subrange(digits_from, digits_to) =~= decimal(body.len()));
}

/// No reply is empty.
pub proof fn lemma_response_len(body: Seq<u8>)
    ensures
        response(body).len() == 52 + decimal(body.len()).len() + 4 + body.len(),
        response(body).len() >= 57,
{
    lemma_status_head_bytes();
    lemma_decimal_shape(body.len());
}

/// Appends the decimal numeral of `n` to `out`.
pub fn push_decimal(out: &mut Vec<u8>, n: usize)
    ensures
        final(out)@ == old(out)@ + decimal(n as nat),
    decreases n,
{
    if n >= 10 {
        push_decimal(out, n / 10);
    }
    let d: u8 = (n % 10) as u8;
    out.push(48 + d);
}

/// Builds the reply for `body`.
pub fn build_response(body: &[u8]) -> (out: Vec<u8>)
    ensures
        out@ == response(body@),
{
    let head = "HTTP/1.1 200 OK\r\nConnection: close\r\nContent-Length: ";
    let mut out: Vec<u8> = Vec::new();
    out.extend_from_slice(head.as_bytes());
    push_decimal(&mut out, body.len());
    out.push(13);
    out.push(10);
    out.push(13);
    out.push(10);
    out.extend_from_slice(body);
    out
}

} // verus!
