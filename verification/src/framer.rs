//! Request framing: locating the blank line that ends a request head.

use vstd::prelude::*;

verus! {

/// Number of bytes in the boundary marker.
pub const MARKER_LEN: usize = 4;

/// The boundary marker: carriage return, line feed, carriage return, line feed.
pub open spec fn marker() -> Seq<u8> {
    seq![13u8, 10u8, 13u8, 10u8]
}

/// The marker occupies the four bytes of `buf` that start at offset `i`.
pub open spec fn marker_at(buf: Seq<u8>, i: int) -> bool {
    &&& 0 <= i
    &&& i + 4 <= buf.len()
    &&& buf.subrange(i, i + 4) == marker()
}

/// Some offset of `buf` holds the marker.
pub open spec fn has_marker(buf: Seq<u8>) -> bool {
    exists|i: int| marker_at(buf, i)
}

/// `p` is the smallest offset of `buf` that holds the marker.
pub open spec fn first_marker(buf: Seq<u8>, p: int) -> bool {
    &&& marker_at(buf, p)
    &&& forall|j: int| 0 <= j < p ==> !marker_at(buf, j)
}

/// Offset of the first marker in `buf`, if there is one.
pub open spec fn boundary(buf: Seq<u8>) -> Option<int> {
    if has_marker(buf) {
        Some(choose|p: int| first_marker(buf, p))
    } else {
        None
    }
}

/// The marker at offset `i`, byte by byte.
pub proof fn lemma_marker_bytes(buf: Seq<u8>, i: int)
    requires
        0 <= i,
        i + 4 <= buf.len(),
    ensures
        marker_at(buf, i) <==> (buf[i] == 13 && buf[i + 1] == 10 && buf[i + 2] == 13 && buf[i + 3]
            == 10),
{
    let w = buf.subrange(i, i + 4);
    if buf[i] == 13 && buf[i + 1] == 10 && buf[i + 2] == 13 && buf[i + 3] == 10 {
        assert(w =~= marker());
    }
}

/// A smallest marker offset is the boundary: there is at most one.
pub proof fn lemma_first_marker_is_boundary(buf: Seq<u8>, p: int)
    requires
        first_marker(buf, p),
    ensures
        boundary(buf) == Some(p),
{
    let q = choose|q: int| first_marker(buf, q);
    assert(first_marker(buf, q));
    assert(q == p);
}

/// Where the marker stands at `i`, some offset up to `i` is the smallest that
/// holds it.
pub proof fn lemma_least_marker(buf: Seq<u8>, i: int) -> (p: int)
    requires
        marker_at(buf, i),
    ensures
        first_marker(buf, p),
        p <= i,
    decreases i,
{
    if exists|j: int| 0 <= j < i && marker_at(buf, j) {
        let j = choose|j: int| 0 <= j < i && marker_at(buf, j);
        lemma_least_marker(buf, j)
    } else {
        i
    }
}

/// The boundary is the smallest offset that holds the marker, and there is
/// one whenever the marker occurs at all.
pub proof fn lemma_boundary_is_first_marker(buf: Seq<u8>)
    ensures
        match boundary(buf) {
            Some(p) => first_marker(buf, p),
            None => !has_marker(buf),
        },
{
    if has_marker(buf) {
        let i = choose|i: int| marker_at(buf, i);
        let p = lemma_least_marker(buf, i);
        lemma_first_marker_is_boundary(buf, p);
    }
}

/// A marker inside a prefix is a marker of the whole, and the other way round
/// as soon as the prefix is long enough to hold it.
pub proof fn lemma_marker_in_prefix(data: Seq<u8>, n: int, i: int)
    requires
        0 <= n <= data.len(),
    ensures
        marker_at(data.take(n), i) <==> (marker_at(data, i) && i + 4 <= n),
{
    if 0 <= i && i + 4 <= n {
        assert(data.take(n).subrange(i, i + 4) =~= data.subrange(i, i + 4));
    }
}

/// Bytes that arrive later never move the boundary: of a stream whose first
/// marker starts at `p`, a prefix shorter than `p + 4` holds no marker, and
/// every longer prefix has its boundary at `p`.
pub proof fn lemma_boundary_of_prefix(data: Seq<u8>, p: int, n: int)
    requires
        first_marker(data, p),
        0 <= n <= data.len(),
    ensures
        boundary(data.take(n)) == (if n >= p + 4 {
            Some(p)
        } else {
            None::<int>
        }),
{
    let head = data.take(n);
    assert forall|i: int| marker_at(head, i) <==> (marker_at(data, i) && i + 4 <= n) by {
        lemma_marker_in_prefix(data, n, i);
    }
    if n >= p + 4 {
        lemma_first_marker_is_boundary(head, p);
    } else {
        assert(!has_marker(head));
    }
}

/// Scans `buf` for the marker and returns the offset of its first byte.
pub fn find_boundary(buf: &[u8]) -> (found: Option<usize>)
    ensures
        match found {
            Some(p) => first_marker(buf@, p as int),
            None => !has_marker(buf@),
        },
        boundary(buf@) == match found {
            Some(p) => Some(p as int),
            None => None,
        },
        found matches Some(p) ==> p + MARKER_LEN <= usize::MAX,
{
    let n: usize = buf.len();
    if n < MARKER_LEN {
        return None;
    }
    let last: usize = n - MARKER_LEN;
    let mut i: usize = 0;
    while i <= last
        invariant
            n == buf.len(),
            n >= 4,
            last == n - 4,
            i <= last + 1,
            forall|j: int| 0 <= j < i ==> !marker_at(buf@, j),
        decreases last + 1 - i,
    {
        proof {
            lemma_marker_bytes(buf@, i as int);
        }
        if buf[i] == 13 && buf[i + 1] == 10 && buf[i + 2] == 13 && buf[i + 3] == 10 {
            proof {
                lemma_first_marker_is_boundary(buf@, i as int);
            }
            return Some(i);
        }
        i = i + 1;
    }
    None
}

} // verus!
