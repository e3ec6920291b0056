//! The frame scanner: where the header block of a request ends and its body
//! begins.

use vstd::prelude::*;

use crate::search::{first_from, lemma_first_from_found, lemma_first_from_none, lemma_first_from_sound};

verus! {

/// The blank line that ends the header block: `\r\n\r\n`.
pub open spec fn boundary_marker() -> Seq<u8> {
    seq![13u8, 10u8, 13u8, 10u8]
}

/// The marker starts at index `i` of `b`.
pub open spec fn marker_at(b: Seq<u8>, i: int) -> bool {
    0 <= i && i + 4 <= b.len() && b.subrange(i, i + 4) == boundary_marker()
}

/// The search predicate for the marker.
pub open spec fn marker() -> spec_fn(Seq<u8>, int) -> bool {
    |s: Seq<u8>, i: int| marker_at(s, i)
}

/// Index of the first marker in `b`, if any.
pub open spec fn boundary_of(b: Seq<u8>) -> Option<int> {
    first_from(b, 0, marker())
}

/// Where a header block ends and the body that follows it starts.
#[derive(Clone, Copy, Debug, PartialEq, Eq, Structural)]
pub struct Frame {
    /// Index of the first byte of the marker: the length of the header text.
    pub header_end: usize,
    /// Index of the first byte after the marker.
    pub body_start: usize,
}

/// Finds the first `\r\n\r\n` in `buf`; `None` means that more bytes are
/// needed.
pub fn scan_frame(buf: &[u8]) -> (r: Option<Frame>)
    ensures
        match boundary_of(buf@) {
            Some(k) => r matches Some(f) && f.header_end == k && f.body_start == k + 4,
            None => r is None,
        },
{
    let n = buf.len();
    let mut i: usize = 0;
    while n >= 4 && i <= n - 4
        invariant
            n == buf@.len(),
            i <= n,
            forall|k: int| 0 <= k < i ==> !marker_at(buf@, k),
        decreases n - i,
    {
        if buf[i] == 13u8 && buf[i + 1] == 10u8 && buf[i + 2] == 13u8 && buf[i + 3] == 10u8 {
            proof {
                assert(buf@.subrange(i as int, i + 4) =~= boundary_marker());
                assert(marker_at(buf@, i as int));
                lemma_first_from_found(buf@, 0, marker(), i as int);
            }
            return Some(Frame { header_end: i, body_start: i + 4 });
        }
        proof {
            if marker_at(buf@, i as int) {
                assert(buf@.subrange(i as int, i + 4)[0] == buf@[i as int]);
                assert(buf@.subrange(i as int, i + 4)[1] == buf@[i + 1]);
                assert(buf@.subrange(i as int, i + 4)[2] == buf@[i + 2]);
                assert(buf@.subrange(i as int, i + 4)[3] == buf@[i + 3]);
            }
        }
        i = i + 1;
    }
    proof {
        lemma_first_from_none(buf@, 0, marker());
    }
    None
}

/// A buffer that holds the marker at `k` and nowhere else has its boundary
/// at `k`: the header text ends at `k` and the body starts at `k + 4`.
pub proof fn lemma_single_marker(b: Seq<u8>, k: int)
    requires
        marker_at(b, k),
        forall|j: int| j != k ==> !marker_at(b, j),
    ensures
        boundary_of(b) == Some(k),
{
    lemma_first_from_found(b, 0, marker(), k);
}

/// A buffer without the marker has no boundary.
pub proof fn lemma_no_marker(b: Seq<u8>)
    requires
        forall|j: int| !marker_at(b, j),
    ensures
        boundary_of(b) is None,
{
    lemma_first_from_none(b, 0, marker());
}

} // verus!
