//! Splitting a polygon ring along a cut line.
//!
//! The caller finds where the cut crosses the ring: the two edges it crosses
//! (edge `i` runs from vertex `i` to vertex `i + 1`, wrapping around) and the
//! two crossing points. This module assembles the two pieces.
use vstd::prelude::*;

verus! {

/// The piece between the two cuts: the first crossing, the vertices after
/// edge `idx1` up to and including vertex `idx2`, then the second crossing.
pub open spec fn first_piece<P>(polygon: Seq<P>, idx1: int, idx2: int, cut1: P, cut2: P) -> Seq<P> {
    seq![cut1] + polygon.subrange(idx1 + 1, idx2 + 1) + seq![cut2]
}

/// The rest of the ring: the second crossing, the vertices after edge `idx2`
/// to the end, the vertices from the start up to and including `idx1`, then
/// the first crossing.
pub open spec fn second_piece<P>(polygon: Seq<P>, idx1: int, idx2: int, cut1: P, cut2: P) -> Seq<P> {
    seq![cut2] + polygon.subrange(idx2 + 1, polygon.len() as int) + polygon.subrange(0, idx1 + 1)
        + seq![cut1]
}

/// Splits a ring crossed on edges `idx1 < idx2` at the points `cut1` (on edge
/// `idx1`) and `cut2` (on edge `idx2`) into its two pieces.
pub fn split_ring<P: Copy>(polygon: &Vec<P>, idx1: usize, idx2: usize, cut1: P, cut2: P) -> (pieces: (
    Vec<P>,
    Vec<P>,
))
    requires
        idx1 < idx2 < polygon@.len(),
    ensures
        pieces.0@ == first_piece(polygon@, idx1 as int, idx2 as int, cut1, cut2),
        pieces.1@ == second_piece(polygon@, idx1 as int, idx2 as int, cut1, cut2),
        pieces.0@.len() + pieces.1@.len() == polygon@.len() + 4,
        // Each piece runs from one crossing to the other, as a closed ring of its own.
        pieces.0@.len() == idx2 - idx1 + 2,
        pieces.0@[0] == cut1,
        pieces.0@.last() == cut2,
        pieces.1@[0] == cut2,
        pieces.1@.last() == cut1,
        forall|i: int| idx1 < i <= idx2 ==> #[trigger] pieces.0@[i - idx1] == polygon@[i],
        forall|i: int| idx2 < i < polygon@.len() ==> #[trigger] pieces.1@[i - idx2] == polygon@[i],
        forall|i: int|
            0 <= i <= idx1 ==> #[trigger] pieces.1@[polygon@.len() - idx2 + i] == polygon@[i],
{
    let n = polygon.len();
    let mut first: Vec<P> = Vec::new();
    first.push(cut1);
    let mut i = idx1 + 1;
    while i <= idx2
        invariant
            idx1 < idx2 < n,
            n == polygon@.len(),
            idx1 + 1 <= i <= idx2 + 1,
            first@ == seq![cut1] + polygon@.subrange(idx1 + 1, i as int),
        decreases idx2 + 1 - i,
    {
        first.push(polygon[i]);
        proof {
            assert(first@ =~= seq![cut1] + polygon@.subrange(idx1 + 1, i + 1));
        }
        i = i + 1;
    }
    first.push(cut2);
    let mut second: Vec<P> = Vec::new();
    second.push(cut2);
    let mut i = idx2 + 1;
    while i < n
        invariant
            idx1 < idx2 < n,
            n == polygon@.len(),
            idx2 + 1 <= i <= n,
            second@ == seq![cut2] + polygon@.subrange(idx2 + 1, i as int),
        decreases n - i,
    {
        second.push(polygon[i]);
        proof {
            assert(second@ =~= seq![cut2] + polygon@.subrange(idx2 + 1, i + 1));
        }
        i = i + 1;
    }
    let mut i: usize = 0;
    while i <= idx1
        invariant
            idx1 < idx2 < n,
            n == polygon@.len(),
            i <= idx1 + 1,
            second@ == seq![cut2] + polygon@.subrange(idx2 + 1, n as int) + polygon@.subrange(
                0,
                i as int,
            ),
        decreases idx1 + 1 - i,
    {
        second.push(polygon[i]);
        proof {
            assert(second@ =~= seq![cut2] + polygon@.subrange(idx2 + 1, n as int)
                + polygon@.subrange(0, i + 1));
        }
        i = i + 1;
    }
    second.push(cut1);
    proof {
        assert(first@ =~= first_piece(polygon@, idx1 as int, idx2 as int, cut1, cut2));
        assert(second@ =~= second_piece(polygon@, idx1 as int, idx2 as int, cut1, cut2));
        split_ring_keeps_every_vertex_once(polygon@, idx1 as int, idx2 as int, cut1, cut2);
    }
    (first, second)
}

/// Cutting a ring loses no vertex and duplicates none: the vertices after edge
/// `idx1` up to `idx2` go, in order, to the first piece; all others go, in ring
/// order starting after edge `idx2`, to the second piece.
pub proof fn split_ring_keeps_every_vertex_once<P>(
    polygon: Seq<P>,
    idx1: int,
    idx2: int,
    cut1: P,
    cut2: P,
)
    requires
        0 <= idx1 < idx2 < polygon.len(),
    ensures
        forall|i: int|
            idx1 < i <= idx2 ==> #[trigger] first_piece(polygon, idx1, idx2, cut1, cut2)[i - idx1]
                == polygon[i],
        forall|i: int|
            idx2 < i < polygon.len() ==> #[trigger] second_piece(polygon, idx1, idx2, cut1, cut2)[i
                - idx2] == polygon[i],
        forall|i: int|
            0 <= i <= idx1 ==> #[trigger] second_piece(polygon, idx1, idx2, cut1, cut2)[polygon.len()
                - idx2 + i] == polygon[i],
        first_piece(polygon, idx1, idx2, cut1, cut2).len() == idx2 - idx1 + 2,
        second_piece(polygon, idx1, idx2, cut1, cut2).len() == polygon.len() - (idx2 - idx1) + 2,
{
}

} // verus!
