//! Choosing the knee of a rate-distortion curve.
//!
//! What is measured at a point (a curvature, a distance) is a real number.
//! Here each point comes with a rank instead: an integer that orders as the
//! measured values do. The first and the last point of a curve cannot be its
//! knee; their ranks are not read.

use vstd::prelude::*;

verus! {

/// Whether `i` is a point of the curve other than the first and the last.
pub open spec fn is_interior(ranks: Seq<u64>, i: int) -> bool {
    1 <= i < ranks.len() - 1
}

/// Whether `k` is the first interior point of greatest rank: no interior
/// point ranks higher, and every interior point before it ranks lower.
pub open spec fn is_first_greatest(ranks: Seq<u64>, k: int) -> bool {
    &&& is_interior(ranks, k)
    &&& forall|i: int| is_interior(ranks, i) ==> ranks[i] <= ranks[k]
    &&& forall|i: int| is_interior(ranks, i) && i < k ==> ranks[i] < ranks[k]
}

/// The first interior point of greatest rank, for a curve of at least three
/// points.
fn first_greatest(ranks: &[u64]) -> (knee: usize)
    requires
        ranks.len() >= 3,
    ensures
        is_first_greatest(ranks@, knee as int),
{
    let mut knee: usize = 1;
    let mut i: usize = 2;
    while i < ranks.len() - 1
        invariant
            ranks.len() >= 3,
            2 <= i <= ranks.len() - 1,
            1 <= knee < i,
            forall|j: int| 1 <= j < i ==> ranks[j] <= ranks[knee as int],
            forall|j: int| 1 <= j < knee ==> ranks[j] < ranks[knee as int],
        decreases ranks.len() - i,
    {
        if ranks[i] > ranks[knee] {
            knee = i;
        }
        i += 1;
    }
    knee
}

/// The knee by curvature: the interior point of strictly greatest curvature,
/// the first of them where several are greatest. Where the curve is flat,
/// that is its first interior point. A curve of fewer than three points has
/// no knee.
pub fn knee_by_curvature(ranks: &[u64]) -> (knee: Option<usize>)
    ensures
        ranks.len() < 3 ==> knee is None,
        ranks.len() >= 3 ==> knee is Some && is_first_greatest(ranks@, knee->0 as int),
{
    if ranks.len() < 3 {
        return None;
    }
    Some(first_greatest(ranks))
}

/// The knee by distance from the chord between the first and the last
/// point: the first interior point of greatest distance. A curve of fewer
/// than three points has none.
pub fn knee_by_chord_distance(ranks: &[u64]) -> (knee: Option<usize>)
    ensures
        ranks.len() < 3 ==> knee is None,
        ranks.len() >= 3 ==> knee is Some && is_first_greatest(ranks@, knee->0 as int),
{
    if ranks.len() < 3 {
        return None;
    }
    Some(first_greatest(ranks))
}

/// A curve has at most one first interior point of greatest rank.
pub proof fn law_knee_is_unique(ranks: Seq<u64>, a: int, b: int)
    requires
        is_first_greatest(ranks, a),
        is_first_greatest(ranks, b),
    ensures
        a == b,
{
    if a < b {
        assert(ranks[a] < ranks[b]);
    } else if b < a {
        assert(ranks[b] < ranks[a]);
    }
}

/// Every curve of three or more points has a knee, and it is an interior
/// point: never the first point and never the last.
pub proof fn law_knee_is_interior(ranks: Seq<u64>, k: int)
    requires
        is_first_greatest(ranks, k),
    ensures
        ranks.len() >= 3,
        0 < k < ranks.len() - 1,
{
}

} // verus!
