//! Ranking of sampled records by their distance in colour from a new colour.

use vstd::prelude::*;
use crate::color::{color_distance, Color};
use crate::grid::Record;

verus! {

/// Sample `i` comes before sample `j` when the samples are sorted stably by
/// their distance from `target`: it is nearer, or equally near and earlier
/// in the sample.
pub open spec fn ranks_before(samples: Seq<Record>, target: Color, i: int, j: int) -> bool {
    let di = color_distance(target, samples[i].color);
    let dj = color_distance(target, samples[j].color);
    di < dj || (di == dj && i < j)
}

/// Among the first `k` samples, `first`, `second` and `third` are the three
/// that a stable sort by distance from `target` puts in front, in that order.
pub open spec fn leads_prefix(
    samples: Seq<Record>,
    target: Color,
    k: int,
    first: int,
    second: int,
    third: int,
) -> bool {
    &&& 0 <= first < k
    &&& 0 <= second < k
    &&& 0 <= third < k
    &&& ranks_before(samples, target, first, second)
    &&& ranks_before(samples, target, second, third)
    &&& forall|j: int|
        0 <= j < k && j != first && j != second && j != third ==> #[trigger] ranks_before(
            samples,
            target,
            third,
            j,
        )
}

/// `first`, `second` and `third` are the indices of the three samples nearest
/// to `target`, nearest first, ties going to the earlier sample.
pub open spec fn nearest_three(
    samples: Seq<Record>,
    target: Color,
    first: int,
    second: int,
    third: int,
) -> bool {
    leads_prefix(samples, target, samples.len() as int, first, second, third)
}

/// The three nearest samples are determined: any two answers agree.
pub proof fn lemma_nearest_three_unique(
    samples: Seq<Record>,
    target: Color,
    p: (int, int, int),
    q: (int, int, int),
)
    requires
        nearest_three(samples, target, p.0, p.1, p.2),
        nearest_three(samples, target, q.0, q.1, q.2),
    ensures
        p == q,
{
    let before = |i: int, j: int| ranks_before(samples, target, i, j);
    // Each index of one answer is among the other's, or is ranked after its third.
    assert(q.0 == p.0 || q.0 == p.1 || q.0 == p.2 || before(p.2, q.0));
    assert(q.1 == p.0 || q.1 == p.1 || q.1 == p.2 || before(p.2, q.1));
    assert(q.2 == p.0 || q.2 == p.1 || q.2 == p.2 || before(p.2, q.2));
    assert(p.0 == q.0 || p.0 == q.1 || p.0 == q.2 || before(q.2, p.0));
    assert(p.1 == q.0 || p.1 == q.1 || p.1 == q.2 || before(q.2, p.1));
    assert(p.2 == q.0 || p.2 == q.1 || p.2 == q.2 || before(q.2, p.2));
}

/// The indices of the three samples nearest in colour to `target`, nearest
/// first, as a stable sort by distance would order them. There is no answer
/// when the sample holds fewer than three records.
pub fn rank_nearest(target: Color, samples: &Vec<Record>) -> (best: Option<(usize, usize, usize)>)
    ensures
        best is None <==> samples@.len() < 3,
        best matches Some((first, second, third)) ==> nearest_three(
            samples@,
            target,
            first as int,
            second as int,
            third as int,
        ),
{
    let n = samples.len();
    if n < 3 {
        return None;
    }
    let d0 = target.distance(samples[0].color);
    let d1 = target.distance(samples[1].color);
    let d2 = target.distance(samples[2].color);
    let mut first: usize = 0;
    let mut second: usize = 1;
    let mut near: u32 = d0;
    let mut mid: u32 = d1;
    if d1 < d0 {
        first = 1;
        second = 0;
        near = d1;
        mid = d0;
    }
    let mut third: usize = 2;
    let mut far: u32 = d2;
    if d2 < near {
        third = second;
        far = mid;
        second = first;
        mid = near;
        first = 2;
        near = d2;
    } else if d2 < mid {
        third = second;
        far = mid;
        second = 2;
        mid = d2;
    }
    let mut k: usize = 3;
    while k < n
        invariant
            3 <= k <= n,
            n == samples@.len(),
            near == color_distance(target, samples@[first as int].color),
            mid == color_distance(target, samples@[second as int].color),
            far == color_distance(target, samples@[third as int].color),
            leads_prefix(samples@, target, k as int, first as int, second as int, third as int),
        decreases n - k,
    {
        let d = target.distance(samples[k].color);
        let ghost old_third = third as int;
        if d < near {
            third = second;
            far = mid;
            second = first;
            mid = near;
            first = k;
            near = d;
        } else if d < mid {
            third = second;
            far = mid;
            second = k;
            mid = d;
        } else if d < far {
            third = k;
            far = d;
        }
        proof {
            assert forall|j: int|
                0 <= j < k + 1 && j != first && j != second && j != third implies #[trigger] ranks_before(
                samples@,
                target,
                third as int,
                j,
            ) by {
                if j != old_third && j < k {
                    assert(ranks_before(samples@, target, old_third, j));
                }
            }
        }
        k = k + 1;
    }
    Some((first, second, third))
}

} // verus!
