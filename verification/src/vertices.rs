//! The start and the direction of a walk: which of the three vertices on the
//! circle lies between the other two, and which neighbouring cell the walk
//! enters first.
//!
//! Angles enter as keys: unsigned integers that order as the angular
//! differences do.

use vstd::prelude::*;
use crate::point::{Point, Spot};

verus! {

/// One of the three vertices of the triangle, in the order of their rank by
/// colour.
#[derive(Clone, Copy, Debug, PartialEq, Eq, Structural)]
pub enum Vertex {
    A,
    B,
    C,
}

/// Where a walk starts and towards which vertex it sets out.
#[derive(Clone, Copy, Debug, PartialEq, Eq, Structural)]
pub struct Heading {
    /// The vertex angularly between the other two.
    pub middle: Vertex,
    /// The nearer neighbour of the middle vertex.
    pub second: Vertex,
}

/// The heading that follows from the three comparisons of the pairwise
/// angular differences, where `ab` is the difference between A and B and so
/// on; or `None` where the comparisons contradict one another, as no total
/// order allows.
pub open spec fn heading_of(ab_le_ac: bool, ab_le_bc: bool, ac_le_bc: bool) -> Option<Heading> {
    if ab_le_ac && ab_le_bc && ac_le_bc {
        Some(Heading { middle: Vertex::A, second: Vertex::B })
    } else if !ab_le_ac && ab_le_bc && ac_le_bc {
        Some(Heading { middle: Vertex::A, second: Vertex::C })
    } else if ab_le_ac && ab_le_bc && !ac_le_bc {
        Some(Heading { middle: Vertex::B, second: Vertex::A })
    } else if ab_le_ac && !ab_le_bc && !ac_le_bc {
        Some(Heading { middle: Vertex::B, second: Vertex::C })
    } else if !ab_le_ac && !ab_le_bc && ac_le_bc {
        Some(Heading { middle: Vertex::C, second: Vertex::A })
    } else if !ab_le_ac && !ab_le_bc && !ac_le_bc {
        Some(Heading { middle: Vertex::C, second: Vertex::B })
    } else {
        None
    }
}

/// The comparisons fit no order of the three differences: `ab <= ac <= bc`
/// without `ab <= bc`, or `ab > ac > bc` with `ab <= bc`.
pub open spec fn contradictory(ab_le_ac: bool, ab_le_bc: bool, ac_le_bc: bool) -> bool {
    (ab_le_ac && !ab_le_bc && ac_le_bc) || (!ab_le_ac && ab_le_bc && !ac_le_bc)
}

/// The heading for three comparisons of angular differences. Comparisons
/// that contradict one another give `None`, and only they do.
pub fn heading_from_comparisons(ab_le_ac: bool, ab_le_bc: bool, ac_le_bc: bool) -> (heading: Option<
    Heading,
>)
    ensures
        heading == heading_of(ab_le_ac, ab_le_bc, ac_le_bc),
        heading is None <==> contradictory(ab_le_ac, ab_le_bc, ac_le_bc),
{
    match (ab_le_ac, ab_le_bc, ac_le_bc) {
        (true, true, true) => Some(Heading { middle: Vertex::A, second: Vertex::B }),
        (false, true, true) => Some(Heading { middle: Vertex::A, second: Vertex::C }),
        (true, true, false) => Some(Heading { middle: Vertex::B, second: Vertex::A }),
        (true, false, false) => Some(Heading { middle: Vertex::B, second: Vertex::C }),
        (false, false, true) => Some(Heading { middle: Vertex::C, second: Vertex::A }),
        (false, false, false) => Some(Heading { middle: Vertex::C, second: Vertex::B }),
        (true, false, true) => None,
        (false, true, false) => None,
    }
}

/// The vertex that is neither `u` nor `v`, for two different vertices.
pub open spec fn remaining(u: Vertex, v: Vertex) -> Vertex {
    if u != Vertex::A && v != Vertex::A {
        Vertex::A
    } else if u != Vertex::B && v != Vertex::B {
        Vertex::B
    } else {
        Vertex::C
    }
}

/// The angular difference between two different vertices, read from the
/// three keys.
pub open spec fn gap(ab: u64, ac: u64, bc: u64, u: Vertex, v: Vertex) -> u64 {
    match remaining(u, v) {
        Vertex::C => ab,
        Vertex::B => ac,
        Vertex::A => bc,
    }
}

/// The heading for the three pairwise angular differences, given as keys.
/// Keys are totally ordered, so there always is one: the middle vertex is the
/// one whose two differences are the two smallest, and the second vertex is
/// the nearer of its neighbours.
pub fn heading_from_keys(ab: u64, ac: u64, bc: u64) -> (heading: Heading)
    ensures
        heading_of(ab <= ac, ab <= bc, ac <= bc) == Some(heading),
        heading.middle != heading.second,
        gap(ab, ac, bc, heading.middle, heading.second) <= gap(
            ab,
            ac,
            bc,
            heading.middle,
            remaining(heading.middle, heading.second),
        ),
        gap(ab, ac, bc, heading.middle, remaining(heading.middle, heading.second)) <= gap(
            ab,
            ac,
            bc,
            heading.second,
            remaining(heading.middle, heading.second),
        ),
{
    if ab <= ac {
        if ac <= bc {
            Heading { middle: Vertex::A, second: Vertex::B }
        } else if ab <= bc {
            Heading { middle: Vertex::B, second: Vertex::A }
        } else {
            Heading { middle: Vertex::B, second: Vertex::C }
        }
    } else if ab <= bc {
        Heading { middle: Vertex::A, second: Vertex::C }
    } else if ac <= bc {
        Heading { middle: Vertex::C, second: Vertex::A }
    } else {
        Heading { middle: Vertex::C, second: Vertex::B }
    }
}

/// The `k`-th of the eight neighbours of `p`, in the order in which a walk
/// considers them: the first coordinate falls from one above to one below,
/// and within that the second does.
pub open spec fn neighbour_of(p: Spot, k: int) -> Spot {
    let dx: int = if k < 3 {
        1
    } else if k < 5 {
        0
    } else {
        -1
    };
    let dy: int = if k == 0 || k == 3 || k == 5 {
        1
    } else if k == 1 || k == 6 {
        0
    } else {
        -1
    };
    Spot { x: p.x + dx, y: p.y + dy }
}

/// The point has a neighbour on every side.
pub open spec fn has_neighbours(p: Point) -> bool {
    &&& i64::MIN < p.x < i64::MAX
    &&& i64::MIN < p.y < i64::MAX
}

/// The `k`-th neighbour of `p`.
pub fn neighbour(p: Point, k: usize) -> (q: Point)
    requires
        has_neighbours(p),
        k < 8,
    ensures
        q@ == neighbour_of(p@, k as int),
{
    let x = if k < 3 {
        p.x + 1
    } else if k < 5 {
        p.x
    } else {
        p.x - 1
    };
    let y = if k == 0 || k == 3 || k == 5 {
        p.y + 1
    } else if k == 1 || k == 6 {
        p.y
    } else {
        p.y - 1
    };
    Point { x, y }
}

/// The eight neighbours of `p`, in order.
pub fn neighbours(p: Point) -> (around: [Point; 8])
    requires
        has_neighbours(p),
    ensures
        forall|k: int| 0 <= k < 8 ==> (#[trigger] around[k])@ == neighbour_of(p@, k),
{
    [
        neighbour(p, 0),
        neighbour(p, 1),
        neighbour(p, 2),
        neighbour(p, 3),
        neighbour(p, 4),
        neighbour(p, 5),
        neighbour(p, 6),
        neighbour(p, 7),
    ]
}

/// Neighbour `k` of `middle` is where a walk towards `second` sets out: it
/// is not `second` itself, no other such neighbour has a smaller key, and
/// none before it has an equal one.
pub open spec fn is_first_step(middle: Spot, second: Spot, keys: Seq<u64>, k: int) -> bool {
    &&& 0 <= k < 8
    &&& neighbour_of(middle, k) != second
    &&& forall|j: int|
        0 <= j < 8 && #[trigger] neighbour_of(middle, j) != second ==> keys[k] <= keys[j]
    &&& forall|j: int| 0 <= j < k && #[trigger] neighbour_of(middle, j) != second ==> keys[k] < keys[j]
}

/// The first step is determined by the keys.
pub proof fn lemma_first_step_unique(middle: Spot, second: Spot, keys: Seq<u64>, k: int, l: int)
    requires
        is_first_step(middle, second, keys, k),
        is_first_step(middle, second, keys, l),
    ensures
        k == l,
{
    assert(neighbour_of(middle, k) != second);
    assert(neighbour_of(middle, l) != second);
}

/// The first step of a walk from `middle` towards `second`: the index and
/// the point of the neighbour with the smallest key, `second` itself left
/// out, the earliest neighbour winning a tie. `keys[k]` is the key of the
/// angular difference between neighbour `k` and the second vertex.
pub fn first_step(middle: Point, second: Point, keys: &[u64; 8]) -> (step: (usize, Point))
    requires
        has_neighbours(middle),
    ensures
        is_first_step(middle@, second@, keys@, step.0 as int),
        step.1@ == neighbour_of(middle@, step.0 as int),
{
    let zeroth = neighbour(middle, 0);
    let mut best: usize = if zeroth.x == second.x && zeroth.y == second.y {
        1
    } else {
        0
    };
    let mut k: usize = best + 1;
    while k < 8
        invariant
            0 <= best < k <= 8,
            has_neighbours(middle),
            neighbour_of(middle@, best as int) != second@,
            forall|j: int|
                0 <= j < k && #[trigger] neighbour_of(middle@, j) != second@ ==> keys[best as int]
                    <= keys[j],
            forall|j: int|
                0 <= j < best && #[trigger] neighbour_of(middle@, j) != second@ ==> keys[best as int]
                    < keys[j],
        decreases 8 - k,
    {
        let q = neighbour(middle, k);
        if !(q.x == second.x && q.y == second.y) && keys[k] < keys[best] {
            best = k;
        }
        k = k + 1;
    }
    (best, neighbour(middle, best))
}

} // verus!
