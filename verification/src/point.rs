//! Grid locations and free points of the plane.

use vstd::prelude::*;

verus! {

/// The largest side a grid may have. With coordinates below it, every
/// determinant of the circumcentre fits in 64 bits.
pub const MAX_SIZE: usize = 1_048_576;

/// A cell's place in the grid: first and second index.
#[derive(Clone, Copy, Debug, PartialEq, Eq, Structural)]
pub struct Location {
    pub x: usize,
    pub y: usize,
}

/// A point with integer coordinates, not bound to the grid. The circumcentre
/// and the points of a walk may lie outside the grid or have negative
/// coordinates.
#[derive(Clone, Copy, Debug, PartialEq, Eq, Structural)]
pub struct Point {
    pub x: i64,
    pub y: i64,
}

impl Location {
    /// Both coordinates lie in `[0, size)`.
    pub open spec fn within(self, size: int) -> bool {
        self.x < size && self.y < size
    }

    /// The same place as a point of the plane.
    pub fn to_point(self) -> (p: Point)
        requires
            self.within(MAX_SIZE as int),
        ensures
            p@ == self@,
    {
        Point { x: self.x as i64, y: self.y as i64 }
    }
}

/// A point of the plane with unbounded integer coordinates: what a `Point`
/// or a `Location` stands for in contracts.
pub struct Spot {
    pub x: int,
    pub y: int,
}

impl View for Point {
    type V = Spot;

    open spec fn view(&self) -> Spot {
        Spot { x: self.x as int, y: self.y as int }
    }
}

impl View for Location {
    type V = Spot;

    open spec fn view(&self) -> Spot {
        Spot { x: self.x as int, y: self.y as int }
    }
}

/// The squared Euclidean distance between two points.
pub open spec fn distance_squared(p: Spot, q: Spot) -> int {
    (p.x - q.x) * (p.x - q.x) + (p.y - q.y) * (p.y - q.y)
}

/// The larger of the two coordinate gaps between two points. Two points are
/// neighbours in the 8-connected sense when it is 1.
pub open spec fn chebyshev(p: Spot, q: Spot) -> int {
    let dx = if p.x >= q.x {
        p.x - q.x
    } else {
        q.x - p.x
    };
    let dy = if p.y >= q.y {
        p.y - q.y
    } else {
        q.y - p.y
    };
    if dx >= dy {
        dx
    } else {
        dy
    }
}

/// The two points are distinct and touch by a side or a corner.
pub open spec fn adjacent(p: Spot, q: Spot) -> bool {
    chebyshev(p, q) == 1
}

/// The largest gap between two coordinates whose square the library takes.
pub const MAX_GAP: i128 = 0x7fff_ffff_ffff_ffff;

impl Point {
    /// The squared distance from this point to `other`.
    pub fn distance_squared(self, other: Point) -> (d: i128)
        requires
            -MAX_GAP <= self.x - other.x <= MAX_GAP,
            -MAX_GAP <= self.y - other.y <= MAX_GAP,
        ensures
            d == distance_squared(self@, other@),
            0 <= d <= 2 * MAX_GAP * MAX_GAP,
    {
        let dx: i128 = self.x as i128 - other.x as i128;
        let dy: i128 = self.y as i128 - other.y as i128;
        assert(0 <= dx * dx <= MAX_GAP * MAX_GAP) by (nonlinear_arith)
            requires
                -MAX_GAP <= dx <= MAX_GAP,
        ;
        assert(0 <= dy * dy <= MAX_GAP * MAX_GAP) by (nonlinear_arith)
            requires
                -MAX_GAP <= dy <= MAX_GAP,
        ;
        dx * dx + dy * dy
    }
}

} // verus!
