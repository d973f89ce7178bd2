//! The walk along the discretised circle: from the middle vertex, cell by
//! cell towards the second vertex, until an empty cell is met or the budget
//! of steps is spent.

use vstd::prelude::*;
use vstd::arithmetic::div_mod::{lemma_fundamental_div_mod, lemma_fundamental_div_mod_converse};
use crate::circle::center_in_bounds;
use crate::grid::{Grid, GridView};
use crate::point::{adjacent, chebyshev, distance_squared, Location, Point, Spot, MAX_GAP, MAX_SIZE};

verus! {

/// The coordinate of the cell that an unbounded coordinate falls on when the
/// grid repeats in every direction: the remainder in `[0, size)`, also for
/// negative coordinates.
pub open spec fn wrapped(v: int, size: int) -> int {
    v % size
}

/// A wrapped coordinate lies in `[0, size)` and differs from the coordinate
/// it came from by a multiple of `size`.
pub proof fn lemma_wrapped(v: int, size: int)
    requires
        size > 0,
    ensures
        0 <= wrapped(v, size) < size,
        exists|q: int| v == #[trigger] (q * size) + wrapped(v, size),
        0 <= v < size ==> wrapped(v, size) == v,
{
    lemma_fundamental_div_mod(v, size);
    assert(v == (v / size) * size + wrapped(v, size)) by (nonlinear_arith)
        requires
            v == size * (v / size) + v % size,
            wrapped(v, size) == v % size,
    ;
    if 0 <= v < size {
        lemma_fundamental_div_mod_converse(v, size, 0, v);
    }
}

/// The coordinate wrapped into `[0, size)`.
pub fn wrap(v: i64, size: usize) -> (r: usize)
    requires
        size > 0,
    ensures
        r == wrapped(v as int, size as int),
        r < size,
{
    let m: u64 = size as u64;
    if v >= 0 {
        let r = (v as u64) % m;
        proof {
            lemma_fundamental_div_mod(v as int, m as int);
        }
        r as usize
    } else {
        let below: u64 = (-(v + 1)) as u64;
        let r = below % m;
        proof {
            let q = (below / m) as int;
            lemma_fundamental_div_mod(below as int, m as int);
            assert(v == (-q - 1) * m + (m - 1 - r)) by (nonlinear_arith)
                requires
                    below == m * q + r,
                    below == -(v + 1),
            ;
            lemma_fundamental_div_mod_converse(v as int, m as int, -q - 1, (m - 1 - r) as int);
        }
        (m - 1 - r) as usize
    }
}

/// The cell of a grid of side `size` that the point falls on after
/// wraparound in both coordinates.
pub open spec fn cell_under(p: Spot, size: nat) -> Location {
    Location { x: wrapped(p.x, size as int) as usize, y: wrapped(p.y, size as int) as usize }
}

/// The cell under a point of the plane. Whatever the point, the cell lies in
/// the grid.
pub fn locate(p: Point, size: usize) -> (loc: Location)
    requires
        size > 0,
    ensures
        loc == cell_under(p@, size as nat),
        loc.within(size as int),
{
    Location { x: wrap(p.x, size), y: wrap(p.y, size) }
}

/// The `k`-th of the three points that may follow `next` on a walk that came
/// from `cur`. They lie on the far side of `next`: where the last step kept
/// a coordinate, that coordinate may now rise, stay or fall; where it changed
/// both, the walk may go on diagonally or keep either one.
pub open spec fn candidate(cur: Spot, next: Spot, k: int) -> Spot {
    let fx = 2 * next.x - cur.x;
    let fy = 2 * next.y - cur.y;
    if cur.x == next.x {
        Spot { x: next.x + 1 - k, y: fy }
    } else if cur.y == next.y {
        Spot { x: fx, y: next.y + 1 - k }
    } else if k == 0 {
        Spot { x: fx, y: fy }
    } else if k == 1 {
        Spot { x: fx, y: next.y }
    } else {
        Spot { x: next.x, y: fy }
    }
}

/// How far the point is off the circle: the gap between its squared
/// distance from the centre and the squared radius.
pub open spec fn off_circle(center: Spot, radius_squared: int, p: Spot) -> int {
    let d = distance_squared(center, p) - radius_squared;
    if d >= 0 {
        d
    } else {
        -d
    }
}

/// The index of the candidate that stays closest to the circle, the earliest
/// winning a tie.
pub open spec fn choice(center: Spot, radius_squared: int, cur: Spot, next: Spot) -> int {
    let m0 = off_circle(center, radius_squared, candidate(cur, next, 0));
    let m1 = off_circle(center, radius_squared, candidate(cur, next, 1));
    let m2 = off_circle(center, radius_squared, candidate(cur, next, 2));
    if m0 <= m1 && m0 <= m2 {
        0
    } else if m1 <= m2 {
        1
    } else {
        2
    }
}

/// The point that follows `next` on a walk that came from `cur`.
pub open spec fn step_from(center: Spot, radius_squared: int, cur: Spot, next: Spot) -> Spot {
    candidate(cur, next, choice(center, radius_squared, cur, next))
}

/// The chosen candidate is as close to the circle as each of the three.
pub proof fn lemma_step_is_closest(center: Spot, radius_squared: int, cur: Spot, next: Spot, k: int)
    requires
        0 <= k < 3,
    ensures
        off_circle(center, radius_squared, step_from(center, radius_squared, cur, next))
            <= off_circle(center, radius_squared, candidate(cur, next, k)),
{
}

/// A walk never stands still: every candidate is a neighbour of `next`, so
/// two successive points of a walk always differ.
pub proof fn lemma_candidate_adjacent(cur: Spot, next: Spot, k: int)
    requires
        adjacent(cur, next),
        0 <= k < 3,
    ensures
        adjacent(next, candidate(cur, next, k)),
        chebyshev(cur, candidate(cur, next, k)) <= 2,
{
}

/// No walk makes more steps than this.
pub const MAX_BUDGET: u64 = 0x4000_0000_0000_0000;

/// No point of a walk lies further from the origin than this, in either
/// coordinate.
pub const MAX_REACH: i64 = 0x4000_0000_0010_0002;

/// The point lies within `MAX_REACH` of the origin in both coordinates.
pub open spec fn in_reach(p: Point) -> bool {
    &&& -MAX_REACH <= p.x <= MAX_REACH
    &&& -MAX_REACH <= p.y <= MAX_REACH
}

fn off_by(center: Point, radius_squared: i128, p: Point) -> (m: i128)
    requires
        center_in_bounds(center),
        in_reach(p),
        0 <= radius_squared <= 2 * MAX_GAP * MAX_GAP,
    ensures
        m == off_circle(center@, radius_squared as int, p@),
{
    let d = center.distance_squared(p) - radius_squared;
    if d >= 0 {
        d
    } else {
        -d
    }
}

/// The point that follows `next` on a walk around `center` that came from
/// `cur`: of the three candidates the one closest to the circle of the given
/// squared radius.
pub fn step(center: Point, radius_squared: i128, cur: Point, next: Point) -> (after: Point)
    requires
        center_in_bounds(center),
        0 <= radius_squared <= 2 * MAX_GAP * MAX_GAP,
        adjacent(cur@, next@),
        -MAX_REACH < next.x < MAX_REACH,
        -MAX_REACH < next.y < MAX_REACH,
    ensures
        after@ == step_from(center@, radius_squared as int, cur@, next@),
        adjacent(next@, after@),
        in_reach(after),
{
    let fx = next.x + (next.x - cur.x);
    let fy = next.y + (next.y - cur.y);
    let (c0, c1, c2) = if cur.x == next.x {
        (
            Point { x: next.x + 1, y: fy },
            Point { x: next.x, y: fy },
            Point { x: next.x - 1, y: fy },
        )
    } else if cur.y == next.y {
        (
            Point { x: fx, y: next.y + 1 },
            Point { x: fx, y: next.y },
            Point { x: fx, y: next.y - 1 },
        )
    } else {
        (Point { x: fx, y: fy }, Point { x: fx, y: next.y }, Point { x: next.x, y: fy })
    };
    let m0 = off_by(center, radius_squared, c0);
    let m1 = off_by(center, radius_squared, c1);
    let m2 = off_by(center, radius_squared, c2);
    if m0 <= m1 && m0 <= m2 {
        c0
    } else if m1 <= m2 {
        c1
    } else {
        c2
    }
}

/// How a walk ended.
#[derive(Clone, Copy, Debug, PartialEq, Eq, Structural)]
pub struct WalkEnd {
    /// The empty cell that the walk met, if it met one.
    pub found: Option<Location>,
    /// The number of cells that the walk looked at.
    pub steps: u64,
}

impl View for WalkEnd {
    type V = (Option<Location>, nat);

    open spec fn view(&self) -> (Option<Location>, nat) {
        (self.found, self.steps as nat)
    }
}

/// The course of a walk over a grid, around `center` at the given squared
/// radius: it stands on `cur`, looks at the cell under `next`, and if that is
/// filled goes on from `next` to the candidate closest to the circle, for at
/// most `budget` cells. The result is the empty cell it met, if any, and the
/// number of cells it looked at.
pub open spec fn walk_from(
    grid: GridView,
    center: Spot,
    radius_squared: int,
    cur: Spot,
    next: Spot,
    budget: nat,
) -> (Option<Location>, nat)
    decreases budget,
{
    if budget == 0 {
        (None, 0)
    } else {
        let loc = cell_under(next, grid.size);
        if grid.cell(loc) is Empty {
            (Some(loc), 1)
        } else {
            let rest = walk_from(
                grid,
                center,
                radius_squared,
                next,
                step_from(center, radius_squared, cur, next),
                (budget - 1) as nat,
            );
            (rest.0, rest.1 + 1)
        }
    }
}

/// A walk looks at no more cells than its budget allows; it spends the whole
/// budget when it finds nothing; and a cell that it finds lies in the grid
/// and is empty.
pub proof fn lemma_walk_bounded(
    grid: GridView,
    center: Spot,
    radius_squared: int,
    cur: Spot,
    next: Spot,
    budget: nat,
)
    requires
        grid.size > 0,
    ensures
        walk_from(grid, center, radius_squared, cur, next, budget).1 <= budget,
        walk_from(grid, center, radius_squared, cur, next, budget).0 is None ==> walk_from(
            grid,
            center,
            radius_squared,
            cur,
            next,
            budget,
        ).1 == budget,
        walk_from(grid, center, radius_squared, cur, next, budget).0 matches Some(loc) ==> {
            &&& loc.within(grid.size as int)
            &&& grid.cell(loc) is Empty
        },
    decreases budget,
{
    if budget > 0 {
        lemma_wrapped(next.x, grid.size as int);
        lemma_wrapped(next.y, grid.size as int);
        lemma_walk_bounded(
            grid,
            center,
            radius_squared,
            next,
            step_from(center, radius_squared, cur, next),
            (budget - 1) as nat,
        );
    }
}

/// The walk's bounds on its start: the centre is a circumcentre of grid
/// locations, and the start lies no further than `MAX_SIZE` from the origin.
pub open spec fn can_start(center: Point, start: Point) -> bool {
    &&& center_in_bounds(center)
    &&& -MAX_SIZE <= start.x <= MAX_SIZE
    &&& -MAX_SIZE <= start.y <= MAX_SIZE
}

/// Walks the circle around `center` through `start`, first to `first` and
/// then from candidate to candidate, and stops at the first empty cell or
/// after `budget` cells. The grid is only read.
pub fn find_empty(grid: &Grid, center: Point, start: Point, first: Point, budget: u64) -> (end:
    WalkEnd)
    requires
        grid@.square(),
        grid@.size > 0,
        can_start(center, start),
        adjacent(start@, first@),
        budget <= MAX_BUDGET,
    ensures
        end@ == walk_from(
            grid@,
            center@,
            distance_squared(center@, start@),
            start@,
            first@,
            budget as nat,
        ),
        end.steps <= budget,
        end.found is None ==> end.steps == budget,
        end.found matches Some(loc) ==> loc.within(grid@.size as int) && grid@.cell(loc) is Empty,
{
    let size = grid.size();
    let radius_squared = center.distance_squared(start);
    let ghost whole = walk_from(
        grid@,
        center@,
        radius_squared as int,
        start@,
        first@,
        budget as nat,
    );
    proof {
        lemma_walk_bounded(grid@, center@, radius_squared as int, start@, first@, budget as nat);
    }
    let mut cur = start;
    let mut next = first;
    let mut taken: u64 = 0;
    while taken < budget
        invariant
            taken <= budget <= MAX_BUDGET,
            grid@.square(),
            size == grid@.size,
            size > 0,
            can_start(center, start),
            radius_squared == distance_squared(center@, start@),
            0 <= radius_squared <= 2 * MAX_GAP * MAX_GAP,
            adjacent(cur@, next@),
            chebyshev(start@, next@) <= taken + 1,
            whole == walk_from(
                grid@,
                center@,
                radius_squared as int,
                start@,
                first@,
                budget as nat,
            ),
            ({
                let rest = walk_from(
                    grid@,
                    center@,
                    radius_squared as int,
                    cur@,
                    next@,
                    (budget - taken) as nat,
                );
                whole.0 == rest.0 && whole.1 == rest.1 + taken
            }),
        decreases budget - taken,
    {
        let loc = locate(next, size);
        taken = taken + 1;
        if grid.cell(loc).is_empty() {
            return WalkEnd { found: Some(loc), steps: taken };
        }
        let after = step(center, radius_squared, cur, next);
        cur = next;
        next = after;
    }
    WalkEnd { found: None, steps: taken }
}

} // verus!
