//! The controller of a run: it counts attempts and misses, decides between
//! seeding and growth, and ends the run when too many attempts in a row have
//! failed.
//!
//! An attempt that needs a walk is made in two calls. `advance` draws the
//! colour and the sample, finds the circle and keeps it as the run's plan;
//! the caller works out the heading, the first step and the budget from it;
//! `walk` then walks that plan's circle and places that plan's colour. Until
//! `walk` has placed the colour the attempt counts as a miss.

use vstd::prelude::*;
use rand::rngs::StdRng;
use crate::circle::{
    center_in_bounds, center_x, center_y, circumcenter, collinear,
};
use crate::color::Color;
use crate::grid::{
    lemma_extends_reflexive, lemma_place_extends, lemma_place_wf, lemma_placed_bounded, Grid,
    GridView, Record,
};
use crate::point::{adjacent, distance_squared, Location, Point, Spot, MAX_SIZE};
use crate::random::{draw_below, draw_color, draw_sample, drawn_at, is_sample_of, seeded};
use crate::ranking::{nearest_three, rank_nearest};
use crate::vertices::Vertex;
use crate::walk::{find_empty, walk_from, WalkEnd, MAX_BUDGET};

verus! {

/// The circle of a growth attempt: the colour to be placed, the three
/// vertices in the order of their nearness in colour, and the circumcentre.
#[derive(Clone, Copy, Debug, PartialEq, Eq, Structural)]
pub struct Plan {
    pub color: Color,
    pub a: Point,
    pub b: Point,
    pub c: Point,
    pub center: Point,
}

impl Plan {
    /// A walk can start from each vertex of the plan: the centre is within
    /// the bounds of a circumcentre and the vertices are grid locations.
    pub open spec fn walkable(self) -> bool {
        &&& center_in_bounds(self.center)
        &&& forall|v: Vertex|
            0 <= (#[trigger] self.vertex_of(v)).x < MAX_SIZE && 0 <= self.vertex_of(v).y < MAX_SIZE
    }

    /// The point of one of the three vertices.
    pub open spec fn vertex_of(self, v: Vertex) -> Point {
        match v {
            Vertex::A => self.a,
            Vertex::B => self.b,
            Vertex::C => self.c,
        }
    }

    /// The point of one of the three vertices.
    pub fn vertex(&self, v: Vertex) -> (p: Point)
        ensures
            p == self.vertex_of(v),
    {
        match v {
            Vertex::A => self.a,
            Vertex::B => self.b,
            Vertex::C => self.c,
        }
    }
}

/// What one call of the controller did.
#[derive(Clone, Copy, Debug, PartialEq, Eq, Structural)]
pub enum Step {
    /// The miss counter had reached the timeout: no attempt was made.
    Finished,
    /// A seeding attempt filled an empty cell.
    Seeded(Record),
    /// A seeding attempt fell on a filled cell: a miss.
    Collision(Record),
    /// A growth attempt had fewer than three samples to rank: a miss.
    Starved,
    /// The three nearest samples of a growth attempt lie on one line: a miss.
    Collinear,
    /// The circumcentre of a growth attempt falls on one of its vertices, from
    /// where no bearing is defined: a miss.
    Coincident,
    /// A growth attempt found its circle and goes on with a walk.
    Circle(Plan),
}

/// The computed circumcentre falls on one of the three locations.
pub open spec fn on_vertex(a: Location, b: Location, c: Location) -> bool {
    let u = Spot { x: center_x(a, b, c), y: center_y(a, b, c) };
    u == a@ || u == b@ || u == c@
}

/// `step` is what a growth attempt with colour `color` comes to when its
/// three nearest samples lie at `a`, `b` and `c`.
pub open spec fn circle_step(step: Step, color: Color, a: Location, b: Location, c: Location) -> bool {
    if collinear(a, b, c) {
        step == Step::Collinear
    } else if on_vertex(a, b, c) {
        step == Step::Coincident
    } else {
        &&& step matches Step::Circle(plan)
        &&& plan.color == color
        &&& plan.a@ == a@
        &&& plan.b@ == b@
        &&& plan.c@ == c@
        &&& plan.center@ == Spot { x: center_x(a, b, c), y: center_y(a, b, c) }
        &&& center_in_bounds(plan.center)
    }
}

/// `step` is what a growth attempt with colour `color` comes to on the sample
/// `samples`.
pub open spec fn growth_step(step: Step, color: Color, samples: Seq<Record>) -> bool {
    if samples.len() < 3 {
        step == Step::Starved
    } else {
        exists|i: int, j: int, k: int|
            #[trigger] nearest_three(samples, color, i, j, k) && circle_step(
                step,
                color,
                samples[i].location,
                samples[j].location,
                samples[k].location,
            )
    }
}

/// `step` is what a growth attempt comes to when it draws `color` and
/// `samples` from the records `placed`.
pub open spec fn drawn_growth(
    step: Step,
    placed: Seq<Record>,
    amount: nat,
    color: Color,
    samples: Seq<Record>,
) -> bool {
    is_sample_of(samples, placed, amount) && growth_step(step, color, samples)
}

/// The circle through three locations for a growth attempt with colour
/// `color`, or the reason why there is none.
pub fn plan_circle(color: Color, a: Location, b: Location, c: Location) -> (step: Step)
    requires
        a.within(MAX_SIZE as int),
        b.within(MAX_SIZE as int),
        c.within(MAX_SIZE as int),
    ensures
        circle_step(step, color, a, b, c),
        step matches Step::Circle(plan) ==> plan.walkable(),
{
    match circumcenter(a, b, c) {
        None => Step::Collinear,
        Some(center) => {
            let pa = a.to_point();
            let pb = b.to_point();
            let pc = c.to_point();
            if (center.x == pa.x && center.y == pa.y) || (center.x == pb.x && center.y == pb.y) || (
            center.x == pc.x && center.y == pc.y) {
                Step::Coincident
            } else {
                Step::Circle(Plan { color, a: pa, b: pb, c: pc, center })
            }
        },
    }
}

/// The mathematical content of a run: the grid, the parameters and the
/// counters.
pub struct RunView {
    pub grid: GridView,
    /// How many records a growth attempt samples.
    pub num_samples: nat,
    /// How many attempts at the start are seeding attempts.
    pub num_seeds: nat,
    /// How many misses in a row end the run.
    pub timeout: nat,
    /// The misses since the last placement.
    pub misses: nat,
    /// The longest row of misses so far.
    pub max_misses: nat,
    /// The attempts made so far.
    pub attempts: nat,
    /// The circle of the growth attempt under way, while its walk is still
    /// to be made.
    pub plan: Option<Plan>,
}

impl RunView {
    /// A run before its first attempt.
    pub open spec fn start(size: nat, num_samples: nat, num_seeds: nat, timeout: nat) -> RunView {
        RunView {
            grid: GridView::blank(size),
            num_samples,
            num_seeds,
            timeout,
            misses: 0,
            max_misses: 0,
            attempts: 0,
            plan: None,
        }
    }

    /// The number of cells of the grid.
    pub open spec fn area(self) -> nat {
        self.grid.size * self.grid.size
    }

    /// The state is one that a run can reach: the grid is well formed and
    /// not empty of cells, the misses in a row have not passed the timeout
    /// nor their own maximum, every miss and every placement was an attempt,
    /// and no more attempts were made than the placements and the misses
    /// since account for.
    pub open spec fn wf(self) -> bool {
        &&& self.grid.wf()
        &&& self.grid.size > 0
        &&& self.area() <= u32::MAX
        &&& self.misses <= self.timeout
        &&& self.misses <= self.max_misses
        &&& self.max_misses <= self.attempts
        &&& self.attempts <= self.grid.placed.len() * self.timeout + self.misses
        &&& (self.area() + 1) * self.timeout <= u64::MAX
        &&& self.plan matches Some(plan) ==> plan.walkable()
    }

    /// The miss counter has reached the timeout: the run is over.
    pub open spec fn finished(self) -> bool {
        self.misses >= self.timeout
    }

    /// The next attempt is a seeding attempt. The phase goes by the attempts
    /// made, not by the placements: seeding may place fewer than `num_seeds`
    /// colours.
    pub open spec fn seeding(self) -> bool {
        self.attempts < self.num_seeds
    }

    /// The state after an attempt has begun: it is counted, and counted as a
    /// miss until it places a colour. A plan that was never walked is
    /// dropped.
    pub open spec fn counted(self) -> RunView {
        RunView {
            misses: self.misses + 1,
            max_misses: if self.max_misses >= self.misses + 1 {
                self.max_misses
            } else {
                self.misses + 1
            },
            attempts: self.attempts + 1,
            plan: None,
            ..self
        }
    }

    /// The state after a growth attempt has come to `step`: a circle that
    /// was found is kept as the plan.
    pub open spec fn planned(self, step: Step) -> RunView {
        RunView {
            plan: match step {
                Step::Circle(plan) => Some(plan),
                _ => None,
            },
            ..self
        }
    }

    /// The state after `color` has been placed at `loc`: the row of misses
    /// ends.
    pub open spec fn placed(self, color: Color, loc: Location) -> RunView {
        RunView { grid: self.grid.place(color, loc), misses: 0, ..self }
    }

    /// The state after a seeding attempt that drew `color` and `loc`.
    pub open spec fn seed(self, color: Color, loc: Location) -> RunView {
        if self.grid.cell(loc) is Empty {
            self.counted().placed(color, loc)
        } else {
            self.counted()
        }
    }

    /// The state after the walk of the plan has ended with `found`: the
    /// cell that was found takes the plan's colour, and the plan is spent.
    pub open spec fn walked(self, found: Option<Location>) -> RunView {
        match (self.plan, found) {
            (Some(plan), Some(loc)) => RunView { plan: None, ..self.placed(plan.color, loc) },
            _ => RunView { plan: None, ..self },
        }
    }

    /// A bound on the attempts that the run can still make: each empty cell
    /// may be preceded by a full row of misses, and the current row may be
    /// completed.
    pub open spec fn remaining(self) -> int {
        (self.area() - self.grid.placed.len()) * self.timeout + (self.timeout - self.misses)
    }
}

/// The record that a seeding attempt reports: what it drew.
pub open spec fn seed_drawn(step: Step) -> Option<Record> {
    match step {
        Step::Seeded(r) => Some(r),
        Step::Collision(r) => Some(r),
        _ => None,
    }
}

/// What a seeding attempt reports for the draw `color` and `loc`.
pub open spec fn seed_step(grid: GridView, color: Color, loc: Location) -> Step {
    if grid.cell(loc) is Empty {
        Step::Seeded(Record { color, location: loc })
    } else {
        Step::Collision(Record { color, location: loc })
    }
}

/// While the run is not over, beginning an attempt raises the attempts
/// counter by one, keeps the state well formed, and lowers the bound on the
/// attempts that remain by one.
pub proof fn lemma_counted(s: RunView)
    requires
        s.wf(),
        !s.finished(),
    ensures
        s.counted().wf(),
        s.counted().attempts == s.attempts + 1,
        s.counted().remaining() == s.remaining() - 1,
        s.counted().attempts <= u64::MAX,
        s.counted().grid == s.grid,
{
    lemma_attempts_bounded(s);
}

/// A placement on an empty cell keeps the state well formed, leaves every
/// filled cell as it was, and does not raise the bound on the attempts that
/// remain.
pub proof fn lemma_placed(s: RunView, color: Color, loc: Location)
    requires
        s.wf(),
        loc.within(s.grid.size as int),
        s.grid.cell(loc) is Empty,
    ensures
        s.placed(color, loc).wf(),
        s.placed(color, loc).remaining() <= s.remaining(),
        s.placed(color, loc).attempts == s.attempts,
        s.placed(color, loc).grid.extends(s.grid),
{
    let t = s.placed(color, loc);
    lemma_place_wf(s.grid, color, loc);
    lemma_place_extends(s.grid, color, loc);
    let n = s.grid.placed.len() as int;
    let w = s.timeout as int;
    assert(t.grid.placed.len() == n + 1);
    assert((n + 1) * w == n * w + w) by (nonlinear_arith);
    let area = s.area() as int;
    assert((area - (n + 1)) * w + w == (area - n) * w) by (nonlinear_arith);
}

/// Every run ends. In every state that a run can reach, the attempts made
/// and the attempts that may remain are together no more than the timeout
/// times the number of cells and one, and the run is over exactly when the
/// misses in a row equal the timeout. A run that is over has made at least
/// as many attempts as the timeout, for its last row of misses.
pub proof fn lemma_attempts_bounded(s: RunView)
    requires
        s.wf(),
    ensures
        s.remaining() >= s.timeout - s.misses >= 0,
        s.attempts + s.remaining() <= (s.area() + 1) * s.timeout,
        s.finished() <==> s.misses == s.timeout,
        s.finished() ==> s.timeout <= s.attempts <= (s.area() + 1) * s.timeout,
{
    lemma_placed_bounded(s.grid);
    let n = s.grid.placed.len() as int;
    let w = s.timeout as int;
    let area = s.area() as int;
    assert((area - n) * w >= 0 && (area - n) * w + n * w + w == (area + 1) * w) by (nonlinear_arith)
        requires
            0 <= n <= area,
            w >= 0,
    ;
}

/// A run: the grid, the generator, the parameters and the counters.
pub struct Run {
    grid: Grid,
    rng: StdRng,
    num_samples: usize,
    num_seeds: usize,
    timeout: u64,
    misses: u64,
    max_misses: u64,
    attempts: u64,
    plan: Option<Plan>,
}

impl View for Run {
    type V = RunView;

    closed spec fn view(&self) -> RunView {
        RunView {
            grid: self.grid@,
            num_samples: self.num_samples as nat,
            num_seeds: self.num_seeds as nat,
            timeout: self.timeout as nat,
            misses: self.misses as nat,
            max_misses: self.max_misses as nat,
            attempts: self.attempts as nat,
            plan: self.plan,
        }
    }
}

/// The parameters are within what a run can count: the side is positive and
/// at most `MAX_SIZE`, the number of cells fits in 32 bits, as the sampling
/// of records asks, and the attempts of the longest possible run fit in 64
/// bits.
pub open spec fn supported(size: nat, timeout: nat) -> bool {
    &&& 0 < size <= MAX_SIZE
    &&& size * size <= u32::MAX
    &&& (size * size + 1) * timeout <= u64::MAX
}

impl Run {
    /// Whether a run can be made with this side and this timeout.
    pub fn supports(size: usize, timeout: u64) -> (ok: bool)
        ensures
            ok == supported(size as nat, timeout as nat),
    {
        if size == 0 || size > MAX_SIZE {
            return false;
        }
        let side: u128 = size as u128;
        assert(side * side + 1 <= 0x100_0000_0001) by (nonlinear_arith)
            requires
                side <= 0x10_0000,
        ;
        if side * side > 0xffff_ffff {
            return false;
        }
        let cells: u128 = side * side + 1;
        assert(cells * timeout <= 0x100_0000_0001 * 0xffff_ffff_ffff_ffff) by (nonlinear_arith)
            requires
                cells <= 0x100_0000_0001,
                timeout <= 0xffff_ffff_ffff_ffff,
        ;
        cells * (timeout as u128) <= 0xffff_ffff_ffff_ffff
    }

    /// A run on an empty grid of side `size`, with a generator seeded by
    /// `seed`.
    pub fn new(size: usize, num_samples: usize, num_seeds: usize, timeout: u64, seed: u64) -> (run:
        Run)
        requires
            supported(size as nat, timeout as nat),
        ensures
            run@ == RunView::start(
                size as nat,
                num_samples as nat,
                num_seeds as nat,
                timeout as nat,
            ),
            run@.wf(),
    {
        let grid = Grid::new(size);
        let rng = seeded(seed);
        Run {
            grid,
            rng,
            num_samples,
            num_seeds,
            timeout,
            misses: 0,
            max_misses: 0,
            attempts: 0,
            plan: None,
        }
    }

    /// The grid as it stands.
    pub fn grid(&self) -> (grid: &Grid)
        ensures
            grid@ == self@.grid,
    {
        &self.grid
    }

    /// The misses since the last placement.
    pub fn misses(&self) -> (n: u64)
        ensures
            n == self@.misses,
    {
        self.misses
    }

    /// The longest row of misses so far.
    pub fn max_misses(&self) -> (n: u64)
        ensures
            n == self@.max_misses,
    {
        self.max_misses
    }

    /// The attempts made so far.
    pub fn attempts(&self) -> (n: u64)
        ensures
            n == self@.attempts,
    {
        self.attempts
    }

    /// The circle of the growth attempt under way, if its walk is still to be
    /// made.
    pub fn plan(&self) -> (plan: Option<Plan>)
        ensures
            plan == self@.plan,
    {
        self.plan
    }

    /// Whether the miss counter has reached the timeout.
    pub fn is_finished(&self) -> (done: bool)
        ensures
            done == self@.finished(),
    {
        self.misses >= self.timeout
    }

    /// Whether the next attempt is a seeding attempt.
    pub fn is_seeding(&self) -> (seeding: bool)
        ensures
            seeding == self@.seeding(),
    {
        self.attempts < self.num_seeds as u64
    }

    /// Counts the attempt that begins, as a miss for now.
    fn count(&mut self)
        requires
            old(self)@.wf(),
            !old(self)@.finished(),
        ensures
            final(self)@ == old(self)@.counted(),
            final(self)@.wf(),
    {
        proof {
            lemma_counted(self@);
        }
        self.attempts = self.attempts + 1;
        self.plan = None;
        self.misses = self.misses + 1;
        if self.misses > self.max_misses {
            self.max_misses = self.misses;
        }
    }

    /// One seeding attempt with the colour and the location given: the cell
    /// takes the colour if it is empty, and the attempt is a miss if not.
    pub fn seed_with(&mut self, color: Color, loc: Location) -> (step: Step)
        requires
            old(self)@.wf(),
            !old(self)@.finished(),
            loc.within(old(self)@.grid.size as int),
        ensures
            final(self)@ == old(self)@.seed(color, loc),
            step == seed_step(old(self)@.grid, color, loc),
            final(self)@.wf(),
            final(self)@.grid.extends(old(self)@.grid),
            final(self)@.attempts == old(self)@.attempts + 1,
            final(self)@.remaining() < old(self)@.remaining(),
    {
        self.count();
        proof {
            lemma_counted(old(self)@);
            lemma_extends_reflexive(old(self)@.grid);
        }
        let record = Record { color, location: loc };
        if self.grid.place_if_empty(color, loc) {
            self.misses = 0;
            proof {
                lemma_placed(old(self)@.counted(), color, loc);
            }
            Step::Seeded(record)
        } else {
            Step::Collision(record)
        }
    }

    /// One growth attempt with the colour and the sample given, up to the
    /// circle: the three samples nearest in colour are ranked and their
    /// circumcentre is found. A circle that is found becomes the run's plan.
    /// The attempt is counted as a miss; a walk that places the colour makes
    /// it a success.
    pub fn grow_with(&mut self, color: Color, samples: &Vec<Record>) -> (step: Step)
        requires
            old(self)@.wf(),
            !old(self)@.finished(),
            forall|i: int|
                0 <= i < samples@.len() ==> (#[trigger] samples@[i]).location.within(
                    old(self)@.grid.size as int,
                ),
        ensures
            final(self)@ == old(self)@.counted().planned(step),
            growth_step(step, color, samples@),
            step matches Step::Circle(plan) ==> plan.walkable(),
            final(self)@.wf(),
            final(self)@.grid.extends(old(self)@.grid),
            final(self)@.attempts == old(self)@.attempts + 1,
            final(self)@.remaining() < old(self)@.remaining(),
    {
        self.count();
        proof {
            lemma_counted(old(self)@);
            lemma_extends_reflexive(old(self)@.grid);
        }
        let step = match rank_nearest(color, samples) {
            None => Step::Starved,
            Some((i, j, k)) => {
                assert(nearest_three(samples@, color, i as int, j as int, k as int));
                plan_circle(color, samples[i].location, samples[j].location, samples[k].location)
            },
        };
        if let Step::Circle(plan) = step {
            self.plan = Some(plan);
        }
        step
    }

    /// The next attempt of the run, with colour, location and sample drawn
    /// from the run's generator: a seeding attempt while fewer than
    /// `num_seeds` attempts were made, a growth attempt after that. Where the
    /// miss counter has reached the timeout, nothing is drawn and nothing
    /// changes.
    pub fn advance(&mut self) -> (step: Step)
        requires
            old(self)@.wf(),
        ensures
            final(self)@.wf(),
            final(self)@.grid.extends(old(self)@.grid),
            old(self)@.finished() ==> step == Step::Finished && final(self)@ == old(self)@,
            step matches Step::Circle(plan) ==> plan.walkable(),
            !old(self)@.finished() ==> {
                &&& final(self)@.attempts == old(self)@.attempts + 1
                &&& final(self)@.remaining() < old(self)@.remaining()
            },
            !old(self)@.finished() && old(self)@.seeding() ==> {
                &&& seed_drawn(step) matches Some(r)
                &&& r.location.within(old(self)@.grid.size as int)
                &&& step == seed_step(old(self)@.grid, r.color, r.location)
                &&& final(self)@ == old(self)@.seed(r.color, r.location)
            },
            !old(self)@.finished() && !old(self)@.seeding() ==> {
                &&& final(self)@ == old(self)@.counted().planned(step)
                &&& exists|color: Color, samples: Seq<Record>| #[trigger]
                    drawn_growth(
                        step,
                        old(self)@.grid.placed,
                        old(self)@.num_samples,
                        color,
                        samples,
                    )
            },
    {
        if self.misses >= self.timeout {
            proof {
                lemma_extends_reflexive(self@.grid);
            }
            return Step::Finished;
        }
        let color = draw_color(&mut self.rng);
        if self.attempts < self.num_seeds as u64 {
            let size = self.grid.size();
            let x = draw_below(&mut self.rng, size);
            let y = draw_below(&mut self.rng, size);
            self.seed_with(color, Location { x, y })
        } else {
            proof {
                lemma_placed_bounded(self@.grid);
            }
            let samples = draw_sample(&mut self.rng, self.grid.placed(), self.num_samples);
            proof {
                let picks = choose|picks: Seq<int>|
                    #[trigger] drawn_at(samples@, self@.grid.placed, picks);
                assert forall|i: int| 0 <= i < samples@.len() implies (#[trigger] samples@[i]).location.within(
                    self@.grid.size as int) by {
                    assert(samples@[i] == self@.grid.placed[picks[i]]);
                }
            }
            let step = self.grow_with(color, &samples);
            assert(drawn_growth(
                step,
                old(self)@.grid.placed,
                old(self)@.num_samples,
                color,
                samples@,
            ));
            step
        }
    }

    /// The walk of the growth attempt under way: around the centre of the
    /// run's plan, from the vertex `middle` of that plan first to `first`, for
    /// at most `budget` cells. The first empty cell that the walk meets takes
    /// the plan's colour, and the row of misses ends; a walk that meets none
    /// changes the grid and the counters in nothing. Either way the plan is
    /// spent. Where the run has no plan, no walk is made and nothing changes.
    pub fn walk(&mut self, middle: Vertex, first: Point, budget: u64) -> (end: Option<WalkEnd>)
        requires
            old(self)@.wf(),
            old(self)@.plan matches Some(plan) ==> adjacent(plan.vertex_of(middle)@, first@),
            budget <= MAX_BUDGET,
        ensures
            end is None <==> old(self)@.plan is None,
            old(self)@.plan is None ==> final(self)@ == old(self)@,
            (old(self)@.plan, end) matches (Some(plan), Some(e)) ==> {
                &&& e@ == walk_from(
                    old(self)@.grid,
                    plan.center@,
                    distance_squared(plan.center@, plan.vertex_of(middle)@),
                    plan.vertex_of(middle)@,
                    first@,
                    budget as nat,
                )
                &&& e.steps <= budget
                &&& final(self)@ == old(self)@.walked(e.found)
            },
            final(self)@.wf(),
            final(self)@.grid.extends(old(self)@.grid),
            final(self)@.attempts == old(self)@.attempts,
            final(self)@.remaining() <= old(self)@.remaining(),
    {
        let plan = match self.plan {
            None => {
                proof {
                    lemma_extends_reflexive(self@.grid);
                }
                return None;
            },
            Some(plan) => plan,
        };
        let start = plan.vertex(middle);
        let end = find_empty(&self.grid, plan.center, start, first, budget);
        self.plan = None;
        match end.found {
            Some(loc) => {
                proof {
                    lemma_placed(old(self)@, plan.color, loc);
                }
                let placed = self.grid.place_if_empty(plan.color, loc);
                self.misses = 0;
            },
            None => {
                proof {
                    lemma_extends_reflexive(self@.grid);
                }
            },
        }
        Some(end)
    }
}

} // verus!
