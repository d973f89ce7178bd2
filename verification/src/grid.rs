//! The placement grid: the state of every cell and the ordered list of the
//! placements that filled them.

use vstd::prelude::*;
use vstd::arithmetic::div_mod::lemma_fundamental_div_mod_converse;
use vstd::set_lib::{lemma_int_range, lemma_len_subset, set_int_range};
use crate::color::Color;
use crate::point::{Location, MAX_SIZE};

verus! {

/// The state of one cell. A filled cell never changes again.
#[derive(Clone, Copy, Debug, PartialEq, Eq, Structural)]
pub enum Cell {
    Empty,
    Filled(Color),
}

impl Cell {
    /// The cell holds no colour yet.
    pub fn is_empty(&self) -> (empty: bool)
        ensures
            empty == (*self is Empty),
    {
        match self {
            Cell::Empty => true,
            Cell::Filled(_) => false,
        }
    }
}

/// One successful placement: the colour and the cell that took it.
#[derive(Clone, Copy, Debug, PartialEq, Eq, Structural)]
pub struct Record {
    pub color: Color,
    pub location: Location,
}

/// Some record of the list lies at `loc`.
pub open spec fn recorded_at(placed: Seq<Record>, loc: Location) -> bool {
    exists|i: int| 0 <= i < placed.len() && (#[trigger] placed[i]).location == loc
}

/// The mathematical content of a grid.
pub struct GridView {
    /// The side of the square.
    pub size: nat,
    /// The cells, by first and second index.
    pub cells: Seq<Seq<Cell>>,
    /// The placements, oldest first.
    pub placed: Seq<Record>,
}

impl GridView {
    /// The state of the cell at `loc`.
    pub open spec fn cell(self, loc: Location) -> Cell {
        self.cells[loc.x as int][loc.y as int]
    }

    /// The cells form a square of side `size`.
    pub open spec fn square(self) -> bool {
        &&& self.size <= MAX_SIZE
        &&& self.cells.len() == self.size
        &&& forall|x: int| 0 <= x < self.size ==> (#[trigger] self.cells[x]).len() == self.size
    }

    /// Cells and records tell the same story: every record lies in the grid
    /// on a cell filled with its colour, every filled cell has a record, and
    /// no two records share a cell.
    pub open spec fn consistent(self) -> bool {
        &&& forall|i: int|
            0 <= i < self.placed.len() ==> {
                &&& (#[trigger] self.placed[i]).location.within(self.size as int)
                &&& self.cell(self.placed[i].location) == Cell::Filled(self.placed[i].color)
            }
        &&& forall|loc: Location|
            loc.within(self.size as int) && (#[trigger] self.cell(loc)) is Filled ==> recorded_at(
                self.placed,
                loc,
            )
        &&& forall|i: int, j: int|
            0 <= i < j < self.placed.len() ==> (#[trigger] self.placed[i]).location != (
            #[trigger] self.placed[j]).location
    }

    /// The grid is a square whose cells and records agree.
    pub open spec fn wf(self) -> bool {
        self.square() && self.consistent()
    }

    /// The grid of side `size` in which nothing has been placed.
    pub open spec fn blank(size: nat) -> GridView {
        GridView {
            size,
            cells: Seq::new(size, |x: int| Seq::new(size, |y: int| Cell::Empty)),
            placed: Seq::empty(),
        }
    }

    /// The grid after `color` has been placed at `loc`.
    pub open spec fn place(self, color: Color, loc: Location) -> GridView {
        GridView {
            size: self.size,
            cells: self.cells.update(
                loc.x as int,
                self.cells[loc.x as int].update(loc.y as int, Cell::Filled(color)),
            ),
            placed: self.placed.push(Record { color, location: loc }),
        }
    }

    /// The grid after a placement was tried at `loc`: the cell takes the
    /// colour if it was empty, and nothing changes if it was filled.
    pub open spec fn place_if_empty(self, color: Color, loc: Location) -> GridView {
        if self.cell(loc) is Empty {
            self.place(color, loc)
        } else {
            self
        }
    }

    /// This grid may have come from `earlier` by placements alone: the side
    /// is the same, every cell filled then has kept its colour, and the list
    /// of records has only grown at its end.
    pub open spec fn extends(self, earlier: GridView) -> bool {
        &&& self.size == earlier.size
        &&& earlier.placed.len() <= self.placed.len()
        &&& forall|i: int|
            0 <= i < earlier.placed.len() ==> (#[trigger] self.placed[i]) == earlier.placed[i]
        &&& forall|loc: Location|
            loc.within(self.size as int) && (#[trigger] earlier.cell(loc)) is Filled ==> self.cell(
                loc,
            ) == earlier.cell(loc)
    }
}

/// A blank grid is well formed.
pub proof fn lemma_blank_wf(size: nat)
    requires
        size <= MAX_SIZE,
    ensures
        GridView::blank(size).wf(),
{
    let g = GridView::blank(size);
    assert forall|loc: Location| loc.within(size as int) implies !((#[trigger] g.cell(
        loc,
    )) is Filled) by {
        assert(g.cells[loc.x as int][loc.y as int] == Cell::Empty);
    }
}

/// Consistency is kept by every placement on an empty cell of the grid.
pub proof fn lemma_place_wf(g: GridView, color: Color, loc: Location)
    requires
        g.wf(),
        loc.within(g.size as int),
        g.cell(loc) is Empty,
    ensures
        g.place(color, loc).wf(),
{
    let h = g.place(color, loc);
    let n = g.placed.len() as int;
    assert(h.placed[n] == Record { color, location: loc });
    assert forall|x: int| 0 <= x < h.size implies (#[trigger] h.cells[x]).len() == h.size by {
        assert(g.cells[x].len() == g.size);
    }
    assert forall|i: int| 0 <= i < h.placed.len() implies {
        &&& (#[trigger] h.placed[i]).location.within(h.size as int)
        &&& h.cell(h.placed[i].location) == Cell::Filled(h.placed[i].color)
    } by {
        if i < n {
            assert(h.placed[i] == g.placed[i]);
            let at = g.placed[i].location;
            assert(g.cell(at) is Filled);
            assert(at != loc);
            assert(h.cell(at) == g.cell(at));
        }
    }
    assert forall|at: Location|
        at.within(h.size as int) && (#[trigger] h.cell(at)) is Filled implies recorded_at(
        h.placed,
        at,
    ) by {
        if at == loc {
            assert(h.placed[n].location == at);
        } else {
            assert(h.cell(at) == g.cell(at));
            assert(recorded_at(g.placed, at));
            let i = choose|i: int| 0 <= i < g.placed.len() && (#[trigger] g.placed[i]).location == at;
            assert(h.placed[i].location == at);
        }
    }
    assert forall|i: int, j: int| 0 <= i < j < h.placed.len() implies (#[trigger] h.placed[i]).location
        != (#[trigger] h.placed[j]).location by {
        assert(h.placed[i] == g.placed[i]);
        if j < n {
            assert(h.placed[j] == g.placed[j]);
        } else {
            assert(g.cell(g.placed[i].location) is Filled);
        }
    }
}

/// A placement on an empty cell leaves every filled cell and every earlier
/// record as it was.
pub proof fn lemma_place_extends(g: GridView, color: Color, loc: Location)
    requires
        g.square(),
        loc.within(g.size as int),
        g.cell(loc) is Empty,
    ensures
        g.place(color, loc).extends(g),
        g.place(color, loc).cell(loc) == Cell::Filled(color),
{
    let h = g.place(color, loc);
    assert forall|at: Location|
        at.within(h.size as int) && (#[trigger] g.cell(at)) is Filled implies h.cell(at) == g.cell(
        at,
    ) by {
        assert(at != loc);
    }
}

/// A grid that has not changed extends itself.
pub proof fn lemma_extends_reflexive(g: GridView)
    ensures
        g.extends(g),
{
}

/// Growth by placements is transitive, so what holds from one attempt to the
/// next holds over the whole run.
pub proof fn lemma_extends_transitive(a: GridView, b: GridView, c: GridView)
    requires
        b.extends(a),
        c.extends(b),
    ensures
        c.extends(a),
{
    assert forall|i: int| 0 <= i < a.placed.len() implies (#[trigger] c.placed[i]) == a.placed[i] by {
        assert(b.placed[i] == a.placed[i]);
    }
    assert forall|loc: Location|
        loc.within(c.size as int) && (#[trigger] a.cell(loc)) is Filled implies c.cell(loc)
        == a.cell(loc) by {
        assert(b.cell(loc) == a.cell(loc));
    }
}

/// The number of a cell when the cells are counted row by row.
pub open spec fn cell_number(loc: Location, size: nat) -> int {
    loc.x * size + loc.y
}

/// A well-formed grid holds no more records than it has cells.
pub proof fn lemma_placed_bounded(g: GridView)
    requires
        g.wf(),
    ensures
        g.placed.len() <= g.size * g.size,
{
    let size = g.size;
    let total = (size * size) as int;
    let numbers = Seq::new(g.placed.len(), |i: int| cell_number(g.placed[i].location, size));
    assert forall|i: int, j: int|
        0 <= i < numbers.len() && 0 <= j < numbers.len() && i != j implies numbers[i]
        != numbers[j] by {
        let p = g.placed[i].location;
        let q = g.placed[j].location;
        if numbers[i] == numbers[j] {
            lemma_fundamental_div_mod_converse(numbers[i], size as int, p.x as int, p.y as int);
            lemma_fundamental_div_mod_converse(numbers[j], size as int, q.x as int, q.y as int);
            assert(p == q);
            if i < j {
                assert(g.placed[i].location != g.placed[j].location);
            } else {
                assert(g.placed[j].location != g.placed[i].location);
            }
        }
    }
    assert(total >= 0) by (nonlinear_arith)
        requires
            total == size * size,
    ;
    assert forall|n: int| numbers.to_set().contains(n) implies set_int_range(0, total).contains(
        n,
    ) by {
        let i = choose|i: int| 0 <= i < numbers.len() && numbers[i] == n;
        let p = g.placed[i].location;
        assert(0 <= p.x * size + p.y < size * size) by (nonlinear_arith)
            requires
                0 <= p.x < size,
                0 <= p.y < size,
        ;
    }
    numbers.unique_seq_to_set();
    lemma_int_range(0, total);
    lemma_len_subset(numbers.to_set(), set_int_range(0, total));
}

/// The grid with its record of placements.
pub struct Grid {
    size: usize,
    cells: Vec<Vec<Cell>>,
    placed: Vec<Record>,
}

impl View for Grid {
    type V = GridView;

    closed spec fn view(&self) -> GridView {
        GridView {
            size: self.size as nat,
            cells: Seq::new(self.cells@.len(), |x: int| self.cells@[x]@),
            placed: self.placed@,
        }
    }
}

fn blank_row(size: usize) -> (row: Vec<Cell>)
    ensures
        row@ == Seq::new(size as nat, |y: int| Cell::Empty),
{
    let mut row: Vec<Cell> = Vec::new();
    let mut y: usize = 0;
    while y < size
        invariant
            y <= size,
            row@ == Seq::new(y as nat, |y: int| Cell::Empty),
        decreases size - y,
    {
        row.push(Cell::Empty);
        y = y + 1;
        assert(row@ =~= Seq::new(y as nat, |y: int| Cell::Empty));
    }
    row
}

impl Grid {
    /// A grid of side `size` with every cell empty.
    pub fn new(size: usize) -> (grid: Grid)
        requires
            size <= MAX_SIZE,
        ensures
            grid@ == GridView::blank(size as nat),
            grid@.wf(),
    {
        let mut cells: Vec<Vec<Cell>> = Vec::new();
        let mut x: usize = 0;
        while x < size
            invariant
                x <= size,
                cells@.len() == x,
                forall|i: int|
                    0 <= i < x ==> (#[trigger] cells@[i])@ == Seq::new(
                        size as nat,
                        |y: int| Cell::Empty,
                    ),
            decreases size - x,
        {
            let row = blank_row(size);
            cells.push(row);
            x = x + 1;
        }
        let grid = Grid { size, cells, placed: Vec::new() };
        proof {
            assert(grid@.cells =~= GridView::blank(size as nat).cells);
            assert(grid@.placed =~= GridView::blank(size as nat).placed);
            lemma_blank_wf(size as nat);
        }
        grid
    }

    /// The side of the grid.
    pub fn size(&self) -> (size: usize)
        ensures
            size == self@.size,
    {
        self.size
    }

    /// The state of the cell at `loc`.
    pub fn cell(&self, loc: Location) -> (cell: Cell)
        requires
            self@.square(),
            loc.within(self@.size as int),
        ensures
            cell == self@.cell(loc),
    {
        assert(self@.cells[loc.x as int].len() == self@.size);
        self.cells[loc.x][loc.y]
    }

    /// The placements made so far, oldest first.
    pub fn placed(&self) -> (placed: &Vec<Record>)
        ensures
            placed@ == self@.placed,
    {
        &self.placed
    }

    /// The number of placements made so far.
    pub fn count(&self) -> (count: usize)
        ensures
            count == self@.placed.len(),
    {
        self.placed.len()
    }

    /// Fills the cell at `loc` with `color` if it is empty, and says whether
    /// it did. A filled cell is left as it is.
    pub fn place_if_empty(&mut self, color: Color, loc: Location) -> (placed: bool)
        requires
            old(self)@.wf(),
            loc.within(old(self)@.size as int),
        ensures
            placed == (old(self)@.cell(loc) is Empty),
            final(self)@ == old(self)@.place_if_empty(color, loc),
            final(self)@.wf(),
            final(self)@.extends(old(self)@),
    {
        assert(self@.cells[loc.x as int].len() == self@.size);
        match self.cells[loc.x][loc.y] {
            Cell::Filled(_) => {
                proof {
                    lemma_extends_reflexive(self@);
                }
                false
            },
            Cell::Empty => {
                self.cells[loc.x][loc.y] = Cell::Filled(color);
                self.placed.push(Record { color, location: loc });
                proof {
                    assert(self@.cells =~= old(self)@.place(color, loc).cells);
                    lemma_place_wf(old(self)@, color, loc);
                    lemma_place_extends(old(self)@, color, loc);
                }
                true
            },
        }
    }
}

} // verus!
