//! The mathematical model of a generation: a rectangle of cells whose edges
//! are glued together, and the rule that takes it to the next generation.

use vstd::prelude::*;
use vstd::arithmetic::div_mod::lemma_fundamental_div_mod_converse;
use crate::cell::{flipped, next_state, weight, Cell};

verus! {

/// A generation of the automaton: `height` rows of `width` cells each,
/// stored row after row.
#[verifier::ext_equal]
pub struct Grid {
    pub width: nat,
    pub height: nat,
    pub cells: Seq<Cell>,
}

/// The coordinate `x` brought back into `0..n` on a ring of `n` places.
pub open spec fn wrap(x: int, n: int) -> int {
    x % n
}

/// The place before `x` on a ring of `n` places.
pub open spec fn pred(x: int, n: int) -> int {
    wrap(x - 1, n)
}

/// The place after `x` on a ring of `n` places.
pub open spec fn succ(x: int, n: int) -> int {
    wrap(x + 1, n)
}

/// The seed of a fresh universe: the cell at `index` starts alive when the
/// index is even or a multiple of seven.
pub open spec fn seed(index: int) -> Cell {
    if index % 2 == 0 || index % 7 == 0 {
        Cell::Alive
    } else {
        Cell::Dead
    }
}

impl Grid {
    /// Both sides are positive and there is one cell for each position.
    pub open spec fn wf(self) -> bool {
        &&& self.width > 0
        &&& self.height > 0
        &&& self.cells.len() == self.width * self.height
    }

    /// `(row, col)` names a position of the grid.
    pub open spec fn contains(self, row: int, col: int) -> bool {
        0 <= row < self.height && 0 <= col < self.width
    }

    /// Where the cell at `(row, col)` stands in `cells`.
    pub open spec fn index(self, row: int, col: int) -> int {
        row * self.width + col
    }

    /// The cell at `(row, col)`.
    pub open spec fn cell(self, row: int, col: int) -> Cell {
        self.cells[self.index(row, col)]
    }

    /// The cell at `(row, col)` on the torus: a row above the first is the
    /// last, a column right of the last is the first.
    pub open spec fn torus(self, row: int, col: int) -> Cell {
        self.cell(wrap(row, self.height as int), wrap(col, self.width as int))
    }

    /// How many of the eight cells around `(row, col)` are alive. A cell
    /// that is a neighbour in several directions counts once for each.
    pub open spec fn live_neighbors(self, row: int, col: int) -> int {
        weight(self.torus(row - 1, col - 1)) + weight(self.torus(row - 1, col))
            + weight(self.torus(row - 1, col + 1)) + weight(self.torus(row, col - 1))
            + weight(self.torus(row, col + 1)) + weight(self.torus(row + 1, col - 1))
            + weight(self.torus(row + 1, col)) + weight(self.torus(row + 1, col + 1))
    }

    /// The state of the cell at `(row, col)` one generation on.
    pub open spec fn next_cell(self, row: int, col: int) -> Cell {
        next_state(self.cell(row, col), self.live_neighbors(row, col))
    }

    /// The next generation: every cell decided from this generation alone.
    pub open spec fn step(self) -> Grid {
        Grid {
            width: self.width,
            height: self.height,
            cells: Seq::new(
                self.cells.len(),
                |i: int| self.next_cell(i / (self.width as int), i % (self.width as int)),
            ),
        }
    }

    /// The generation reached after `n` steps.
    pub open spec fn steps(self, n: nat) -> Grid
        decreases n,
    {
        if n == 0 {
            self
        } else {
            self.step().steps((n - 1) as nat)
        }
    }

    /// The grid of the given size with every cell set by `seed`.
    pub open spec fn seeded(width: nat, height: nat) -> Grid {
        Grid { width, height, cells: Seq::new(width * height, |i: int| seed(i)) }
    }

    /// The grid of the given size with every cell dead.
    pub open spec fn dead(width: nat, height: nat) -> Grid {
        Grid { width, height, cells: Seq::new(width * height, |i: int| Cell::Dead) }
    }

    /// This grid with the cell at `(row, col)` flipped.
    pub open spec fn toggled(self, row: int, col: int) -> Grid {
        Grid {
            width: self.width,
            height: self.height,
            cells: self.cells.update(self.index(row, col), flipped(self.cell(row, col))),
        }
    }

    /// One of the first `n` of `positions` names the cell that stands at
    /// `i` in `cells`.
    pub open spec fn marked_by_first(self, positions: Seq<(u32, u32)>, n: int, i: int) -> bool {
        exists|k: int|
            0 <= k < n && #[trigger] self.index(positions[k].0 as int, positions[k].1 as int)
                == i
    }

    /// One of `positions` names the cell that stands at `i` in `cells`.
    pub open spec fn marked_by(self, positions: Seq<(u32, u32)>, i: int) -> bool {
        self.marked_by_first(positions, positions.len() as int, i)
    }

    /// This grid with the cell at each of `positions` alive and every other
    /// cell as it is.
    pub open spec fn with_alive(self, positions: Seq<(u32, u32)>) -> Grid {
        Grid {
            width: self.width,
            height: self.height,
            cells: Seq::new(
                self.cells.len(),
                |i: int|
                    if self.marked_by(positions, i) {
                        Cell::Alive
                    } else {
                        self.cells[i]
                    },
            ),
        }
    }
}

/// On a ring of `n` places, the place before the first is the last and the
/// place after the last is the first; a place of the ring is itself.
pub proof fn lemma_wrap(x: int, n: int)
    requires
        0 <= x < n,
    ensures
        wrap(x, n) == x,
        pred(x, n) == (if x == 0 { n - 1 } else { x - 1 }),
        succ(x, n) == (if x == n - 1 { 0 } else { x + 1 }),
{
    lemma_fundamental_div_mod_converse(x, n, 0, x);
    if x == 0 {
        lemma_fundamental_div_mod_converse(x - 1, n, -1, n - 1);
    } else {
        lemma_fundamental_div_mod_converse(x - 1, n, 0, x - 1);
    }
    if x == n - 1 {
        lemma_fundamental_div_mod_converse(x + 1, n, 1, 0);
    } else {
        lemma_fundamental_div_mod_converse(x + 1, n, 0, x + 1);
    }
}

/// A position of the grid has a place in `cells`, and the place gives the
/// position back.
pub proof fn lemma_index(width: int, height: int, row: int, col: int)
    requires
        0 <= row < height,
        0 <= col < width,
    ensures
        0 <= row * width + col < width * height,
        (row * width + col) / width == row,
        (row * width + col) % width == col,
{
    assert(0 <= row * width && row * width + width <= width * height) by (nonlinear_arith)
        requires
            0 <= row < height,
            0 < width,
    ;
    lemma_fundamental_div_mod_converse(row * width + col, width, row, col);
}

/// A place in `cells` belongs to exactly one position of the grid.
pub proof fn lemma_position(width: int, height: int, i: int)
    requires
        0 < width,
        0 <= i < width * height,
    ensures
        0 <= i / width < height,
        0 <= i % width < width,
        (i / width) * width + i % width == i,
{
    let q = i / width;
    let r = i % width;
    assert(i == q * width + r && 0 <= r < width) by (nonlinear_arith)
        requires
            q == i / width,
            r == i % width,
            0 < width,
    ;
    assert(0 <= q < height) by (nonlinear_arith)
        requires
            0 <= r < width,
            0 <= q * width + r < width * height,
            0 < width,
    ;
}

/// The eight neighbours of a position are the cells one place before and
/// after it along each ring, so the count at the first corner takes in the
/// last row and the last column.
pub proof fn lemma_neighbors(g: Grid, row: int, col: int)
    requires
        g.wf(),
        g.contains(row, col),
    ensures
        ({
            let north = pred(row, g.height as int);
            let south = succ(row, g.height as int);
            let west = pred(col, g.width as int);
            let east = succ(col, g.width as int);
            &&& 0 <= north < g.height
            &&& 0 <= south < g.height
            &&& 0 <= west < g.width
            &&& 0 <= east < g.width
            &&& g.live_neighbors(row, col) == weight(g.cell(north, west)) + weight(
                g.cell(north, col),
            ) + weight(g.cell(north, east)) + weight(g.cell(row, west)) + weight(
                g.cell(row, east),
            ) + weight(g.cell(south, west)) + weight(g.cell(south, col)) + weight(
                g.cell(south, east),
            )
            &&& 0 <= g.live_neighbors(row, col) <= 8
        }),
{
    lemma_wrap(row, g.height as int);
    lemma_wrap(col, g.width as int);
}

/// The edges are glued together: the neighbour up and to the left of the
/// first corner is the last corner, and the count at the first corner
/// takes that cell in.
pub proof fn lemma_corner_wraps(g: Grid)
    requires
        g.wf(),
    ensures
        g.torus(-1, -1) == g.cell(g.height - 1, g.width - 1),
        g.live_neighbors(0, 0) >= weight(g.cell(g.height - 1, g.width - 1)),
        g.cell(g.height - 1, g.width - 1) == Cell::Alive ==> g.live_neighbors(0, 0) >= 1,
{
    lemma_wrap(0, g.height as int);
    lemma_wrap(0, g.width as int);
    lemma_neighbors(g, 0, 0);
}

/// A step keeps the size of the grid, and with it the number of cells.
pub proof fn lemma_step_keeps_shape(g: Grid)
    requires
        g.wf(),
    ensures
        g.step().wf(),
        g.step().width == g.width,
        g.step().height == g.height,
{
}

/// However many steps are taken, the grid keeps its size and has one cell
/// for each position.
pub proof fn lemma_steps_keep_shape(g: Grid, n: nat)
    requires
        g.wf(),
    ensures
        g.steps(n).wf(),
        g.steps(n).width == g.width,
        g.steps(n).height == g.height,
        g.steps(n).cells.len() == g.width * g.height,
    decreases n,
{
    if n > 0 {
        lemma_step_keeps_shape(g);
        lemma_steps_keep_shape(g.step(), (n - 1) as nat);
    }
}

/// The next generation depends on nothing but the cells of this one: two
/// grids of one size that agree cell by cell agree after any number of
/// steps.
pub proof fn lemma_steps_deterministic(a: Grid, b: Grid, n: nat)
    requires
        a.width == b.width,
        a.height == b.height,
        a.cells.len() == b.cells.len(),
        forall|i: int| 0 <= i < a.cells.len() ==> a.cells[i] == b.cells[i],
    ensures
        a.step() == b.step(),
        a.steps(n) == b.steps(n),
{
    assert(a.cells =~= b.cells);
    assert(a == b);
}

/// The cell at a position of the next generation is the one that the rule
/// gives for that position.
pub proof fn lemma_step_cell(g: Grid, row: int, col: int)
    requires
        g.wf(),
        g.contains(row, col),
    ensures
        g.step().cell(row, col) == g.next_cell(row, col),
{
    lemma_index(g.width as int, g.height as int, row, col);
}

/// A grid is the next generation of `g` when it has the size of `g` and at
/// each position the cell that the rule gives.
pub proof fn lemma_step_is(g: Grid, t: Grid)
    requires
        g.wf(),
        t.wf(),
        t.width == g.width,
        t.height == g.height,
        forall|row: int, col: int|
            g.contains(row, col) ==> t.cell(row, col) == #[trigger] g.next_cell(row, col),
    ensures
        g.step() == t,
{
    assert forall|i: int| 0 <= i < g.cells.len() implies g.step().cells[i] == t.cells[i] by {
        lemma_position(g.width as int, g.height as int, i);
        let row = i / (g.width as int);
        let col = i % (g.width as int);
        assert(t.cell(row, col) == g.next_cell(row, col));
    }
    assert(g.step().cells =~= t.cells);
}

} // verus!
