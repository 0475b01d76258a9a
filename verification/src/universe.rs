//! The universe: the current generation, held in a flat vector, and the
//! operations that read it, edit it and advance it.

use vstd::prelude::*;
use crate::cell::{flipped, Cell};
use crate::grid::{lemma_index, lemma_neighbors, lemma_wrap, seed, Grid};

verus! {

/// The current generation of the automaton.
pub struct Universe {
    width: u32,
    height: u32,
    cells: Vec<Cell>,
}

impl View for Universe {
    type V = Grid;

    closed spec fn view(&self) -> Grid {
        Grid { width: self.width as nat, height: self.height as nat, cells: self.cells@ }
    }
}

impl Universe {
    #[verifier::type_invariant]
    spec fn inv(&self) -> bool {
        self@.wf()
    }

    /// A universe of `width` columns and `height` rows, every cell set by
    /// `seed`: alive where its index is even or a multiple of seven. The
    /// cells must fit in one vector, which holds at most `isize::MAX` of
    /// them.
    pub fn new(width: u32, height: u32) -> (universe: Universe)
        requires
            width > 0,
            height > 0,
            width * height <= isize::MAX,
        ensures
            universe@ == Grid::seeded(width as nat, height as nat),
            universe@.wf(),
    {
        let length = width as usize * height as usize;
        let mut cells: Vec<Cell> = Vec::with_capacity(length);
        let mut index: usize = 0;
        while index < length
            invariant
                index <= length,
                cells.len() == index,
                forall|i: int| 0 <= i < index ==> cells[i] == #[trigger] seed(i),
            decreases length - index,
        {
            let cell = if index % 2 == 0 || index % 7 == 0 {
                Cell::Alive
            } else {
                Cell::Dead
            };
            cells.push(cell);
            index += 1;
        }
        proof {
            assert(cells@ =~= Grid::seeded(width as nat, height as nat).cells);
        }
        Universe { width, height, cells }
    }

    /// A universe as `new` makes it, where the sizes allow one: both sides
    /// positive and the number of cells within what a vector can hold.
    pub fn try_new(width: u32, height: u32) -> (universe: Option<Universe>)
        ensures
            universe is Some <==> width > 0 && height > 0 && width * height <= isize::MAX,
            universe matches Some(u) ==> u@ == Grid::seeded(width as nat, height as nat)
                && u@.wf(),
    {
        if width == 0 || height == 0 {
            return None;
        }
        assert(width * height <= u64::MAX) by (nonlinear_arith)
            requires
                width <= u32::MAX,
                height <= u32::MAX,
        ;
        let length: u64 = width as u64 * height as u64;
        if length > isize::MAX as u64 {
            return None;
        }
        Some(Universe::new(width, height))
    }

    /// Gives the universe `width` columns and kills every cell.
    pub fn set_width(&mut self, width: u32)
        requires
            width > 0,
            width * old(self)@.height <= isize::MAX,
        ensures
            final(self)@ == Grid::dead(width as nat, old(self)@.height),
            final(self)@.wf(),
    {
        proof {
            use_type_invariant(&*self);
        }
        let cells = dead_cells(width as usize * self.height as usize);
        *self = Universe { width, height: self.height, cells };
    }

    /// Gives the universe `height` rows and kills every cell.
    pub fn set_height(&mut self, height: u32)
        requires
            height > 0,
            old(self)@.width * height <= isize::MAX,
        ensures
            final(self)@ == Grid::dead(old(self)@.width, height as nat),
            final(self)@.wf(),
    {
        proof {
            use_type_invariant(&*self);
        }
        let cells = dead_cells(self.width as usize * height as usize);
        *self = Universe { width: self.width, height, cells };
    }

    /// Brings the cell at each of `positions` to life and leaves every
    /// other cell as it is.
    pub fn set_alive(&mut self, positions: &[(u32, u32)])
        requires
            forall|k: int|
                0 <= k < positions@.len() ==> old(self)@.contains(
                    (#[trigger] positions@[k]).0 as int,
                    positions@[k].1 as int,
                ),
        ensures
            final(self)@ == old(self)@.with_alive(positions@),
            final(self)@.wf(),
    {
        proof {
            use_type_invariant(&*self);
        }
        let ghost before = self@;
        let mut k: usize = 0;
        while k < positions.len()
            invariant
                k <= positions@.len(),
                before.wf(),
                self@.width == before.width,
                self@.height == before.height,
                self@.cells.len() == before.cells.len(),
                forall|j: int|
                    0 <= j < positions@.len() ==> before.contains(
                        (#[trigger] positions@[j]).0 as int,
                        positions@[j].1 as int,
                    ),
                forall|i: int|
                    0 <= i < before.cells.len() ==> #[trigger] self@.cells[i] == marked_cell(
                        before,
                        positions@,
                        k as int,
                        i,
                    ),
            decreases positions@.len() - k,
        {
            let (row, column) = positions[k];
            let index = self.get_index(row, column);
            let ghost earlier = self@;
            self.cells[index] = Cell::Alive;
            proof {
                assert(before.index(positions@[k as int].0 as int, positions@[k as int].1 as int)
                    == index);
                assert forall|i: int| 0 <= i < before.cells.len() implies #[trigger] self@.cells[i]
                    == marked_cell(before, positions@, k + 1, i) by {
                    assert(self@.cells[i] == if i == index {
                        Cell::Alive
                    } else {
                        earlier.cells[i]
                    });
                    assert(before.marked_by_first(positions@, k + 1, i) == (
                    before.marked_by_first(positions@, k as int, i) || i == index));
                }
            }
            k += 1;
        }
        proof {
            assert(self@.cells =~= before.with_alive(positions@).cells);
        }
    }

    /// Flips the cell at `(row, column)` and leaves every other cell as it
    /// is.
    pub fn toggle(&mut self, row: u32, column: u32)
        requires
            old(self)@.contains(row as int, column as int),
        ensures
            final(self)@ == old(self)@.toggled(row as int, column as int),
            final(self)@.cell(row as int, column as int) == flipped(
                old(self)@.cell(row as int, column as int),
            ),
            final(self)@.wf(),
    {
        proof {
            use_type_invariant(&*self);
        }
        let index = self.get_index(row, column);
        let mut cell = self.cells[index];
        cell.toggle();
        self.cells[index] = cell;
    }

    /// The number of columns.
    pub fn width(&self) -> (width: u32)
        ensures
            width == self@.width,
            self@.wf(),
    {
        proof {
            use_type_invariant(self);
        }
        self.width
    }

    /// The number of rows.
    pub fn height(&self) -> (height: u32)
        ensures
            height == self@.height,
            self@.wf(),
    {
        proof {
            use_type_invariant(self);
        }
        self.height
    }

    /// The cells of the whole universe, row after row.
    pub fn get_cells(&self) -> (cells: &[Cell])
        ensures
            cells@ == self@.cells,
            self@.wf(),
    {
        proof {
            use_type_invariant(self);
        }
        self.cells.as_slice()
    }

    /// Where the cell at `(row, column)` stands among the cells.
    pub fn get_index(&self, row: u32, column: u32) -> (index: usize)
        requires
            self@.contains(row as int, column as int),
        ensures
            index == self@.index(row as int, column as int),
            index < self@.cells.len(),
    {
        proof {
            use_type_invariant(self);
            lemma_index(self.width as int, self.height as int, row as int, column as int);
            assert(self.cells.len() == self.width * self.height);
            assert(0 <= row * self.width) by (nonlinear_arith);
        }
        row as usize * self.width as usize + column as usize
    }

    /// The cell at `(row, column)`.
    pub fn cell_at(&self, row: u32, column: u32) -> (cell: Cell)
        requires
            self@.contains(row as int, column as int),
        ensures
            cell == self@.cell(row as int, column as int),
    {
        let index = self.get_index(row, column);
        self.cells[index]
    }

    /// How many of the eight neighbours of `(row, column)` are alive, the
    /// grid taken as a torus.
    pub fn live_neighbor_count(&self, row: u32, column: u32) -> (count: u8)
        requires
            self@.contains(row as int, column as int),
        ensures
            count == self@.live_neighbors(row as int, column as int),
            count <= 8,
    {
        proof {
            use_type_invariant(self);
            lemma_wrap(row as int, self.height as int);
            lemma_wrap(column as int, self.width as int);
            lemma_neighbors(self@, row as int, column as int);
        }
        let north = if row == 0 { self.height - 1 } else { row - 1 };
        let south = if row == self.height - 1 { 0 } else { row + 1 };
        let west = if column == 0 { self.width - 1 } else { column - 1 };
        let east = if column == self.width - 1 { 0 } else { column + 1 };

        let mut count: u8 = 0;
        count += self.cell_at(north, west).as_u8();
        count += self.cell_at(north, column).as_u8();
        count += self.cell_at(north, east).as_u8();
        count += self.cell_at(row, west).as_u8();
        count += self.cell_at(row, east).as_u8();
        count += self.cell_at(south, west).as_u8();
        count += self.cell_at(south, column).as_u8();
        count += self.cell_at(south, east).as_u8();
        count
    }

    /// Advances the universe by one generation. Every cell of the new
    /// generation is decided from the old one: the new cells are gathered
    /// in a second buffer, which then takes the place of the first.
    pub fn tick(&mut self)
        ensures
            final(self)@ == old(self)@.step(),
            final(self)@.wf(),
    {
        proof {
            use_type_invariant(&*self);
        }
        let ghost before = self@;
        let mut next: Vec<Cell> = Vec::with_capacity(self.cells.len());
        let mut row: u32 = 0;
        while row < self.height
            invariant
                self@ == before,
                before.wf(),
                row <= self.height,
                next.len() == row * self.width,
                forall|i: int|
                    0 <= i < next.len() ==> next[i] == #[trigger] before.step().cells[i],
            decreases self.height - row,
        {
            let mut column: u32 = 0;
            while column < self.width
                invariant
                    self@ == before,
                    before.wf(),
                    row < self.height,
                    column <= self.width,
                    next.len() == row * self.width + column,
                    forall|i: int|
                        0 <= i < next.len() ==> next[i] == #[trigger] before.step().cells[i],
                decreases self.width - column,
            {
                proof {
                    lemma_index(
                        self.width as int,
                        self.height as int,
                        row as int,
                        column as int,
                    );
                }
                let cell = self.cell_at(row, column);
                let live_neighbors = self.live_neighbor_count(row, column);
                next.push(cell.next(live_neighbors));
                column += 1;
            }
            proof {
                assert(row * self.width + self.width == (row + 1) * self.width)
                    by (nonlinear_arith);
            }
            row += 1;
        }
        proof {
            assert(self.height * self.width == self.width * self.height) by (nonlinear_arith);
            assert(next@ =~= before.step().cells);
        }
        self.cells = next;
    }
}

/// The cell at `i` once the first `n` of `positions` have been brought to
/// life in `g`.
spec fn marked_cell(g: Grid, positions: Seq<(u32, u32)>, n: int, i: int) -> Cell {
    if g.marked_by_first(positions, n, i) {
        Cell::Alive
    } else {
        g.cells[i]
    }
}

/// Two runs of `tick` that start from the same generation end in the same
/// generation.
pub proof fn lemma_tick_deterministic(
    first: Universe,
    first_after: Universe,
    second: Universe,
    second_after: Universe,
)
    requires
        first@ == second@,
        first_after@ == first@.step(),
        second_after@ == second@.step(),
    ensures
        first_after@ == second_after@,
{
}

/// A vector of `length` dead cells.
fn dead_cells(length: usize) -> (cells: Vec<Cell>)
    ensures
        cells@ == Seq::new(length as nat, |i: int| Cell::Dead),
{
    let mut cells: Vec<Cell> = Vec::with_capacity(length);
    let mut index: usize = 0;
    while index < length
        invariant
            index <= length,
            cells.len() == index,
            forall|i: int| 0 <= i < index ==> cells[i] == Cell::Dead,
        decreases length - index,
    {
        cells.push(Cell::Dead);
        index += 1;
    }
    proof {
        assert(cells@ =~= Seq::new(length as nat, |i: int| Cell::Dead));
    }
    cells
}

} // verus!
