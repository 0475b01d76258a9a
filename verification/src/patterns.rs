//! Two classic patterns and what the rule does to them: the block, which
//! never changes, and the blinker, which turns a quarter with every
//! generation.

use vstd::prelude::*;
use crate::cell::Cell;
use crate::grid::{
    lemma_index, lemma_neighbors, lemma_position, lemma_step_cell, lemma_step_is, lemma_wrap,
    pred, succ, Grid,
};

verus! {

/// The only live cell of `g` is the one at `(row, col)`.
pub open spec fn is_lone_cell(g: Grid, row: int, col: int) -> bool {
    &&& g.wf()
    &&& g.contains(row, col)
    &&& forall|r: int, c: int|
        g.contains(r, c) ==> (#[trigger] g.cell(r, c) == Cell::Alive <==> r == row && c == col)
}

/// The only live cells of `g` are the four of the square whose upper left
/// corner is `(row, col)`. The square may reach across an edge of the grid.
pub open spec fn is_block(g: Grid, row: int, col: int) -> bool {
    let below = succ(row, g.height as int);
    let right = succ(col, g.width as int);
    &&& g.wf()
    &&& g.contains(row, col)
    &&& forall|r: int, c: int|
        g.contains(r, c) ==> (#[trigger] g.cell(r, c) == Cell::Alive <==> (r == row || r == below)
            && (c == col || c == right))
}

/// The only live cells of `g` are the three of the horizontal line whose
/// middle is `(row, col)`. The line may reach across an edge of the grid.
pub open spec fn is_row_blinker(g: Grid, row: int, col: int) -> bool {
    let left = pred(col, g.width as int);
    let right = succ(col, g.width as int);
    &&& g.wf()
    &&& g.contains(row, col)
    &&& forall|r: int, c: int|
        g.contains(r, c) ==> (#[trigger] g.cell(r, c) == Cell::Alive <==> r == row && (c == left
            || c == col || c == right))
}

/// The only live cells of `g` are the three of the vertical line whose
/// middle is `(row, col)`. The line may reach across an edge of the grid.
pub open spec fn is_column_blinker(g: Grid, row: int, col: int) -> bool {
    let above = pred(row, g.height as int);
    let below = succ(row, g.height as int);
    &&& g.wf()
    &&& g.contains(row, col)
    &&& forall|r: int, c: int|
        g.contains(r, c) ==> (#[trigger] g.cell(r, c) == Cell::Alive <==> c == col && (r == above
            || r == row || r == below))
}

/// A cell alone dies of isolation and leaves nothing behind: on a grid of
/// at least three rows and three columns, where no cell meets it from two
/// sides, the next generation is all dead.
pub proof fn lemma_lone_cell_dies(g: Grid, row: int, col: int)
    requires
        is_lone_cell(g, row, col),
        g.width >= 3,
        g.height >= 3,
    ensures
        g.step() == Grid::dead(g.width, g.height),
{
    let h = g.height as int;
    let w = g.width as int;
    let t = Grid::dead(g.width, g.height);
    assert forall|r: int, c: int| g.contains(r, c) implies t.cell(r, c)
        == #[trigger] g.next_cell(r, c) by {
        lemma_wrap(r, h);
        lemma_wrap(c, w);
        lemma_neighbors(g, r, c);
        lemma_index(w, h, r, c);
        assert(g.live_neighbors(r, c) <= 1);
    }
    lemma_step_is(g, t);
}

/// On a grid of at least four rows and columns, every cell of a block and
/// every cell around it is in the next generation what it is now.
proof fn lemma_block_cell(g: Grid, row: int, col: int, r: int, c: int)
    requires
        is_block(g, row, col),
        g.width >= 4,
        g.height >= 4,
        g.contains(r, c),
    ensures
        g.next_cell(r, c) == g.cell(r, c),
{
    let h = g.height as int;
    let w = g.width as int;
    lemma_wrap(row, h);
    lemma_wrap(col, w);
    lemma_wrap(r, h);
    lemma_wrap(c, w);
    lemma_neighbors(g, r, c);
    let row2 = succ(row, h);
    let col2 = succ(col, w);
    let north = pred(r, h);
    let south = succ(r, h);
    let west = pred(c, w);
    let east = succ(c, w);
    // Which of the three rows and of the three columns around the cell
    // belong to the block.
    let rn = north == row || north == row2;
    let rr = r == row || r == row2;
    let rs = south == row || south == row2;
    let cw = west == col || west == col2;
    let cc = c == col || c == col2;
    let ce = east == col || east == col2;
    assert(rr ==> rn != rs);
    assert(!rr ==> !(rn && rs));
    assert(cc ==> cw != ce);
    assert(!cc ==> !(cw && ce));
    assert((g.cell(north, west) == Cell::Alive) == (rn && cw));
    assert((g.cell(north, c) == Cell::Alive) == (rn && cc));
    assert((g.cell(north, east) == Cell::Alive) == (rn && ce));
    assert((g.cell(r, west) == Cell::Alive) == (rr && cw));
    assert((g.cell(r, c) == Cell::Alive) == (rr && cc));
    assert((g.cell(r, east) == Cell::Alive) == (rr && ce));
    assert((g.cell(south, west) == Cell::Alive) == (rs && cw));
    assert((g.cell(south, c) == Cell::Alive) == (rs && cc));
    assert((g.cell(south, east) == Cell::Alive) == (rs && ce));
    if rr && cc {
        assert(g.live_neighbors(r, c) == 3);
    } else {
        assert(g.live_neighbors(r, c) != 3);
    }
}

/// A block is a still life: on a grid of at least four rows and four
/// columns, where no cell meets the block from two sides, the next
/// generation is the block again.
pub proof fn lemma_block_is_still(g: Grid, row: int, col: int)
    requires
        is_block(g, row, col),
        g.width >= 4,
        g.height >= 4,
    ensures
        g.step() == g,
{
    assert forall|r: int, c: int| g.contains(r, c) implies g.cell(r, c)
        == #[trigger] g.next_cell(r, c) by {
        lemma_block_cell(g, row, col, r, c);
    }
    lemma_step_is(g, g);
}

/// A horizontal blinker becomes the vertical blinker about the same
/// middle.
pub proof fn lemma_row_blinker_turns(g: Grid, row: int, col: int)
    requires
        is_row_blinker(g, row, col),
        g.width >= 4,
        g.height >= 4,
    ensures
        is_column_blinker(g.step(), row, col),
{
    let h = g.height as int;
    let w = g.width as int;
    let t = g.step();
    lemma_wrap(row, h);
    lemma_wrap(col, w);
    assert forall|r: int, c: int| g.contains(r, c) implies (#[trigger] t.cell(r, c) == Cell::Alive
        <==> c == col && (r == pred(row, h) || r == row || r == succ(row, h))) by {
        lemma_wrap(r, h);
        lemma_wrap(c, w);
        lemma_neighbors(g, r, c);
        lemma_step_cell(g, r, c);
    }
}

/// A vertical blinker becomes the horizontal blinker about the same
/// middle.
pub proof fn lemma_column_blinker_turns(g: Grid, row: int, col: int)
    requires
        is_column_blinker(g, row, col),
        g.width >= 4,
        g.height >= 4,
    ensures
        is_row_blinker(g.step(), row, col),
{
    let h = g.height as int;
    let w = g.width as int;
    let t = g.step();
    lemma_wrap(row, h);
    lemma_wrap(col, w);
    assert forall|r: int, c: int| g.contains(r, c) implies (#[trigger] t.cell(r, c) == Cell::Alive
        <==> r == row && (c == pred(col, w) || c == col || c == succ(col, w))) by {
        lemma_wrap(r, h);
        lemma_wrap(c, w);
        lemma_neighbors(g, r, c);
        lemma_step_cell(g, r, c);
    }
}

/// Two grids of one size whose live cells are the same are the same grid.
proof fn lemma_same_live_cells(a: Grid, b: Grid)
    requires
        a.wf(),
        b.wf(),
        a.width == b.width,
        a.height == b.height,
        forall|r: int, c: int|
            a.contains(r, c) ==> (#[trigger] a.cell(r, c) == Cell::Alive <==> b.cell(r, c)
                == Cell::Alive),
    ensures
        a == b,
{
    assert forall|i: int| 0 <= i < a.cells.len() implies a.cells[i] == b.cells[i] by {
        lemma_position(a.width as int, a.height as int, i);
        let r = i / (a.width as int);
        let c = i % (a.width as int);
        assert(a.cell(r, c) == Cell::Alive <==> b.cell(r, c) == Cell::Alive);
    }
    assert(a.cells =~= b.cells);
}

/// A blinker oscillates with period two: on a grid of at least four rows
/// and four columns the next generation is the line turned a quarter about
/// its middle, which is another grid, and the generation after that is
/// the first line again.
pub proof fn lemma_blinker_oscillates(g: Grid, row: int, col: int)
    requires
        is_row_blinker(g, row, col) || is_column_blinker(g, row, col),
        g.width >= 4,
        g.height >= 4,
    ensures
        is_row_blinker(g, row, col) ==> is_column_blinker(g.step(), row, col),
        is_column_blinker(g, row, col) ==> is_row_blinker(g.step(), row, col),
        g.step() != g,
        g.step().step() == g,
        g.steps(2) == g,
{
    let t = g.step();
    let u = t.step();
    lemma_wrap(row, g.height as int);
    lemma_wrap(col, g.width as int);
    if is_row_blinker(g, row, col) {
        lemma_row_blinker_turns(g, row, col);
        lemma_column_blinker_turns(t, row, col);
        assert(g.cell(pred(row, g.height as int), col) != t.cell(pred(row, g.height as int), col));
    } else {
        lemma_column_blinker_turns(g, row, col);
        lemma_row_blinker_turns(t, row, col);
        assert(g.cell(row, pred(col, g.width as int)) != t.cell(row, pred(col, g.width as int)));
    }
    lemma_same_live_cells(u, g);
    assert(g.steps(2) == u) by {
        reveal_with_fuel(Grid::steps, 3);
    }
}

} // verus!
