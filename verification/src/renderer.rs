//! The picture of a generation: four colour bytes for each cell, in the
//! order red, green, blue, alpha. A live cell is opaque black, a dead cell
//! opaque white.

use vstd::prelude::*;
use crate::cell::Cell;
use crate::universe::Universe;

verus! {

/// The byte of colour channel `k` (0 red, 1 green, 2 blue, 3 alpha) in the
/// pixel of `cell`.
pub open spec fn channel(cell: Cell, k: int) -> u8 {
    if k == 3 {
        255
    } else if cell == Cell::Alive {
        0
    } else {
        255
    }
}

/// The picture of `cells`: the four bytes of the first cell's pixel, then
/// those of the second, and so on.
pub open spec fn frame(cells: Seq<Cell>) -> Seq<u8> {
    Seq::new(4 * cells.len(), |i: int| channel(cells[i / 4], i % 4))
}

/// A picture of the right length for `cells` cells with every byte zero.
pub open spec fn blank(cells: nat) -> Seq<u8> {
    Seq::new(4 * cells, |i: int| 0u8)
}

/// Writes the picture of `cells` over `data`.
pub fn paint(cells: &[Cell], data: &mut Vec<u8>)
    requires
        old(data)@.len() == 4 * cells@.len(),
    ensures
        final(data)@ == frame(cells@),
{
    let mut i: usize = 0;
    while i < cells.len()
        invariant
            i <= cells@.len(),
            data.len() == 4 * cells@.len(),
            forall|j: int| 0 <= j < 4 * i ==> data@[j] == channel(#[trigger] cells@[j / 4], j % 4),
        decreases cells@.len() - i,
    {
        let idx = i * 4;
        let shade: u8 = match cells[i] {
            Cell::Alive => 0,
            Cell::Dead => 255,
        };
        data.set(idx, shade);
        data.set(idx + 1, shade);
        data.set(idx + 2, shade);
        data.set(idx + 3, 255);
        i += 1;
    }
    proof {
        assert(data@ =~= frame(cells@));
    }
}

/// A vector of `length` zero bytes.
fn zeroed(length: usize) -> (data: Vec<u8>)
    ensures
        data@ == Seq::new(length as nat, |i: int| 0u8),
{
    let mut data: Vec<u8> = Vec::with_capacity(length);
    let mut index: usize = 0;
    while index < length
        invariant
            index <= length,
            data.len() == index,
            forall|i: int| 0 <= i < index ==> data[i] == 0u8,
        decreases length - index,
    {
        data.push(0);
        index += 1;
    }
    proof {
        assert(data@ =~= Seq::new(length as nat, |i: int| 0u8));
    }
    data
}

/// A picture buffer that is made once for a universe and painted anew for
/// each generation.
pub struct Renderer {
    pixels: Vec<u8>,
}

impl View for Renderer {
    type V = Seq<u8>;

    closed spec fn view(&self) -> Seq<u8> {
        self.pixels@
    }
}

impl Renderer {
    /// A blank buffer of the size that the pictures of `universe` need.
    pub fn new(universe: &Universe) -> (renderer: Renderer)
        requires
            4 * universe@.cells.len() <= isize::MAX,
        ensures
            renderer@ == blank(universe@.cells.len()),
    {
        let length = universe.get_cells().len();
        let pixels = zeroed(length * 4);
        proof {
            assert(pixels@ =~= blank(universe@.cells.len()));
        }
        Renderer { pixels }
    }

    /// Paints the current generation of `universe` into the buffer.
    pub fn draw(&mut self, universe: &Universe)
        requires
            old(self)@.len() == 4 * universe@.cells.len(),
        ensures
            final(self)@ == frame(universe@.cells),
    {
        self.draw_cells(universe);
    }

    fn draw_cells(&mut self, universe: &Universe)
        requires
            old(self)@.len() == 4 * universe@.cells.len(),
        ensures
            final(self)@ == frame(universe@.cells),
    {
        paint(universe.get_cells(), &mut self.pixels);
    }

    /// The bytes of the buffer.
    pub fn pixels(&self) -> (pixels: &[u8])
        ensures
            pixels@ == self@,
    {
        self.pixels.as_slice()
    }
}

/// A universe together with the step that each frame takes: advance one
/// generation, then paint it.
pub struct CanvasRenderer {
    universe: Universe,
}

impl View for CanvasRenderer {
    type V = crate::grid::Grid;

    closed spec fn view(&self) -> crate::grid::Grid {
        self.universe@
    }
}

impl CanvasRenderer {
    /// Takes over `universe`.
    pub fn new(universe: Universe) -> (renderer: CanvasRenderer)
        ensures
            renderer@ == universe@,
    {
        CanvasRenderer { universe }
    }

    /// The universe as it now stands.
    pub fn universe(&self) -> (universe: &Universe)
        ensures
            universe@ == self@,
    {
        &self.universe
    }

    /// One frame: advances the universe by a generation and returns the
    /// picture of the new generation.
    pub fn render(&mut self) -> (data: Vec<u8>)
        requires
            4 * old(self)@.cells.len() <= isize::MAX,
        ensures
            final(self)@ == old(self)@.step(),
            data@ == frame(final(self)@.cells),
    {
        self.universe.tick();
        self.draw_cells()
    }

    /// The picture of the current generation.
    pub fn draw_cells(&self) -> (data: Vec<u8>)
        requires
            4 * self@.cells.len() <= isize::MAX,
        ensures
            data@ == frame(self@.cells),
    {
        let cells = self.universe.get_cells();
        let mut data = zeroed(cells.len() * 4);
        paint(cells, &mut data);
        data
    }
}

} // verus!
