//! The grid: a flat row-major buffer of cells with its dimensions, plus
//! creation, destructive resizing, painting, and the read-only views a
//! renderer consumes. The mathematical model of a grid is [`GridView`]; every
//! contract speaks of it through `@`.

use vstd::prelude::*;

use crate::cell::{Cell, CellType, spec_code};
use crate::rng::BitSource;

verus! {

/// The default square side length of a freshly created grid.
pub const DEFAULT_WIDTH: u32 = 64;

/// See [`DEFAULT_WIDTH`].
pub const DEFAULT_HEIGHT: u32 = 64;

/// The mathematical model of a grid: its dimensions and the row-major
/// sequence of cells. The movement rules are specified over this type.
pub struct GridView {
    pub width: int,
    pub height: int,
    pub cells: Seq<Cell>,
}

impl GridView {
    /// The buffer has exactly `width * height` cells and that product fits
    /// the 32-bit index arithmetic every lookup uses.
    pub open spec fn wf(self) -> bool {
        &&& self.cells.len() == self.width * self.height
        &&& 0 <= self.width * self.height <= u32::MAX as int
    }

    /// Row-major index of a coordinate.
    pub open spec fn index_of(self, row: int, col: int) -> int {
        row * self.width + col
    }

    /// Whether a coordinate lies on the grid.
    pub open spec fn in_bounds(self, row: int, col: int) -> bool {
        0 <= row < self.height && 0 <= col < self.width
    }

    /// The cell at an in-bounds coordinate.
    pub open spec fn cell_at(self, row: int, col: int) -> Cell {
        self.cells[self.index_of(row, col)]
    }

    /// The material of every cell, in row-major order.
    pub open spec fn ids(self) -> Seq<CellType> {
        self.cells.map(|i: int, c: Cell| c.id)
    }

    /// Every cell of the grid is empty space.
    pub open spec fn all_dead(self) -> bool {
        forall|i: int|
            0 <= i < self.cells.len() ==> (#[trigger] self.cells[i].id) == CellType::Dead
    }

    /// An in-bounds coordinate indexes into the buffer.
    pub proof fn lemma_index_in_range(self, row: int, col: int)
        requires
            self.wf(),
            self.in_bounds(row, col),
        ensures
            0 <= self.index_of(row, col) < self.cells.len(),
    {
        assert(0 <= row * self.width + col < self.width * self.height) by (nonlinear_arith)
            requires
                0 <= row < self.height,
                0 <= col < self.width,
        ;
    }

    /// A grid with at least one in-bounds coordinate has both dimensions
    /// bounded by the 32-bit ceiling on the cell count.
    pub proof fn lemma_dims_bounded(self, row: int, col: int)
        requires
            self.wf(),
            self.in_bounds(row, col),
        ensures
            1 <= self.width <= u32::MAX as int,
            1 <= self.height <= u32::MAX as int,
    {
        assert(self.height <= self.width * self.height && self.width <= self.width * self.height)
            by (nonlinear_arith)
            requires
                self.width >= 1,
                self.height >= 1,
        ;
    }

    /// Distinct in-bounds coordinates index distinct cells.
    pub proof fn lemma_index_injective(self, r1: int, c1: int, r2: int, c2: int)
        requires
            self.wf(),
            self.in_bounds(r1, c1),
            self.in_bounds(r2, c2),
            !(r1 == r2 && c1 == c2),
        ensures
            self.index_of(r1, c1) != self.index_of(r2, c2),
    {
        assert(r1 * self.width + c1 != r2 * self.width + c2) by (nonlinear_arith)
            requires
                0 <= r1 < self.height,
                0 <= c1 < self.width,
                0 <= r2 < self.height,
                0 <= c2 < self.width,
                !(r1 == r2 && c1 == c2),
        ;
    }
}

/// The simulation grid. `cells` is row-major: the cell at `(row, col)` lives
/// at index `row * width + col`.
pub struct Universe {
    pub width: u32,
    pub height: u32,
    pub cells: Vec<Cell>,
    /// Queue of left/right tie-break choices the tick consumes; see
    /// [`BitSource`].
    pub rand_bits: BitSource,
}

impl View for Universe {
    type V = GridView;

    open spec fn view(&self) -> GridView {
        GridView {
            width: self.width as int,
            height: self.height as int,
            cells: self.cells@,
        }
    }
}

impl Universe {
    /// Well-formedness of the underlying model.
    pub open spec fn wf(self) -> bool {
        self@.wf()
    }

    /// Row-major index of an in-bounds coordinate.
    pub fn get_index(&self, row: u32, column: u32) -> (idx: usize)
        requires
            self.wf(),
            self@.in_bounds(row as int, column as int),
        ensures
            idx == self@.index_of(row as int, column as int),
            idx < self.cells@.len(),
    {
        proof {
            self@.lemma_index_in_range(row as int, column as int);
        }
        (row * self.width + column) as usize
    }

    /// Current grid width in cells.
    pub fn width(&self) -> (w: u32)
        ensures
            w == self.width,
    {
        self.width
    }

    /// Current grid height in cells.
    pub fn height(&self) -> (h: u32)
        ensures
            h == self.height,
    {
        self.height
    }

    /// The whole cell buffer, row-major.
    pub fn get_cells(&self) -> (cells: &Vec<Cell>)
        ensures
            cells == &self.cells,
    {
        &self.cells
    }

    /// The material of every cell as its stable small-integer code, in
    /// row-major order: the buffer a renderer draws from.
    pub fn cells(&self) -> (codes: Vec<u8>)
        ensures
            codes@.len() == self.cells@.len(),
            forall|i: int|
                0 <= i < codes@.len() ==> codes@[i] == spec_code(#[trigger] self.cells@[i].id),
    {
        let mut codes: Vec<u8> = Vec::new();
        let mut i: usize = 0;
        while i < self.cells.len()
            invariant
                i <= self.cells@.len(),
                codes@.len() == i,
                forall|j: int|
                    0 <= j < i ==> codes@[j] == spec_code(#[trigger] self.cells@[j].id),
            decreases self.cells@.len() - i,
        {
            codes.push(self.cells[i].id.code());
            i = i + 1;
        }
        codes
    }

    /// A fresh all-dead buffer of `n` cells.
    fn dead_cells(n: usize) -> (v: Vec<Cell>)
        ensures
            v@.len() == n,
            forall|i: int|
                0 <= i < n ==> (#[trigger] v@[i]) == (Cell {
                    id: CellType::Dead,
                    energy: 0,
                    has_been_updated: false,
                }),
    {
        let mut v: Vec<Cell> = Vec::new();
        let mut i: usize = 0;
        while i < n
            invariant
                i <= n,
                v@.len() == i,
                forall|j: int|
                    0 <= j < i ==> (#[trigger] v@[j]) == (Cell {
                        id: CellType::Dead,
                        energy: 0,
                        has_been_updated: false,
                    }),
            decreases n - i,
        {
            v.push(Cell::new(CellType::Dead));
            i = i + 1;
        }
        v
    }

    /// A default-sized grid, fully dead, with no queued tie-break bits.
    pub fn new() -> (u: Universe)
        ensures
            u.wf(),
            u.width == DEFAULT_WIDTH,
            u.height == DEFAULT_HEIGHT,
            u@.all_dead(),
            forall|i: int|
                0 <= i < u.cells@.len() ==> (#[trigger] u.cells@[i]) == (Cell {
                    id: CellType::Dead,
                    energy: 0,
                    has_been_updated: false,
                }),
            u.rand_bits.bits@.len() == 0,
    {
        let cells = Self::dead_cells((DEFAULT_WIDTH * DEFAULT_HEIGHT) as usize);
        Universe {
            width: DEFAULT_WIDTH,
            height: DEFAULT_HEIGHT,
            cells,
            rand_bits: BitSource::empty(),
        }
    }

    /// Destructively resize: keep the height, set the new width, and reset
    /// every cell of the reallocated buffer to dead — resizing is a reset,
    /// not a content-preserving copy.
    pub fn set_width(&mut self, width: u32)
        requires
            width as int * old(self).height as int <= u32::MAX as int,
        ensures
            final(self).wf(),
            final(self).width == width,
            final(self).height == old(self).height,
            final(self)@.all_dead(),
            forall|i: int|
                0 <= i < final(self).cells@.len() ==> (#[trigger] final(self).cells@[i]) == (Cell {
                    id: CellType::Dead,
                    energy: 0,
                    has_been_updated: false,
                }),
            final(self).rand_bits == old(self).rand_bits,
    {
        self.width = width;
        self.cells = Self::dead_cells((width * self.height) as usize);
    }

    /// Destructively resize; the mirror of [`Universe::set_width`].
    pub fn set_height(&mut self, height: u32)
        requires
            old(self).width as int * height as int <= u32::MAX as int,
        ensures
            final(self).wf(),
            final(self).width == old(self).width,
            final(self).height == height,
            final(self)@.all_dead(),
            forall|i: int|
                0 <= i < final(self).cells@.len() ==> (#[trigger] final(self).cells@[i]) == (Cell {
                    id: CellType::Dead,
                    energy: 0,
                    has_been_updated: false,
                }),
            final(self).rand_bits == old(self).rand_bits,
    {
        self.height = height;
        self.cells = Self::dead_cells((self.width * height) as usize);
    }

    /// Paint one cell's material. Energy and update flag of that cell are
    /// left as they were. The coordinate must be in bounds: this is the
    /// caller's contract.
    pub fn set_cell(&mut self, row: u32, column: u32, ct: CellType)
        requires
            old(self).wf(),
            old(self)@.in_bounds(row as int, column as int),
        ensures
            final(self).wf(),
            final(self).width == old(self).width,
            final(self).height == old(self).height,
            final(self).rand_bits == old(self).rand_bits,
            final(self).cells@ == old(self).cells@.update(
                old(self)@.index_of(row as int, column as int),
                (Cell {
                    id: ct,
                    energy: old(self)@.cell_at(row as int, column as int).energy,
                    has_been_updated: old(self)@.cell_at(
                        row as int,
                        column as int,
                    ).has_been_updated,
                }),
            ),
    {
        let idx = self.get_index(row, column);
        let energy = self.cells[idx].energy;
        let updated = self.cells[idx].has_been_updated;
        self.cells.set(idx, Cell { id: ct, energy, has_been_updated: updated });
    }

    /// Replace the queue of left/right tie-break bits; the grid itself is
    /// untouched.
    pub fn set_random_bits(&mut self, bits: Vec<bool>)
        ensures
            final(self).width == old(self).width,
            final(self).height == old(self).height,
            final(self).cells == old(self).cells,
            final(self).rand_bits.bits == bits,
            final(self).rand_bits.pos == 0,
    {
        self.rand_bits = BitSource::new(bits);
    }

    /// Draw the next tie-break choice from the queue; the grid itself is
    /// untouched.
    pub fn next_random_bit(&mut self) -> (b: bool)
        ensures
            b == old(self).rand_bits.spec_peek(),
            final(self).rand_bits == old(self).rand_bits.spec_advanced(),
            final(self).width == old(self).width,
            final(self).height == old(self).height,
            final(self).cells == old(self).cells,
    {
        self.rand_bits.next_bit()
    }

    /// Exchange the full contents of two cells (material, energy, and flag
    /// all travel with the cell).
    pub fn switch_cells(&mut self, old_idx: usize, new_idx: usize)
        requires
            old_idx < old(self).cells@.len(),
            new_idx < old(self).cells@.len(),
        ensures
            final(self).width == old(self).width,
            final(self).height == old(self).height,
            final(self).rand_bits == old(self).rand_bits,
            final(self).cells@ == old(self).cells@.update(
                old_idx as int,
                old(self).cells@[new_idx as int],
            ).update(new_idx as int, old(self).cells@[old_idx as int]),
    {
        let a = self.cells[old_idx];
        let b = self.cells[new_idx];
        self.cells.set(old_idx, b);
        self.cells.set(new_idx, a);
    }
}

} // verus!
