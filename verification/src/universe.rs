//! The universe: a grid of fixed dimensions with two generation buffers, one
//! read from and one written to, which exchange roles at every tick.

use crate::cell::Cell;
use crate::generation::{
    lemma_at_inside, lemma_index_bounds, lemma_index_row_col, lemma_names_one_more,
    lemma_neighbors, Generation,
};
use vstd::prelude::*;

verus! {

/// What a universe holds: the generation it reads from while stepping, and
/// the generation it has computed most recently, which is the one displayed.
pub struct UniverseView {
    pub last: Generation,
    pub next: Generation,
}

impl UniverseView {
    /// Both generations are complete grids of the same dimensions.
    pub open spec fn wf(self) -> bool {
        &&& self.last.wf()
        &&& self.next.wf()
        &&& self.last.width == self.next.width
        &&& self.last.height == self.next.height
    }

    /// The number of columns.
    pub open spec fn width(self) -> nat {
        self.next.width
    }

    /// The number of rows.
    pub open spec fn height(self) -> nat {
        self.next.height
    }

    /// One tick later: the generation shown becomes the one read from, and
    /// its successor becomes the one shown.
    pub open spec fn tick(self) -> UniverseView {
        UniverseView { last: self.next, next: self.next.step() }
    }

    /// Every cell of the generation shown is dead; the other generation is
    /// as it was.
    pub open spec fn clear(self) -> UniverseView {
        UniverseView { last: self.last, next: self.next.cleared() }
    }

    /// The cells named by `coords` are alive in the generation shown; all
    /// other cells, and the other generation, are as they were.
    pub open spec fn set_cells(self, coords: Seq<(u32, u32)>) -> UniverseView {
        UniverseView { last: self.last, next: self.next.with_alive(coords) }
    }

    /// A freshly made universe: both generations hold the seed pattern.
    pub open spec fn seeded(width: nat, height: nat) -> UniverseView {
        UniverseView {
            last: Generation::seeded(width, height),
            next: Generation::seeded(width, height),
        }
    }
}

/// A Game of Life on a torus of `width` by `height` cells.
///
/// A dimension may be zero; the grid then has no cells, and every operation
/// leaves it so.
#[derive(Debug, PartialEq, Eq)]
pub struct Universe {
    width: u32,
    height: u32,
    last_generation: Vec<Cell>,
    next_generation: Vec<Cell>,
}

impl View for Universe {
    type V = UniverseView;

    closed spec fn view(&self) -> UniverseView {
        UniverseView {
            last: Generation {
                width: self.width as nat,
                height: self.height as nat,
                cells: self.last_generation@,
            },
            next: Generation {
                width: self.width as nat,
                height: self.height as nat,
                cells: self.next_generation@,
            },
        }
    }
}

impl Clone for Universe {
    /// A universe of the same dimensions that holds the same two generations.
    fn clone(&self) -> (copy: Self)
        ensures
            copy@ == self@,
    {
        proof {
            use_type_invariant(self);
        }
        let last_generation = self.last_generation.clone();
        let next_generation = self.next_generation.clone();
        Universe { width: self.width, height: self.height, last_generation, next_generation }
    }
}

impl Universe {
    /// Each buffer holds one cell for each position, and the number of
    /// positions fits in 32 bits.
    #[verifier::type_invariant]
    closed spec fn inv(&self) -> bool {
        &&& self.last_generation@.len() == self.width * self.height
        &&& self.next_generation@.len() == self.width * self.height
        &&& self.width * self.height <= u32::MAX
    }

    /// Makes a universe of the given dimensions, with the seed pattern in both
    /// generations. The number of cells must fit in 32 bits.
    pub fn new(width: u32, height: u32) -> (universe: Universe)
        requires
            width * height <= u32::MAX,
        ensures
            universe@ == UniverseView::seeded(width as nat, height as nat),
            universe@.wf(),
    {
        let count: u32 = width * height;
        let mut cells: Vec<Cell> = Vec::new();
        let mut i: u32 = 0;
        while i < count
            invariant
                i <= count,
                cells@.len() == i,
                forall|j: int| 0 <= j < i ==> cells@[j] == crate::generation::seed(j),
            decreases count - i,
        {
            let cell = if i % 2 == 0 || i % 7 == 0 {
                Cell::Alive
            } else {
                Cell::Dead
            };
            cells.push(cell);
            i += 1;
        }
        let last_generation = cells.clone();
        assert(cells@ =~= Generation::seeded(width as nat, height as nat).cells);
        Universe { width, height, last_generation, next_generation: cells }
    }

    /// The flat position of `(row, column)` in either buffer.
    fn get_index(&self, row: u32, column: u32) -> (index: usize)
        requires
            row < self.height,
            column < self.width,
        ensures
            index == self@.last.index(row as int, column as int),
            index < self.last_generation@.len(),
            index < self.next_generation@.len(),
    {
        proof {
            use_type_invariant(self);
            lemma_index_bounds(row as int, column as int, self.width as int, self.height as int);
        }
        (row * self.width + column) as usize
    }

    /// What the cell at `(row, column)` of the generation read from adds to
    /// a neighbour's live count.
    fn last_count(&self, row: u32, column: u32) -> (count: u8)
        requires
            row < self.height,
            column < self.width,
        ensures
            count == self@.last.cells[self@.last.index(row as int, column as int)].count(),
            count <= 1,
    {
        let index = self.get_index(row, column);
        self.last_generation[index].live_count()
    }

    /// Counts the living cells among the eight neighbours of `(row, column)`
    /// in the generation read from: the seed until the first tick, and after a
    /// tick the generation that it stepped from.
    pub fn live_neighbor_count(&self, row: u32, column: u32) -> (count: u8)
        requires
            row < self@.height(),
            column < self@.width(),
        ensures
            count == self@.last.live_neighbors(row as int, column as int),
    {
        let mut count: u8 = 0;

        let north = if row == 0 {
            self.height - 1
        } else {
            row - 1
        };

        let south = if row == self.height - 1 {
            0
        } else {
            row + 1
        };

        let west = if column == 0 {
            self.width - 1
        } else {
            column - 1
        };

        let east = if column == self.width - 1 {
            0
        } else {
            column + 1
        };

        count += self.last_count(north, west);

        count += self.last_count(north, column);

        count += self.last_count(north, east);

        count += self.last_count(row, west);

        count += self.last_count(row, east);

        count += self.last_count(south, west);

        count += self.last_count(south, column);

        count += self.last_count(south, east);

        proof {
            lemma_neighbors(
                self@.last,
                row as int,
                column as int,
                north as int,
                south as int,
                west as int,
                east as int,
            );
        }
        count
    }

    /// Advances the simulation by one generation.
    ///
    /// The two buffers exchange roles, and every cell of the new generation
    /// is computed from the generation that was shown before the call.
    pub fn tick(&mut self)
        ensures
            final(self)@ == old(self)@.tick(),
            final(self)@.wf(),
    {
        proof {
            use_type_invariant(&*self);
        }
        std::mem::swap(&mut self.last_generation, &mut self.next_generation);

        let width = self.width;
        let height = self.height;
        let ghost before = old(self)@.next;
        let ghost after = before.step();
        for row in 0..height
            invariant
                width == self.width == old(self).width,
                height == self.height == old(self).height,
                self.last_generation@ == old(self).next_generation@,
                self.last_generation@.len() == width * height,
                self.next_generation@.len() == width * height,
                width * height <= u32::MAX,
                before == old(self)@.next,
                after == before.step(),
                forall|i: int| 0 <= i < row * width ==> self.next_generation@[i] == after.cells[i],
        {
            for col in 0..width
                invariant
                    row < height,
                    width == self.width == old(self).width,
                    height == self.height == old(self).height,
                    self.last_generation@ == old(self).next_generation@,
                    self.last_generation@.len() == width * height,
                    self.next_generation@.len() == width * height,
                    width * height <= u32::MAX,
                    before == old(self)@.next,
                    after == before.step(),
                    forall|i: int|
                        0 <= i < row * width + col ==> self.next_generation@[i] == after.cells[i],
            {
                let idx = self.get_index(row, col);
                let cell = self.last_generation[idx];
                let live_neighbors = self.live_neighbor_count(row, col);

                let next_cell = match (cell, live_neighbors) {
                    (_, 3) => Cell::Alive,
                    (Cell::Alive, 2) => Cell::Alive,
                    _ => Cell::Dead,
                };

                proof {
                    lemma_at_inside(before, row as int, col as int);
                    lemma_index_row_col(row as int, col as int, width as int);
                }
                self.next_generation[idx] = next_cell;
            }
            proof {
                assert((row + 1) * width == row * width + width) by (nonlinear_arith);
            }
        }
        proof {
            assert(self.next_generation@ =~= after.cells);
        }
    }

    /// Draws the generation shown into `buffer`, four bytes to a cell in
    /// row-major order: opaque black for a living cell, opaque white for a
    /// dead one.
    ///
    /// A buffer of at least `4 * width * height` bytes receives the whole
    /// frame. A shorter one receives as many whole pixels as it holds. Bytes
    /// behind the last pixel drawn are left as they were.
    pub fn render_into(&self, buffer: &mut [u8])
        ensures
            final(buffer)@ == self@.next.render_over(old(buffer)@),
    {
        let pixels = buffer.len() / 4;
        let cells = self.next_generation.len();
        let shown = if cells <= pixels {
            cells
        } else {
            pixels
        };
        let mut i: usize = 0;
        while i < shown
            invariant
                i <= shown,
                shown == self@.next.shown(old(buffer)@.len()),
                shown <= self.next_generation@.len(),
                4 * shown <= buffer@.len() <= usize::MAX,
                buffer@.len() == old(buffer)@.len(),
                forall|k: int|
                    0 <= k < 4 * i ==> buffer@[k] == self.next_generation@[k / 4].pixel()[k % 4],
                forall|k: int| 4 * i <= k < buffer@.len() ==> buffer@[k] == old(buffer)@[k],
            decreases shown - i,
        {
            let pixel = self.next_generation[i].pixel_bytes();
            let base = 4 * i;
            buffer[base] = pixel[0];
            buffer[base + 1] = pixel[1];
            buffer[base + 2] = pixel[2];
            buffer[base + 3] = pixel[3];
            i += 1;
        }
    }

    /// The number of columns. As of every universe, the view is well formed.
    pub fn width(&self) -> (width: u32)
        ensures
            width == self@.width(),
            self@.wf(),
    {
        proof {
            use_type_invariant(self);
        }
        self.width
    }

    /// The number of rows. As of every universe, the view is well formed.
    pub fn height(&self) -> (height: u32)
        ensures
            height == self@.height(),
            self@.wf(),
    {
        proof {
            use_type_invariant(self);
        }
        self.height
    }

    /// Makes every cell of the generation shown dead.
    pub fn clear(&mut self)
        ensures
            final(self)@ == old(self)@.clear(),
            final(self)@.wf(),
    {
        proof {
            use_type_invariant(&*self);
        }
        let count: u32 = self.width * self.height;
        let mut cells: Vec<Cell> = Vec::new();
        let mut i: u32 = 0;
        while i < count
            invariant
                i <= count,
                cells@.len() == i,
                forall|j: int| 0 <= j < i ==> cells@[j] == Cell::Dead,
            decreases count - i,
        {
            cells.push(Cell::Dead);
            i += 1;
        }
        proof {
            assert(cells@ =~= old(self)@.next.cleared().cells);
        }
        self.next_generation = cells;
    }

    /// Makes the cell at each `(row, column)` pair of `cells` alive in the
    /// generation shown.
    ///
    /// Every pair must name a position of the grid.
    pub fn set_cells(&mut self, cells: &[(u32, u32)])
        requires
            forall|k: int|
                0 <= k < cells@.len() ==> old(self)@.next.contains(
                    (#[trigger] cells@[k]).0 as int,
                    cells@[k].1 as int,
                ),
        ensures
            final(self)@ == old(self)@.set_cells(cells@),
            final(self)@.wf(),
    {
        proof {
            use_type_invariant(&*self);
        }
        let ghost before = old(self)@.next;
        for k in 0..cells.len()
            invariant
                self.width == old(self).width,
                self.height == old(self).height,
                self.last_generation@ == old(self).last_generation@,
                self.last_generation@.len() == self.width * self.height,
                self.next_generation@.len() == self.width * self.height,
                self.width * self.height <= u32::MAX,
                before == old(self)@.next,
                forall|j: int|
                    0 <= j < cells@.len() ==> before.contains(
                        (#[trigger] cells@[j]).0 as int,
                        cells@[j].1 as int,
                    ),
                self.next_generation@ == before.with_alive(cells@.take(k as int)).cells,
        {
            let (row, col) = cells[k];
            let idx = self.get_index(row, col);
            proof {
                assert forall|i: int| 0 <= i < before.cells.len() implies (before.names(
                    cells@.take(k + 1),
                    i,
                ) <==> before.names(cells@.take(k as int), i) || i == idx) by {
                    lemma_names_one_more(before, cells@, k as int, i);
                }
            }
            self.next_generation[idx] = Cell::Alive;
        }
        proof {
            assert(cells@.take(cells@.len() as int) =~= cells@);
        }
    }
}

} // verus!
