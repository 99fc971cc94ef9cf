//! The mathematical model of one generation: a torus of cells, the rule that
//! produces its successor, and the bytes that display it.

use crate::cell::Cell;
use vstd::prelude::*;

verus! {

/// The seed pattern: the cell at flat position `i` starts alive exactly when
/// `i` is a multiple of 2 or of 7.
pub open spec fn seed(i: int) -> Cell {
    if i % 2 == 0 || i % 7 == 0 {
        Cell::Alive
    } else {
        Cell::Dead
    }
}

/// One complete grid state: `height` rows of `width` cells each, stored row
/// after row.
pub struct Generation {
    pub width: nat,
    pub height: nat,
    pub cells: Seq<Cell>,
}

impl Generation {
    /// There is exactly one cell for each position.
    pub open spec fn wf(self) -> bool {
        self.cells.len() == self.width * self.height
    }

    /// Whether `(row, col)` names a position of the grid.
    pub open spec fn contains(self, row: int, col: int) -> bool {
        0 <= row < self.height && 0 <= col < self.width
    }

    /// The flat position of `(row, col)`.
    pub open spec fn index(self, row: int, col: int) -> int {
        row * self.width + col
    }

    /// The cell at `(row, col)` on the torus: rows count modulo `height` and
    /// columns modulo `width`, so every pair of integers names a cell.
    pub open spec fn at(self, row: int, col: int) -> Cell {
        self.cells[self.index(row % (self.height as int), col % (self.width as int))]
    }

    /// How many of the eight cells around `(row, col)` are alive.
    pub open spec fn live_neighbors(self, row: int, col: int) -> nat {
        self.at(row - 1, col - 1).count() + self.at(row - 1, col).count() + self.at(
            row - 1,
            col + 1,
        ).count() + self.at(row, col - 1).count() + self.at(row, col + 1).count() + self.at(
            row + 1,
            col - 1,
        ).count() + self.at(row + 1, col).count() + self.at(row + 1, col + 1).count()
    }

    /// The state of `(row, col)` one generation later.
    pub open spec fn successor_at(self, row: int, col: int) -> Cell {
        self.at(row, col).successor(self.live_neighbors(row, col))
    }

    /// The next generation: every cell replaced by its successor, each
    /// computed from this generation alone.
    pub open spec fn step(self) -> Generation {
        Generation {
            width: self.width,
            height: self.height,
            cells: Seq::new(
                self.cells.len(),
                |i: int| self.successor_at(i / (self.width as int), i % (self.width as int)),
            ),
        }
    }

    /// The seeded generation of the given dimensions.
    pub open spec fn seeded(width: nat, height: nat) -> Generation {
        Generation { width, height, cells: Seq::new(width * height, |i: int| seed(i)) }
    }

    /// The same grid with every cell dead.
    pub open spec fn cleared(self) -> Generation {
        Generation {
            width: self.width,
            height: self.height,
            cells: Seq::new(self.cells.len(), |i: int| Cell::Dead),
        }
    }

    /// Whether one of the coordinate pairs in `coords` names flat position `i`.
    pub open spec fn names(self, coords: Seq<(u32, u32)>, i: int) -> bool {
        exists|k: int|
            0 <= k < coords.len() && self.index(
                (#[trigger] coords[k]).0 as int,
                coords[k].1 as int,
            ) == i
    }

    /// The same grid with the cells named by `coords` alive and all others
    /// as they were.
    pub open spec fn with_alive(self, coords: Seq<(u32, u32)>) -> Generation {
        Generation {
            width: self.width,
            height: self.height,
            cells: Seq::new(
                self.cells.len(),
                |i: int|
                    if self.names(coords, i) {
                        Cell::Alive
                    } else {
                        self.cells[i]
                    },
            ),
        }
    }

    /// How many cells a frame drawn into a buffer of `buffer_len` bytes shows:
    /// all of them, or as many whole pixels as the buffer holds if that is fewer.
    pub open spec fn shown(self, buffer_len: nat) -> nat {
        if self.cells.len() <= buffer_len / 4 {
            self.cells.len()
        } else {
            buffer_len / 4
        }
    }

    /// The buffer after this generation is drawn over it: pixel `i` shows cell
    /// `i`, and the bytes behind the last pixel drawn keep their value.
    pub open spec fn render_over(self, buffer: Seq<u8>) -> Seq<u8> {
        Seq::new(
            buffer.len(),
            |k: int|
                if k < 4 * self.shown(buffer.len()) {
                    self.cells[k / 4].pixel()[k % 4]
                } else {
                    buffer[k]
                },
        )
    }
}

/// A position inside a `height` by `width` grid has a flat index below the
/// number of cells.
pub proof fn lemma_index_bounds(row: int, col: int, width: int, height: int)
    by (nonlinear_arith)
    requires
        0 <= row < height,
        0 <= col < width,
    ensures
        0 <= row * width + col < width * height,
        row * width + col < height * width,
{
}

/// The flat index of a position determines its row and its column.
pub proof fn lemma_index_row_col(row: int, col: int, width: int)
    requires
        0 <= row,
        0 <= col < width,
    ensures
        (row * width + col) / width == row,
        (row * width + col) % width == col,
{
    vstd::arithmetic::div_mod::lemma_fundamental_div_mod_converse(
        row * width + col,
        width,
        row,
        col,
    );
}

/// A flat index below the number of cells splits into a row and a column of
/// the grid.
pub proof fn lemma_row_col_bounds(i: int, width: int, height: int)
    requires
        0 <= i < width * height,
        0 <= width,
        0 <= height,
    ensures
        0 < width,
        0 <= i / width < height,
        0 <= i % width < width,
        (i / width) * width + i % width == i,
{
    assert(0 < width) by (nonlinear_arith)
        requires
            0 <= i < width * height,
            0 <= width,
            0 <= height,
    ;
    vstd::arithmetic::div_mod::lemma_fundamental_div_mod(i, width);
    vstd::arithmetic::div_mod::lemma_mod_bound(i, width);
    let q = i / width;
    let r = i % width;
    assert(0 <= q < height) by (nonlinear_arith)
        requires
            i == width * q + r,
            0 <= r < width,
            0 <= i < width * height,
            0 < width,
    ;
    assert(q * width == width * q) by (nonlinear_arith);
}

/// Stepping one place along an axis of length `n` from a position on it:
/// the ends are joined, and elsewhere the neighbour is the adjacent place.
pub proof fn lemma_wrap(x: int, n: int)
    requires
        0 <= x < n,
    ensures
        x % n == x,
        (x - 1) % n == if x == 0 {
            n - 1
        } else {
            x - 1
        },
        (x + 1) % n == if x == n - 1 {
            0
        } else {
            x + 1
        },
{
    vstd::arithmetic::div_mod::lemma_fundamental_div_mod_converse(x, n, 0, x);
    if x == 0 {
        vstd::arithmetic::div_mod::lemma_fundamental_div_mod_converse(x - 1, n, -1, n - 1);
    } else {
        vstd::arithmetic::div_mod::lemma_fundamental_div_mod_converse(x - 1, n, 0, x - 1);
    }
    if x == n - 1 {
        vstd::arithmetic::div_mod::lemma_fundamental_div_mod_converse(x + 1, n, 1, 0);
    } else {
        vstd::arithmetic::div_mod::lemma_fundamental_div_mod_converse(x + 1, n, 0, x + 1);
    }
}

/// One more coordinate pair names one more position, and otherwise the same
/// positions as before.
pub proof fn lemma_names_one_more(g: Generation, coords: Seq<(u32, u32)>, k: int, i: int)
    requires
        0 <= k < coords.len(),
    ensures
        g.names(coords.take(k + 1), i) <==> g.names(coords.take(k), i) || g.index(
            coords[k].0 as int,
            coords[k].1 as int,
        ) == i,
{
    let shorter = coords.take(k);
    let longer = coords.take(k + 1);
    if g.names(longer, i) {
        let j = choose|j: int|
            0 <= j < longer.len() && g.index((#[trigger] longer[j]).0 as int, longer[j].1 as int)
                == i;
        if j < k {
            assert(shorter[j] == longer[j]);
        }
    }
    if g.names(shorter, i) {
        let j = choose|j: int|
            0 <= j < shorter.len() && g.index(
                (#[trigger] shorter[j]).0 as int,
                shorter[j].1 as int,
            ) == i;
        assert(longer[j] == shorter[j]);
    }
    assert(longer[k] == coords[k]);
}

/// A position of the grid is its own place on the torus.
pub proof fn lemma_at_inside(g: Generation, row: int, col: int)
    requires
        g.contains(row, col),
    ensures
        g.at(row, col) == g.cells[g.index(row, col)],
{
    lemma_wrap(row, g.height as int);
    lemma_wrap(col, g.width as int);
}

/// Around a position of the grid, the torus's neighbours are the cells at
/// the adjacent rows and columns, where `north`, `south`, `west` and `east`
/// are those rows and columns with the grid's edges joined.
pub proof fn lemma_neighbors(
    g: Generation,
    row: int,
    col: int,
    north: int,
    south: int,
    west: int,
    east: int,
)
    requires
        g.contains(row, col),
        north == if row == 0 {
            g.height - 1
        } else {
            row - 1
        },
        south == if row == g.height - 1 {
            0
        } else {
            row + 1
        },
        west == if col == 0 {
            g.width - 1
        } else {
            col - 1
        },
        east == if col == g.width - 1 {
            0
        } else {
            col + 1
        },
    ensures
        0 <= north < g.height,
        0 <= south < g.height,
        0 <= west < g.width,
        0 <= east < g.width,
        g.at(row - 1, col - 1) == g.cells[g.index(north, west)],
        g.at(row - 1, col) == g.cells[g.index(north, col)],
        g.at(row - 1, col + 1) == g.cells[g.index(north, east)],
        g.at(row, col - 1) == g.cells[g.index(row, west)],
        g.at(row, col + 1) == g.cells[g.index(row, east)],
        g.at(row + 1, col - 1) == g.cells[g.index(south, west)],
        g.at(row + 1, col) == g.cells[g.index(south, col)],
        g.at(row + 1, col + 1) == g.cells[g.index(south, east)],
{
    lemma_wrap(row, g.height as int);
    lemma_wrap(col, g.width as int);
}

} // verus!
