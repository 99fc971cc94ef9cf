//! What holds of the model: facts about seeding, stepping, the torus,
//! rendering, clearing and reviving cells, each proved of every grid.

use crate::cell::Cell;
use crate::generation::{
    lemma_at_inside, lemma_index_bounds, lemma_index_row_col, lemma_row_col_bounds, lemma_wrap,
    Generation,
};
use crate::universe::UniverseView;
use vstd::prelude::*;

verus! {

/// The seed depends on the dimensions alone: a universe seeded with `width`
/// by `height` cells is well formed, and in both of its generations the cell
/// at flat position `i` is alive exactly when `i` is a multiple of 2 or of 7.
pub proof fn theorem_seed_pattern(width: nat, height: nat, i: int)
    requires
        0 <= i < width * height,
    ensures
        UniverseView::seeded(width, height).wf(),
        UniverseView::seeded(width, height).width() == width,
        UniverseView::seeded(width, height).height() == height,
        UniverseView::seeded(width, height).next.cells[i] == Cell::Alive <==> i % 2 == 0 || i % 7
            == 0,
        UniverseView::seeded(width, height).last == UniverseView::seeded(width, height).next,
{
}

/// The rule of the game: a cell is alive in the next generation exactly when
/// it has three living neighbours, or is alive and has two.
pub proof fn theorem_rule(cell: Cell, live_neighbors: nat)
    ensures
        cell.successor(live_neighbors) == Cell::Alive <==> live_neighbors == 3 || (cell
            == Cell::Alive && live_neighbors == 2),
        cell.successor(live_neighbors) == Cell::Dead <==> !(live_neighbors == 3 || (cell
            == Cell::Alive && live_neighbors == 2)),
{
}

/// A step keeps the dimensions, and puts at every position the successor of
/// the cell that was there, decided by that cell and its eight neighbours in
/// the generation stepped from.
pub proof fn theorem_step_applies_rule(g: Generation, row: int, col: int)
    requires
        g.wf(),
        g.contains(row, col),
    ensures
        g.step().wf(),
        g.step().width == g.width,
        g.step().height == g.height,
        g.step().at(row, col) == g.at(row, col).successor(g.live_neighbors(row, col)),
{
    lemma_index_bounds(row, col, g.width as int, g.height as int);
    lemma_index_row_col(row, col, g.width as int);
    lemma_at_inside(g.step(), row, col);
}

/// A cell's successor depends on nothing but the cell and its eight
/// neighbours: two generations that agree on those nine places agree, one
/// step later, on the place in the middle.
pub proof fn theorem_step_is_local(a: Generation, b: Generation, row: int, col: int)
    requires
        a.wf(),
        b.wf(),
        a.width == b.width,
        a.height == b.height,
        a.contains(row, col),
        forall|r: int, c: int|
            row - 1 <= r <= row + 1 && col - 1 <= c <= col + 1 ==> a.at(r, c) == b.at(r, c),
    ensures
        a.step().at(row, col) == b.step().at(row, col),
{
    theorem_step_applies_rule(a, row, col);
    theorem_step_applies_rule(b, row, col);
}

/// Every pair of integers names a cell of a grid that has any: the torus has
/// no edge.
pub proof fn theorem_torus_has_no_edge(g: Generation, row: int, col: int)
    requires
        g.wf(),
        g.width > 0,
        g.height > 0,
    ensures
        g.contains(row % (g.height as int), col % (g.width as int)),
        0 <= g.index(row % (g.height as int), col % (g.width as int)) < g.cells.len(),
        g.at(row, col) == g.at(row % (g.height as int), col % (g.width as int)),
{
    let r = row % (g.height as int);
    let c = col % (g.width as int);
    vstd::arithmetic::div_mod::lemma_mod_bound(row, g.height as int);
    vstd::arithmetic::div_mod::lemma_mod_bound(col, g.width as int);
    lemma_index_bounds(r, c, g.width as int, g.height as int);
    vstd::arithmetic::div_mod::lemma_small_mod(r as nat, g.height);
    vstd::arithmetic::div_mod::lemma_small_mod(c as nat, g.width);
}

/// The edges of the grid are joined: the row above the first is the last,
/// the row below the last is the first, and likewise for the columns.
pub proof fn theorem_edges_are_joined(g: Generation, row: int, col: int)
    requires
        g.wf(),
        g.contains(row, col),
    ensures
        g.at(-1, col) == g.at(g.height - 1, col),
        g.at(g.height as int, col) == g.at(0, col),
        g.at(row, -1) == g.at(row, g.width - 1),
        g.at(row, g.width as int) == g.at(row, 0),
        g.at(row + g.height, col) == g.at(row, col),
        g.at(row, col + g.width) == g.at(row, col),
{
    let h = g.height as int;
    let w = g.width as int;
    lemma_wrap(0, h);
    lemma_wrap(h - 1, h);
    lemma_wrap(0, w);
    lemma_wrap(w - 1, w);
    vstd::arithmetic::div_mod::lemma_mod_add_multiples_vanish(row, h);
    vstd::arithmetic::div_mod::lemma_mod_add_multiples_vanish(col, w);
}

/// A grid with no living cell has none one step later.
pub proof fn theorem_dead_grid_stays_dead(g: Generation)
    requires
        g.wf(),
        forall|i: int| 0 <= i < g.cells.len() ==> g.cells[i] == Cell::Dead,
    ensures
        forall|i: int| 0 <= i < g.cells.len() ==> g.step().cells[i] == Cell::Dead,
{
    assert forall|i: int| 0 <= i < g.cells.len() implies g.step().cells[i] == Cell::Dead by {
        lemma_row_col_bounds(i, g.width as int, g.height as int);
        let row = i / (g.width as int);
        let col = i % (g.width as int);
        lemma_all_around(g, Cell::Dead, row, col);
    }
}

/// A grid with no dead cell has no living cell one step later: each cell has
/// eight living neighbours.
pub proof fn theorem_full_grid_dies(g: Generation)
    requires
        g.wf(),
        forall|i: int| 0 <= i < g.cells.len() ==> g.cells[i] == Cell::Alive,
    ensures
        forall|i: int| 0 <= i < g.cells.len() ==> g.step().cells[i] == Cell::Dead,
{
    assert forall|i: int| 0 <= i < g.cells.len() implies g.step().cells[i] == Cell::Dead by {
        lemma_row_col_bounds(i, g.width as int, g.height as int);
        let row = i / (g.width as int);
        let col = i % (g.width as int);
        lemma_all_around(g, Cell::Alive, row, col);
    }
}

/// In a grid whose cells are all in one state, a cell and its eight
/// neighbours are in that state.
proof fn lemma_all_around(g: Generation, state: Cell, row: int, col: int)
    requires
        g.wf(),
        g.width > 0,
        g.height > 0,
        forall|i: int| 0 <= i < g.cells.len() ==> g.cells[i] == state,
    ensures
        g.at(row, col) == state,
        g.live_neighbors(row, col) == 8 * state.count(),
{
    theorem_torus_has_no_edge(g, row, col);
    theorem_torus_has_no_edge(g, row - 1, col - 1);
    theorem_torus_has_no_edge(g, row - 1, col);
    theorem_torus_has_no_edge(g, row - 1, col + 1);
    theorem_torus_has_no_edge(g, row, col - 1);
    theorem_torus_has_no_edge(g, row, col + 1);
    theorem_torus_has_no_edge(g, row + 1, col - 1);
    theorem_torus_has_no_edge(g, row + 1, col);
    theorem_torus_has_no_edge(g, row + 1, col + 1);
}

/// A tick reads only the generation shown: two universes that show the same
/// generation are the same after a tick, whatever their other buffers held,
/// and the generation read from is afterwards the one that was shown.
pub proof fn theorem_tick_reads_only_shown(a: UniverseView, b: UniverseView)
    requires
        a.next == b.next,
    ensures
        a.tick() == b.tick(),
        a.tick().last == a.next,
        a.tick().next == a.next.step(),
{
}

/// Within one tick no cell sees another cell's new state: the cell shown at
/// a position after the tick is the successor of the cell shown there before
/// it, decided by the neighbours that were shown before it.
pub proof fn theorem_tick_counts_neighbors_before(v: UniverseView, row: int, col: int)
    requires
        v.wf(),
        v.next.contains(row, col),
    ensures
        v.tick().next.at(row, col) == v.next.at(row, col).successor(
            v.next.live_neighbors(row, col),
        ),
        v.tick().last.at(row, col) == v.next.at(row, col),
        v.tick().last.live_neighbors(row, col) == v.next.live_neighbors(row, col),
{
    theorem_step_applies_rule(v.next, row, col);
}

/// A tick keeps a universe well formed and of the same dimensions.
pub proof fn theorem_tick_keeps_shape(v: UniverseView)
    requires
        v.wf(),
    ensures
        v.tick().wf(),
        v.tick().width() == v.width(),
        v.tick().height() == v.height(),
{
}

/// A frame drawn into a buffer that is large enough shows every cell: the
/// four bytes of pixel `i` are opaque black if cell `i` is alive and opaque
/// white if it is dead. The buffer keeps its length, and the bytes behind the
/// frame keep their values.
pub proof fn theorem_render_shows_every_cell(g: Generation, buffer: Seq<u8>, i: int)
    requires
        buffer.len() >= 4 * g.cells.len(),
        0 <= i < g.cells.len(),
    ensures
        g.render_over(buffer).len() == buffer.len(),
        g.render_over(buffer).subrange(4 * i, 4 * i + 4) == g.cells[i].pixel(),
        g.cells[i] == Cell::Alive ==> g.cells[i].pixel() == seq![0u8, 0u8, 0u8, 0xffu8],
        g.cells[i] == Cell::Dead ==> g.cells[i].pixel() == seq![0xffu8, 0xffu8, 0xffu8, 0xffu8],
        forall|k: int|
            4 * g.cells.len() <= k < buffer.len() ==> g.render_over(buffer)[k] == buffer[k],
{
    assert(g.shown(buffer.len()) == g.cells.len());
    assert(g.render_over(buffer).subrange(4 * i, 4 * i + 4) =~= g.cells[i].pixel());
}

/// A frame drawn into a buffer that is too short shows the cells that fit:
/// a pixel for each whole group of four bytes, and no byte behind them
/// changed.
pub proof fn theorem_render_into_short_buffer(g: Generation, buffer: Seq<u8>, i: int)
    requires
        buffer.len() < 4 * g.cells.len(),
        0 <= i < buffer.len() / 4,
    ensures
        g.render_over(buffer).len() == buffer.len(),
        g.render_over(buffer).subrange(4 * i, 4 * i + 4) == g.cells[i].pixel(),
        forall|k: int|
            4 * (buffer.len() / 4) <= k < buffer.len() ==> g.render_over(buffer)[k] == buffer[k],
{
    assert(g.shown(buffer.len()) == buffer.len() / 4);
    assert(g.render_over(buffer).subrange(4 * i, 4 * i + 4) =~= g.cells[i].pixel());
}

/// Clearing twice is clearing once.
pub proof fn theorem_clear_is_idempotent(v: UniverseView)
    ensures
        v.clear().clear() == v.clear(),
{
}

/// Clearing keeps a universe well formed, keeps its dimensions and the
/// generation it reads from, and leaves no living cell in the one shown.
pub proof fn theorem_clear_kills_every_cell(v: UniverseView)
    requires
        v.wf(),
    ensures
        v.clear().wf(),
        v.clear().width() == v.width(),
        v.clear().height() == v.height(),
        v.clear().last == v.last,
        forall|i: int| 0 <= i < v.next.cells.len() ==> v.clear().next.cells[i] == Cell::Dead,
{
}

/// A cleared universe drawn into a buffer that is large enough gives a frame
/// of `4 * width * height` bytes that are all `0xff`: every pixel is white.
pub proof fn theorem_clear_renders_white(v: UniverseView, buffer: Seq<u8>)
    requires
        v.wf(),
        buffer.len() >= 4 * (v.width() * v.height()),
    ensures
        v.clear().next.render_over(buffer).len() == buffer.len(),
        forall|k: int|
            0 <= k < 4 * (v.width() * v.height()) ==> v.clear().next.render_over(buffer)[k]
                == 0xffu8,
{
    assert(v.clear().next.shown(buffer.len()) == v.next.cells.len());
}

/// Reviving cells never kills one: a cell is alive afterwards exactly when it
/// was alive before or one of the pairs names it. The dimensions and the
/// generation read from stay as they were.
pub proof fn theorem_set_cells_only_revives(v: UniverseView, coords: Seq<(u32, u32)>, i: int)
    requires
        v.wf(),
        0 <= i < v.next.cells.len(),
    ensures
        v.set_cells(coords).wf(),
        v.set_cells(coords).width() == v.width(),
        v.set_cells(coords).height() == v.height(),
        v.set_cells(coords).last == v.last,
        v.next.cells[i] == Cell::Alive ==> v.set_cells(coords).next.cells[i] == Cell::Alive,
        v.set_cells(coords).next.cells[i] == Cell::Alive <==> v.next.cells[i] == Cell::Alive
            || v.next.names(coords, i),
{
}

/// Reviving the cells of an empty list changes nothing.
pub proof fn theorem_set_cells_of_none(v: UniverseView)
    ensures
        v.set_cells(Seq::empty()) == v,
{
    assert(v.set_cells(Seq::empty()).next.cells =~= v.next.cells);
}

/// Reviving the cell at one position of the grid makes that cell alive and
/// changes no other.
pub proof fn theorem_set_cells_of_one(v: UniverseView, row: u32, col: u32, i: int)
    requires
        v.wf(),
        v.next.contains(row as int, col as int),
        0 <= i < v.next.cells.len(),
    ensures
        v.set_cells(seq![(row, col)]).next.at(row as int, col as int) == Cell::Alive,
        i != v.next.index(row as int, col as int) ==> v.set_cells(seq![(row, col)]).next.cells[i]
            == v.next.cells[i],
{
    let coords = seq![(row, col)];
    let after = v.set_cells(coords).next;
    let target = v.next.index(row as int, col as int);
    lemma_index_bounds(row as int, col as int, v.next.width as int, v.next.height as int);
    lemma_at_inside(after, row as int, col as int);
    assert(coords[0] == (row, col));
    assert(v.next.names(coords, target));
    if i != target && v.next.names(coords, i) {
        let k = choose|k: int|
            0 <= k < coords.len() && v.next.index(
                (#[trigger] coords[k]).0 as int,
                coords[k].1 as int,
            ) == i;
        assert(k == 0);
    }
}

} // verus!
