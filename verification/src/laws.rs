//! Properties of the model that hold of every grid and of every pattern
//! text.

use vstd::prelude::*;
use vstd::arithmetic::div_mod::{lemma_add_mod_noop_right, lemma_mod_bound};
use crate::cell::Cell;
use crate::grid::{
    lemma_flips_below, lemma_index, lemma_position, replay, replayed, used_from, wrap_next,
    wrap_prev, Grid, MAX_CELLS, UNUSED,
};
use crate::pattern::{
    in_comment, lemma_comment_line, live_cells, live_cells_below, COMMENT, LIVE, NEWLINE,
};

verus! {

/// The edges of the grid are joined: the neighbours of a row and of a column
/// are the rows and columns one less and one more, taken modulo the height
/// and the width. Above the first row lies the last, and going up and then
/// down, or left and then right, leads back.
pub proof fn lemma_wraparound(g: Grid, row: int, col: int)
    requires
        g.wf(),
        g.contains(row, col),
    ensures
        g.north(row) == (row - 1) % (g.height as int),
        g.south(row) == (row + 1) % (g.height as int),
        g.west(col) == (col - 1) % (g.width as int),
        g.east(col) == (col + 1) % (g.width as int),
        g.north(0) == g.height - 1,
        g.west(0) == g.width - 1,
        g.index(g.north(0), 0) == g.index(g.height - 1, 0),
        g.south(g.north(row)) == row,
        g.north(g.south(row)) == row,
        g.east(g.west(col)) == col,
        g.west(g.east(col)) == col,
{
    lemma_ring_step(row, g.height as int);
    lemma_ring_step(col, g.width as int);
}

/// One step back and one step on around a ring of `n` positions are the
/// subtraction and the addition of one modulo `n`.
proof fn lemma_ring_step(i: int, n: int)
    requires
        0 <= i < n,
    ensures
        (if i == 0 {
            n - 1
        } else {
            i - 1
        }) == (i - 1) % n,
        (if i == n - 1 {
            0
        } else {
            i + 1
        }) == (i + 1) % n,
{
    if i == 0 {
        vstd::arithmetic::div_mod::lemma_mod_add_multiples_vanish(-1, n);
        vstd::arithmetic::div_mod::lemma_small_mod((n - 1) as nat, n as nat);
    } else {
        vstd::arithmetic::div_mod::lemma_small_mod((i - 1) as nat, n as nat);
    }
    if i == n - 1 {
        vstd::arithmetic::div_mod::lemma_mod_self_0(n);
    } else {
        vstd::arithmetic::div_mod::lemma_small_mod((i + 1) as nat, n as nat);
    }
}

/// Moving around a ring and stepping to a neighbour can be done in either
/// order.
proof fn lemma_shift_wrap(i: int, d: int, n: int)
    requires
        0 <= i < n,
    ensures
        0 <= (i - d) % n < n,
        wrap_prev((i - d) % n, n) == (wrap_prev(i, n) - d) % n,
        wrap_next((i - d) % n, n) == (wrap_next(i, n) - d) % n,
{
    lemma_mod_bound(i - d, n);
    lemma_ring_step(i, n);
    lemma_ring_step((i - d) % n, n);
    lemma_add_mod_noop_right(-1, i - d, n);
    lemma_add_mod_noop_right(-d, i - 1, n);
    assert(-1 + (i - d) == -d + (i - 1));
    lemma_add_mod_noop_right(1, i - d, n);
    lemma_add_mod_noop_right(-d, i + 1, n);
    assert(1 + (i - d) == -d + (i + 1));
}

/// The torus looks the same from every cell: a cell of a moved grid has as
/// many live neighbours as the cell that was moved onto it had.
pub proof fn lemma_shift_neighbors(g: Grid, down: int, right: int, row: int, col: int)
    requires
        g.wf(),
        g.contains(row, col),
    ensures
        g.contains((row - down) % (g.height as int), (col - right) % (g.width as int)),
        g.shifted(down, right).at(row, col) == g.at(
            (row - down) % (g.height as int),
            (col - right) % (g.width as int),
        ),
        g.shifted(down, right).live_neighbors(row, col) == g.live_neighbors(
            (row - down) % (g.height as int),
            (col - right) % (g.width as int),
        ),
{
    let s = g.shifted(down, right);
    lemma_shift_wrap(row, down, g.height as int);
    lemma_shift_wrap(col, right, g.width as int);
    lemma_neighbors_in_grid(g, row, col);
    lemma_index(g, row, col);
    lemma_index(g, g.north(row), g.west(col));
    lemma_index(g, g.north(row), col);
    lemma_index(g, g.north(row), g.east(col));
    lemma_index(g, row, g.west(col));
    lemma_index(g, row, g.east(col));
    lemma_index(g, g.south(row), g.west(col));
    lemma_index(g, g.south(row), col);
    lemma_index(g, g.south(row), g.east(col));
    assert(s.at(row, col) == g.at(
        (row - down) % (g.height as int),
        (col - right) % (g.width as int),
    ));
}

/// A step does the same to a grid wherever the grid lies on the torus:
/// moving a grid and then stepping it gives what stepping it and then moving
/// it gives.
pub proof fn lemma_shift_step(g: Grid, down: int, right: int)
    requires
        g.wf(),
    ensures
        g.shifted(down, right).step() == g.step().shifted(down, right),
{
    let h = g.height as int;
    let w = g.width as int;
    let s = g.shifted(down, right);
    assert forall|i: int| 0 <= i < g.cells.len() implies s.step().cells[i] == g.step().shifted(
        down,
        right,
    ).cells[i] by {
        let row = g.row_of(i);
        let col = g.col_of(i);
        lemma_position(g, i);
        lemma_shift_neighbors(g, down, right, row, col);
        lemma_index(g, (row - down) % h, (col - right) % w);
    }
    assert(s.step().cells =~= g.step().shifted(down, right).cells);
}

/// The eight neighbours of a cell of the grid are cells of the grid.
pub proof fn lemma_neighbors_in_grid(g: Grid, row: int, col: int)
    requires
        g.wf(),
        g.contains(row, col),
    ensures
        g.contains(g.north(row), g.west(col)),
        g.contains(g.north(row), col),
        g.contains(g.north(row), g.east(col)),
        g.contains(row, g.west(col)),
        g.contains(row, g.east(col)),
        g.contains(g.south(row), g.west(col)),
        g.contains(g.south(row), col),
        g.contains(g.south(row), g.east(col)),
        0 <= g.live_neighbors(row, col) <= 8,
{
}

/// A step keeps the dimensions and the number of cells.
pub proof fn lemma_step_wf(g: Grid)
    requires
        g.wf(),
    ensures
        g.step().wf(),
        g.step().width == g.width,
        g.step().height == g.height,
{
}

/// A grid without a live cell is at rest: a step leaves it as it is, no cell
/// flips, and every slot of the change list is unused.
pub proof fn lemma_dead_grid_is_still(g: Grid)
    requires
        g.wf(),
        g.all_dead(),
    ensures
        g.step() == g,
        g.flipped() == Seq::<int>::empty(),
        g.diff() == Seq::new(g.cells.len(), |j: int| UNUSED),
{
    assert forall|i: int| 0 <= i < g.cells.len() implies g.step().cells[i] == Cell::Dead by {
        let row = g.row_of(i);
        let col = g.col_of(i);
        lemma_position(g, i);
        lemma_neighbors_in_grid(g, row, col);
        lemma_index(g, g.north(row), g.west(col));
        lemma_index(g, g.north(row), col);
        lemma_index(g, g.north(row), g.east(col));
        lemma_index(g, row, g.west(col));
        lemma_index(g, row, g.east(col));
        lemma_index(g, g.south(row), g.west(col));
        lemma_index(g, g.south(row), col);
        lemma_index(g, g.south(row), g.east(col));
    }
    assert(g.step().cells =~= g.cells);
    lemma_no_flips(g, g.cells.len() as int);
    assert(g.diff() =~= Seq::new(g.cells.len(), |j: int| UNUSED));
}

/// Where a step changes no cell below `n`, no position below `n` is listed as
/// flipped.
proof fn lemma_no_flips(g: Grid, n: int)
    requires
        0 <= n <= g.cells.len(),
        g.step().cells == g.cells,
    ensures
        g.flips_below(n) == Seq::<int>::empty(),
    decreases n,
{
    if n > 0 {
        lemma_no_flips(g, n - 1);
    }
}

/// Clearing a grid leaves it without a live cell, so that the cleared grid is
/// at rest: the step that follows changes nothing and reports no change.
pub proof fn lemma_cleared_grid_is_still(g: Grid)
    requires
        g.wf(),
    ensures
        g.cleared().wf(),
        g.cleared().all_dead(),
        g.cleared().step() == g.cleared(),
        g.cleared().diff() == Seq::new(g.cells.len(), |j: int| UNUSED),
{
    lemma_dead_grid_is_still(g.cleared());
}

/// Clearing twice is clearing once.
pub proof fn lemma_clear_idempotent(g: Grid)
    ensures
        g.cleared().cleared() == g.cleared(),
{
    assert(g.cleared().cleared().cells =~= g.cleared().cells);
}

/// A grid of positive dimensions made by a resize is well formed and has no
/// live cell, and so is at rest.
pub proof fn lemma_blank_grid(width: nat, height: nat)
    requires
        width > 0,
        height > 0,
    ensures
        Grid::blank(width, height).wf(),
        Grid::blank(width, height).all_dead(),
        Grid::blank(width, height).step() == Grid::blank(width, height),
{
    lemma_dead_grid_is_still(Grid::blank(width, height));
}

/// The flipped positions are exactly the positions whose cells change state
/// in the step.
pub proof fn lemma_flipped_exact(g: Grid, i: int)
    requires
        0 <= i < g.cells.len(),
    ensures
        g.flips(i) <==> exists|j: int| 0 <= j < g.flipped().len() && g.flipped()[j] == i,
{
    let n = g.cells.len() as int;
    lemma_flips_below_exact(g, n, i);
    if g.flips(i) {
        let j = choose|j: int| 0 <= j < g.flips_below(n).len() && g.flips_below(n)[j] == i;
        assert(g.flipped()[j] == i);
    }
    if exists|j: int| 0 <= j < g.flipped().len() && g.flipped()[j] == i {
        let j = choose|j: int| 0 <= j < g.flipped().len() && g.flipped()[j] == i;
        assert(g.flips_below(n)[j] == i);
    }
}

/// The flipped positions below `n` are exactly the positions below `n` whose
/// cells change state in the step.
proof fn lemma_flips_below_exact(g: Grid, n: int, i: int)
    requires
        0 <= i,
        0 <= n,
    ensures
        (i < n && g.flips(i)) <==> exists|j: int|
            0 <= j < g.flips_below(n).len() && g.flips_below(n)[j] == i,
    decreases n,
{
    if n > 0 {
        lemma_flips_below_exact(g, n - 1, i);
        lemma_flips_below(g, n - 1);
        let prior = g.flips_below(n - 1);
        let now = g.flips_below(n);
        if g.flips(n - 1) {
            assert(now == prior.push(n - 1));
            if i == n - 1 {
                assert(now[prior.len() as int] == i);
            } else if i < n - 1 && g.flips(i) {
                let j = choose|j: int| 0 <= j < prior.len() && prior[j] == i;
                assert(now[j] == i);
            }
            if exists|j: int| 0 <= j < now.len() && now[j] == i {
                let j = choose|j: int| 0 <= j < now.len() && now[j] == i;
                if j < prior.len() {
                    assert(prior[j] == i);
                }
            }
        }
    }
}

/// The flipped positions below `n` begin the flipped positions below any
/// larger bound.
proof fn lemma_flips_prefix(g: Grid, n: int, m: int)
    requires
        0 <= n <= m,
    ensures
        g.flips_below(n).len() <= g.flips_below(m).len(),
        forall|j: int|
            0 <= j < g.flips_below(n).len() ==> g.flips_below(m)[j] == g.flips_below(n)[j],
    decreases m - n,
{
    if n < m {
        lemma_flips_prefix(g, n, m - 1);
    }
}

/// A reader of the change list of a step takes exactly the slots that hold
/// the flipped positions.
proof fn lemma_used_slots(g: Grid, j: int)
    requires
        g.cells.len() <= MAX_CELLS,
        0 <= j <= g.flipped().len(),
    ensures
        used_from(g.diff(), j) == g.flipped().len(),
    decreases g.flipped().len() - j,
{
    lemma_flips_below(g, g.cells.len() as int);
    if j < g.flipped().len() {
        lemma_used_slots(g, j + 1);
    }
}

/// Replaying the slots that list the flipped positions below `n` brings the
/// cells below `n` to their next state and leaves the others as they were.
proof fn lemma_replayed(g: Grid, n: int)
    requires
        g.cells.len() <= MAX_CELLS,
        0 <= n <= g.cells.len(),
    ensures
        replayed(g.cells, g.diff(), g.flips_below(n).len() as int).len() == g.cells.len(),
        forall|i: int|
            0 <= i < g.cells.len() ==> replayed(g.cells, g.diff(), g.flips_below(n).len() as int)[i]
                == if i < n {
                g.step().cells[i]
            } else {
                g.cells[i]
            },
    decreases n,
{
    if n > 0 {
        lemma_replayed(g, n - 1);
        lemma_flips_prefix(g, n, g.cells.len() as int);
        lemma_flips_below(g, n);
        lemma_flips_below(g, g.cells.len() as int);
        if g.flips(n - 1) {
            let k = g.flips_below(n - 1).len() as int;
            assert(g.flips_below(n)[k] == n - 1);
            assert(g.flipped()[k] == n - 1);
            assert(g.diff()[k] == n - 1);
            assert(g.flips_below(n).len() == k + 1);
        }
    }
}

/// The change list is complete and exact: flipping, in the grid as it was
/// before a step, the cells at the positions that a reader takes from the
/// change list of the step gives the grid as it is after the step.
pub proof fn lemma_replay_diff(g: Grid)
    requires
        g.wf(),
        g.cells.len() <= MAX_CELLS,
    ensures
        replay(g.cells, g.diff()) == g.step().cells,
{
    lemma_used_slots(g, 0);
    lemma_replayed(g, g.cells.len() as int);
    assert(replay(g.cells, g.diff()) =~= g.step().cells);
}

/// A text without a live marker denotes no live cell. The empty text is
/// such a text.
pub proof fn lemma_no_marker(text: Seq<u8>)
    requires
        forall|p: int| 0 <= p < text.len() ==> text[p] != LIVE,
    ensures
        live_cells(text).len() == 0,
{
    lemma_no_marker_below(text, text.len() as int);
}

/// The first `n` bytes of a text denote no live cell when none of them is a
/// live marker.
proof fn lemma_no_marker_below(text: Seq<u8>, n: int)
    requires
        0 <= n <= text.len(),
        forall|p: int| 0 <= p < n ==> text[p] != LIVE,
    ensures
        live_cells_below(text, n).len() == 0,
    decreases n,
{
    if n > 0 {
        lemma_no_marker_below(text, n - 1);
    }
}

/// A text that is one comment line denotes no live cell, whatever the
/// comment holds.
pub proof fn lemma_only_comment(text: Seq<u8>)
    requires
        text.len() > 0,
        text[0] == COMMENT,
        forall|p: int| 0 <= p < text.len() ==> text[p] != NEWLINE,
    ensures
        live_cells(text).len() == 0,
{
    lemma_comment_line(text, 0, text.len() as int);
}

/// A live marker on a line that is no comment denotes a live cell: a text
/// that holds one is accepted.
pub proof fn lemma_marker_gives_cell(text: Seq<u8>, p: int)
    requires
        0 <= p < text.len(),
        text[p] == LIVE,
        !in_comment(text, p),
    ensures
        live_cells(text).len() > 0,
{
    lemma_cells_grow(text, p + 1, text.len() as int);
}

/// The live cells denoted by a longer part of a text are no fewer.
proof fn lemma_cells_grow(text: Seq<u8>, n: int, m: int)
    requires
        0 <= n <= m,
    ensures
        live_cells_below(text, n).len() <= live_cells_below(text, m).len(),
    decreases m - n,
{
    if n < m {
        lemma_cells_grow(text, n, m - 1);
    }
}

} // verus!
