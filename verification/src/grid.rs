//! The mathematical model of the grid: a torus of cells in row-major order,
//! the neighbourhood of a cell, and one generation step.

use vstd::prelude::*;
use vstd::arithmetic::div_mod::{
    lemma_add_mod_noop_right, lemma_mod_bound, lemma_small_mod, lemma_sub_mod_noop,
    lemma_sub_mod_noop_right,
};
use crate::cell::Cell;
use crate::pattern::PatternView;

verus! {

/// The value of a change-list slot that holds no position.
pub const UNUSED: i32 = -1;

/// The largest number of cells a grid may have: every position must fit in a
/// change-list slot.
pub const MAX_CELLS: usize = 2147483647;

/// The coordinate before `i` on a ring of `n` positions.
pub open spec fn wrap_prev(i: int, n: int) -> int {
    if i == 0 {
        n - 1
    } else {
        i - 1
    }
}

/// The coordinate after `i` on a ring of `n` positions.
pub open spec fn wrap_next(i: int, n: int) -> int {
    if i == n - 1 {
        0
    } else {
        i + 1
    }
}

/// A grid of `width` columns and `height` rows. The cell at (`row`, `col`)
/// is stored at position `row * width + col` of `cells`.
pub struct Grid {
    pub width: nat,
    pub height: nat,
    pub cells: Seq<Cell>,
}

impl Grid {
    /// Both dimensions are positive and there is one cell per position.
    pub open spec fn wf(self) -> bool {
        &&& self.width > 0
        &&& self.height > 0
        &&& self.cells.len() == self.width * self.height
    }

    /// Whether (`row`, `col`) names a cell of the grid.
    pub open spec fn contains(self, row: int, col: int) -> bool {
        0 <= row < self.height && 0 <= col < self.width
    }

    /// The storage position of the cell at (`row`, `col`).
    pub open spec fn index(self, row: int, col: int) -> int {
        row * self.width + col
    }

    /// The row of the cell stored at position `i`.
    pub open spec fn row_of(self, i: int) -> int {
        i / (self.width as int)
    }

    /// The column of the cell stored at position `i`.
    pub open spec fn col_of(self, i: int) -> int {
        i % (self.width as int)
    }

    /// The cell at (`row`, `col`).
    pub open spec fn at(self, row: int, col: int) -> Cell {
        self.cells[self.index(row, col)]
    }

    /// The row above `row`; above the first row lies the last.
    pub open spec fn north(self, row: int) -> int {
        wrap_prev(row, self.height as int)
    }

    /// The row below `row`; below the last row lies the first.
    pub open spec fn south(self, row: int) -> int {
        wrap_next(row, self.height as int)
    }

    /// The column left of `col`; left of the first column lies the last.
    pub open spec fn west(self, col: int) -> int {
        wrap_prev(col, self.width as int)
    }

    /// The column right of `col`; right of the last column lies the first.
    pub open spec fn east(self, col: int) -> int {
        wrap_next(col, self.width as int)
    }

    /// How many of the eight neighbours of (`row`, `col`) are alive. On a grid
    /// with fewer than three rows or columns some of the eight positions
    /// coincide, and a cell at such a position is counted once for each.
    pub open spec fn live_neighbors(self, row: int, col: int) -> int {
        self.at(self.north(row), self.west(col)).as_int()
            + self.at(self.north(row), col).as_int()
            + self.at(self.north(row), self.east(col)).as_int()
            + self.at(row, self.west(col)).as_int()
            + self.at(row, self.east(col)).as_int()
            + self.at(self.south(row), self.west(col)).as_int()
            + self.at(self.south(row), col).as_int()
            + self.at(self.south(row), self.east(col)).as_int()
    }

    /// The cell at (`row`, `col`) one generation later.
    pub open spec fn next_at(self, row: int, col: int) -> Cell {
        self.at(row, col).evolved(self.live_neighbors(row, col))
    }

    /// The grid one generation later: every cell is evolved from the cells
    /// of this grid, all at once.
    pub open spec fn step(self) -> Grid {
        Grid {
            width: self.width,
            height: self.height,
            cells: Seq::new(
                self.cells.len(),
                |i: int| self.next_at(self.row_of(i), self.col_of(i)),
            ),
        }
    }

    /// Whether the cell stored at position `i` changes state in the step.
    pub open spec fn flips(self, i: int) -> bool {
        self.step().cells[i] != self.cells[i]
    }

    /// The positions below `n` whose cells change state in the step, in
    /// increasing order.
    pub open spec fn flips_below(self, n: int) -> Seq<int>
        decreases n,
    {
        if n <= 0 {
            Seq::empty()
        } else if self.flips(n - 1) {
            self.flips_below(n - 1).push(n - 1)
        } else {
            self.flips_below(n - 1)
        }
    }

    /// All positions whose cells change state in the step, in increasing
    /// order.
    pub open spec fn flipped(self) -> Seq<int> {
        self.flips_below(self.cells.len() as int)
    }

    /// The change list of the step: one slot per cell, the flipped positions
    /// first and the sentinel in every slot after them.
    pub open spec fn diff(self) -> Seq<i32> {
        Seq::new(
            self.cells.len(),
            |j: int|
                if j < self.flipped().len() {
                    self.flipped()[j] as i32
                } else {
                    UNUSED
                },
        )
    }

    /// Whether every cell is dead.
    pub open spec fn all_dead(self) -> bool {
        forall|i: int| 0 <= i < self.cells.len() ==> self.cells[i] == Cell::Dead
    }

    /// The grid of the given dimensions with every cell dead.
    pub open spec fn blank(width: nat, height: nat) -> Grid {
        Grid { width, height, cells: Seq::new(width * height, |i: int| Cell::Dead) }
    }

    /// This grid with every cell dead.
    pub open spec fn cleared(self) -> Grid {
        Grid {
            width: self.width,
            height: self.height,
            cells: Seq::new(self.cells.len(), |i: int| Cell::Dead),
        }
    }

    /// This grid seeded from coin flips: cell `i` is what flip `i` makes of
    /// it, and a cell for which there is no flip is as it was.
    pub open spec fn seeded(self, flips: Seq<bool>) -> Grid {
        Grid {
            width: self.width,
            height: self.height,
            cells: Seq::new(
                self.cells.len(),
                |i: int|
                    if i < flips.len() {
                        Cell::of_coin(flips[i])
                    } else {
                        self.cells[i]
                    },
            ),
        }
    }

    /// Whether one of the first `n` of the given coordinates names the cell
    /// stored at position `i`.
    pub open spec fn named_below(self, coords: Seq<(u32, u32)>, i: int, n: int) -> bool {
        exists|k: int|
            0 <= k < n && self.index((#[trigger] coords[k]).0 as int, coords[k].1 as int) == i
    }

    /// This grid with the cells at the given coordinates alive and every
    /// other cell as it was.
    pub open spec fn with_alive(self, coords: Seq<(u32, u32)>) -> Grid {
        Grid {
            width: self.width,
            height: self.height,
            cells: Seq::new(
                self.cells.len(),
                |i: int|
                    if self.named_below(coords, i, coords.len() as int) {
                        Cell::Alive
                    } else {
                        self.cells[i]
                    },
            ),
        }
    }

    /// This grid moved `down` rows and `right` columns around the torus: the
    /// cell at (`row`, `col`) of the result is the cell that was `down` rows
    /// above and `right` columns to the left of it.
    pub open spec fn shifted(self, down: int, right: int) -> Grid {
        Grid {
            width: self.width,
            height: self.height,
            cells: Seq::new(
                self.cells.len(),
                |i: int|
                    self.at(
                        (self.row_of(i) - down) % (self.height as int),
                        (self.col_of(i) - right) % (self.width as int),
                    ),
            ),
        }
    }

    /// This grid with the cell at (`row`, `col`) flipped.
    pub open spec fn toggled(self, row: int, col: int) -> Grid {
        Grid {
            width: self.width,
            height: self.height,
            cells: self.cells.update(self.index(row, col), self.at(row, col).toggled()),
        }
    }
}

impl Grid {
    /// The row on which the first row of a pattern lands when the pattern is
    /// centred on `row`: half the pattern's row extent above it, wrapped.
    pub open spec fn anchor_row(self, p: PatternView, row: int) -> int {
        (row - p.width / 2) % (self.height as int)
    }

    /// The column on which the first column of a pattern lands when the
    /// pattern is centred on `col`: half the pattern's column extent to the
    /// left of it, wrapped.
    pub open spec fn anchor_col(self, p: PatternView, col: int) -> int {
        (col - p.height / 2) % (self.width as int)
    }

    /// The storage position on which live cell `k` of a pattern lands when
    /// the pattern is centred on (`row`, `col`).
    pub open spec fn target(self, p: PatternView, row: int, col: int, k: int) -> int {
        self.index(
            (self.anchor_row(p, row) + p.cells[k].0) % (self.height as int),
            (self.anchor_col(p, col) + p.cells[k].1) % (self.width as int),
        )
    }

    /// Whether one of the first `n` live cells of a pattern centred on
    /// (`row`, `col`) lands on storage position `i`.
    pub open spec fn lit_below(self, p: PatternView, row: int, col: int, i: int, n: int) -> bool {
        exists|k: int| 0 <= k < n && #[trigger] self.target(p, row, col, k) == i
    }

    /// Whether a live cell of a pattern centred on (`row`, `col`) lands on
    /// storage position `i`.
    pub open spec fn lit(self, p: PatternView, row: int, col: int, i: int) -> bool {
        self.lit_below(p, row, col, i, p.cells.len() as int)
    }

    /// Whether the cell at (`r`, `c`) lies in the first `rows` rows and the
    /// first `cols` columns that follow the anchor of a pattern centred on
    /// (`row`, `col`), going down and right around the torus.
    pub open spec fn within(
        self,
        p: PatternView,
        row: int,
        col: int,
        r: int,
        c: int,
        rows: int,
        cols: int,
    ) -> bool {
        &&& (r - self.anchor_row(p, row)) % (self.height as int) < rows
        &&& (c - self.anchor_col(p, col)) % (self.width as int) < cols
    }

    /// Whether storage position `i` lies in the bounding box of a pattern
    /// centred on (`row`, `col`).
    pub open spec fn boxed(self, p: PatternView, row: int, col: int, i: int) -> bool {
        self.within(p, row, col, self.row_of(i), self.col_of(i), p.width as int, p.height as int)
    }

    /// This grid with a pattern stamped onto it, centred on (`row`, `col`):
    /// where a live cell of the pattern lands the cell is alive, elsewhere in
    /// the pattern's bounding box it is dead, and outside the box it is as it
    /// was.
    pub open spec fn stamped(self, p: PatternView, row: int, col: int) -> Grid {
        Grid {
            width: self.width,
            height: self.height,
            cells: Seq::new(
                self.cells.len(),
                |i: int|
                    if self.lit(p, row, col, i) {
                        Cell::Alive
                    } else if self.boxed(p, row, col, i) {
                        Cell::Dead
                    } else {
                        self.cells[i]
                    },
            ),
        }
    }
}

/// The end of the used part of a change list for a reader that starts at
/// slot `j`: the first unused slot at or after `j`, or the length of the list
/// when every slot from `j` on is used.
pub open spec fn used_from(diff: Seq<i32>, j: int) -> int
    decreases diff.len() - j,
{
    if j >= diff.len() || diff[j] == UNUSED {
        j
    } else {
        used_from(diff, j + 1)
    }
}

/// The number of slots that a reader of a change list takes: the slots
/// before the first unused one.
pub open spec fn used_slots(diff: Seq<i32>) -> int {
    used_from(diff, 0)
}

/// The cells after the cells at the positions in the first `n` slots of a
/// change list have been flipped, one after the other.
pub open spec fn replayed(cells: Seq<Cell>, diff: Seq<i32>, n: int) -> Seq<Cell>
    decreases n,
{
    if n <= 0 {
        cells
    } else {
        let prior = replayed(cells, diff, n - 1);
        let i = diff[n - 1] as int;
        prior.update(i, prior[i].toggled())
    }
}

/// The cells that a reader of a change list arrives at from `cells`: every
/// position in the used part of the list is flipped.
pub open spec fn replay(cells: Seq<Cell>, diff: Seq<i32>) -> Seq<Cell> {
    replayed(cells, diff, used_slots(diff))
}

/// A cell inside the grid is stored inside the cell sequence, and its row and
/// column are recovered from its position by division and remainder.
pub proof fn lemma_index(g: Grid, row: int, col: int)
    requires
        g.wf(),
        g.contains(row, col),
    ensures
        0 <= g.index(row, col) < g.cells.len(),
        g.row_of(g.index(row, col)) == row,
        g.col_of(g.index(row, col)) == col,
{
    let w = g.width as int;
    let h = g.height as int;
    assert(row * w + col < w * h) by (nonlinear_arith)
        requires
            0 <= row < h,
            0 <= col < w,
    ;
    assert(0 <= row * w) by (nonlinear_arith)
        requires
            0 <= row,
            0 < w,
    ;
    vstd::arithmetic::div_mod::lemma_fundamental_div_mod_converse(row * w + col, w, row, col);
}

/// Every storage position is the position of exactly one cell of the grid.
pub proof fn lemma_position(g: Grid, i: int)
    requires
        g.wf(),
        0 <= i < g.cells.len(),
    ensures
        g.contains(g.row_of(i), g.col_of(i)),
        g.index(g.row_of(i), g.col_of(i)) == i,
{
    let w = g.width as int;
    let h = g.height as int;
    vstd::arithmetic::div_mod::lemma_fundamental_div_mod(i, w);
    vstd::arithmetic::div_mod::lemma_mod_bound(i, w);
    let q = i / w;
    let r = i % w;
    assert(i == w * q + r);
    assert(w * q == q * w) by (nonlinear_arith);
    assert(q >= 0) by (nonlinear_arith)
        requires
            w * q + r >= 0,
            0 <= r < w,
            w > 0,
    ;
    assert(q < h) by (nonlinear_arith)
        requires
            w * q + r < w * h,
            0 <= r,
            w > 0,
    ;
}

/// On a ring of `n` positions, position `c` lies `y` steps after `a` exactly
/// when the offset of `c` from `a`, taken around the ring, is `y`.
pub proof fn lemma_ring_offset(a: int, c: int, y: int, n: int)
    requires
        n > 0,
        0 <= c < n,
        0 <= y,
    ensures
        0 <= (c - a) % n < n,
        0 <= y % n <= y,
        c == (a + y) % n ==> (c - a) % n == y % n,
        (y < n && (c - a) % n == y) ==> c == (a + y) % n,
{
    lemma_mod_bound(c - a, n);
    lemma_mod_bound(y, n);
    vstd::arithmetic::div_mod::lemma_mod_decreases(y as nat, n as nat);
    if c == (a + y) % n {
        lemma_sub_mod_noop(a + y, a, n);
        lemma_sub_mod_noop_right((a + y) % n, a, n);
        assert((a + y) - a == y);
    }
    if y < n && (c - a) % n == y {
        lemma_add_mod_noop_right(a, c - a, n);
        assert(a + (c - a) == c);
        lemma_small_mod(c as nat, n as nat);
    }
}

/// Taking both operands around the ring first does not change their
/// difference around the ring.
pub proof fn lemma_ring_sub(a: int, b: int, n: int)
    requires
        n > 0,
    ensures
        (a % n + n - b % n) % n == (a - b) % n,
        0 <= a % n < n,
        0 <= b % n < n,
{
    lemma_mod_bound(a, n);
    lemma_mod_bound(b, n);
    lemma_sub_mod_noop(a, b, n);
    vstd::arithmetic::div_mod::lemma_mod_add_multiples_vanish(a % n - b % n, n);
    assert(n + (a % n - b % n) == a % n + n - b % n);
}

/// The flipped positions below `n` are at most `n`, lie in `0..n`, and are in
/// strictly increasing order.
pub proof fn lemma_flips_below(g: Grid, n: int)
    requires
        0 <= n,
    ensures
        g.flips_below(n).len() <= n,
        forall|j: int|
            0 <= j < g.flips_below(n).len() ==> 0 <= #[trigger] g.flips_below(n)[j] < n,
        forall|j: int, k: int|
            0 <= j < k < g.flips_below(n).len() ==> g.flips_below(n)[j] < g.flips_below(n)[k],
    decreases n,
{
    if n > 0 {
        lemma_flips_below(g, n - 1);
    }
}

} // verus!
