//! The executable universe: a grid that is stepped in place, with a spare
//! buffer for the next generation and a change list for incremental drawing.

use vstd::prelude::*;
use crate::cell::Cell;
use crate::coin::flip;
use crate::grid::{
    lemma_flips_below, lemma_index, lemma_position, lemma_ring_offset, lemma_ring_sub, replay,
    Grid, MAX_CELLS, UNUSED,
};
use crate::laws::lemma_replay_diff;
use crate::pattern::{Pattern, PatternView};
use crate::shapes::{glider, glider_shape, pulsar, pulsar_shape};

verus! {

/// The width of a newly created universe.
pub const DEFAULT_WIDTH: u32 = 120;

/// The height of a newly created universe.
pub const DEFAULT_HEIGHT: u32 = 120;

/// A toroidal grid of cells that advances one generation per
/// [`tick`](Universe::tick).
///
/// A universe is meant to have one owner: every mutator takes it by unique
/// reference and runs to completion.
pub struct Universe {
    width: u32,
    height: u32,
    cells: Vec<Cell>,
    buffer: Vec<Cell>,
    diff: Vec<i32>,
}

impl View for Universe {
    type V = Grid;

    closed spec fn view(&self) -> Grid {
        Grid { width: self.width as nat, height: self.height as nat, cells: self.cells@ }
    }
}

/// A vector of `n` dead cells.
fn dead_cells(n: usize) -> (cells: Vec<Cell>)
    ensures
        cells@ == Seq::new(n as nat, |i: int| Cell::Dead),
{
    let mut cells: Vec<Cell> = Vec::with_capacity(n);
    let mut i: usize = 0;
    while i < n
        invariant
            i <= n,
            cells@ == Seq::new(i as nat, |j: int| Cell::Dead),
        decreases n - i,
    {
        cells.push(Cell::Dead);
        i += 1;
    }
    cells
}

/// A change list of `n` slots, none of them used.
fn unused_slots(n: usize) -> (slots: Vec<i32>)
    ensures
        slots@ == Seq::new(n as nat, |j: int| UNUSED),
{
    let mut slots: Vec<i32> = Vec::with_capacity(n);
    let mut i: usize = 0;
    while i < n
        invariant
            i <= n,
            slots@ == Seq::new(i as nat, |j: int| UNUSED),
        decreases n - i,
    {
        slots.push(UNUSED);
        i += 1;
    }
    slots
}

/// Marks every slot of a change list as unused, keeping its length.
fn clear_slots(slots: &mut Vec<i32>)
    ensures
        final(slots)@ == Seq::new(old(slots)@.len(), |j: int| UNUSED),
{
    let n: usize = slots.len();
    let mut i: usize = 0;
    while i < n
        invariant
            i <= n,
            slots@.len() == n,
            forall|j: int| 0 <= j < i ==> slots@[j] == UNUSED,
        decreases n - i,
    {
        slots[i] = UNUSED;
        i += 1;
    }
}

/// The position `b` steps before `a` on a ring of `n` positions.
fn ring_sub(a: u32, b: u32, n: u32) -> (r: u32)
    requires
        n > 0,
    ensures
        r == (a - b) % (n as int),
        r < n,
{
    proof {
        lemma_ring_sub(a as int, b as int, n as int);
    }
    (((a % n) as u64 + n as u64 - (b % n) as u64) % (n as u64)) as u32
}

/// The position `b` steps after `a` on a ring of `n` positions.
fn ring_add(a: u32, b: u32, n: u32) -> (r: u32)
    requires
        n > 0,
    ensures
        r == (a + b) % (n as int),
        r < n,
{
    proof {
        vstd::arithmetic::div_mod::lemma_mod_bound(a + b, n as int);
    }
    ((a as u64 + b as u64) % (n as u64)) as u32
}

/// Whether storage position `i` has been cleared once the first `x` rows of
/// a pattern's bounding box, and the first `y` columns of the row after
/// them, have been.
spec fn covered(g: Grid, p: PatternView, row: int, col: int, i: int, x: int, y: int) -> bool {
    let r = g.row_of(i);
    let c = g.col_of(i);
    ||| g.within(p, row, col, r, c, x, p.height as int)
    ||| (r == (g.anchor_row(p, row) + x) % (g.height as int) && (c - g.anchor_col(p, col)) % (
    g.width as int) < y)
}

/// The cell at storage position `i` while the bounding box of a pattern is
/// being cleared: dead once covered, until then as it was in `g`.
spec fn half_cleared(g: Grid, p: PatternView, row: int, col: int, i: int, x: int, y: int) -> Cell {
    if covered(g, p, row, col, i, x, y) {
        Cell::Dead
    } else {
        g.cells[i]
    }
}

/// The cell at storage position `i` once the bounding box of a pattern has
/// been cleared and the first `n` live cells of the pattern have been set.
spec fn half_stamped(g: Grid, p: PatternView, row: int, col: int, i: int, n: int) -> Cell {
    if g.lit_below(p, row, col, i, n) {
        Cell::Alive
    } else if g.boxed(p, row, col, i) {
        Cell::Dead
    } else {
        g.cells[i]
    }
}

/// The cell at storage position `i` once the cells at the first `n` of the
/// given coordinates have been made alive.
spec fn half_set(g: Grid, coords: Seq<(u32, u32)>, i: int, n: int) -> Cell {
    if g.named_below(coords, i, n) {
        Cell::Alive
    } else {
        g.cells[i]
    }
}

/// Clearing one more cell of the bounding box covers that cell and no other.
proof fn lemma_cover_cell(g: Grid, p: PatternView, row: int, col: int, i: int, x: int, y: int)
    requires
        g.wf(),
        0 <= i < g.cells.len(),
        0 <= x,
        0 <= y < p.height,
    ensures
        covered(g, p, row, col, i, x, y + 1) == (covered(g, p, row, col, i, x, y) || i == g.index(
            (g.anchor_row(p, row) + x) % (g.height as int),
            (g.anchor_col(p, col) + y) % (g.width as int),
        )),
{
    let h = g.height as int;
    let w = g.width as int;
    let top = g.anchor_row(p, row);
    let left = g.anchor_col(p, col);
    let rx = (top + x) % h;
    let cy = (left + y) % w;
    vstd::arithmetic::div_mod::lemma_mod_bound(top + x, h);
    vstd::arithmetic::div_mod::lemma_mod_bound(left + y, w);
    lemma_position(g, i);
    lemma_index(g, rx, cy);
    lemma_ring_offset(left, g.col_of(i), y, w);
    lemma_ring_offset(top, g.row_of(i), x, h);
}

/// Once a row of the bounding box has been cleared, the rows up to and with
/// it have been.
proof fn lemma_cover_row(g: Grid, p: PatternView, row: int, col: int, i: int, x: int)
    requires
        g.wf(),
        0 <= i < g.cells.len(),
        0 <= x,
    ensures
        covered(g, p, row, col, i, x, p.height as int) == covered(g, p, row, col, i, x + 1, 0),
        !covered(g, p, row, col, i, 0, 0),
        covered(g, p, row, col, i, p.width as int, 0) == g.boxed(p, row, col, i),
{
    let h = g.height as int;
    let w = g.width as int;
    let top = g.anchor_row(p, row);
    let left = g.anchor_col(p, col);
    lemma_position(g, i);
    lemma_ring_offset(top, g.row_of(i), x, h);
    lemma_ring_offset(left, g.col_of(i), 0, w);
}

impl Universe {
    /// The change list left by the last [`tick`](Universe::tick).
    pub closed spec fn diff_view(&self) -> Seq<i32> {
        self.diff@
    }

    /// The invariant of a universe: its grid is well formed and small enough
    /// for every position to fit in a change-list slot, and the spare buffer
    /// and the change list have one entry per cell.
    pub closed spec fn wf(&self) -> bool {
        &&& self@.wf()
        &&& self.cells@.len() <= MAX_CELLS
        &&& self.buffer@.len() == self.cells@.len()
        &&& self.diff@.len() == self.cells@.len()
    }

    /// What the invariant says of the grid and of the change list.
    pub proof fn lemma_wf(&self)
        requires
            self.wf(),
        ensures
            self@.wf(),
            self@.width <= u32::MAX,
            self@.height <= u32::MAX,
            self@.cells.len() <= MAX_CELLS,
            self.diff_view().len() == self@.cells.len(),
    {
    }

    /// The state of the scan of [`tick`](Universe::tick) once the first `n`
    /// cells of `before` have been evolved into the spare buffer and their
    /// flips recorded in the first `k` slots of the change list.
    spec fn scanned(&self, before: Grid, n: int, k: int) -> bool {
        &&& self.wf()
        &&& self@ == before
        &&& 0 <= n <= before.cells.len()
        &&& k == before.flips_below(n).len()
        &&& forall|i: int| 0 <= i < n ==> self.buffer@[i] == before.step().cells[i]
        &&& forall|j: int| 0 <= j < k ==> self.diff@[j] == before.flips_below(n)[j]
        &&& forall|j: int| k <= j < self.diff@.len() ==> self.diff@[j] == UNUSED
    }

    /// A universe of the given dimensions with every cell dead and an unused
    /// change list.
    fn blank(width: u32, height: u32) -> (u: Universe)
        requires
            width > 0,
            height > 0,
            width * height <= MAX_CELLS,
        ensures
            u.wf(),
            u@ == Grid::blank(width as nat, height as nat),
            u.diff_view() == Seq::new((width * height) as nat, |j: int| UNUSED),
    {
        let size: usize = width as usize * height as usize;
        Universe {
            width,
            height,
            cells: dead_cells(size),
            buffer: dead_cells(size),
            diff: unused_slots(size),
        }
    }

    /// The state of [`insert_pattern`](Universe::insert_pattern) while it
    /// clears the bounding box: the cells covered so far are dead and the
    /// others are as they were in `before`.
    spec fn clearing(
        &self,
        before: Grid,
        p: PatternView,
        row: int,
        col: int,
        x: int,
        y: int,
    ) -> bool {
        &&& self.wf()
        &&& self@.width == before.width
        &&& self@.height == before.height
        &&& self.cells@.len() == before.cells.len()
        &&& forall|i: int|
            0 <= i < before.cells.len() ==> #[trigger] self.cells@[i] == half_cleared(
                before,
                p,
                row,
                col,
                i,
                x,
                y,
            )
    }

    /// The state of [`insert_pattern`](Universe::insert_pattern) while it
    /// sets the live cells: the positions on which the first `n` of them land
    /// are alive, the rest of the bounding box is dead and the other cells
    /// are as they were in `before`.
    spec fn stamping(&self, before: Grid, p: PatternView, row: int, col: int, n: int) -> bool {
        &&& self.wf()
        &&& self@.width == before.width
        &&& self@.height == before.height
        &&& self.cells@.len() == before.cells.len()
        &&& forall|i: int|
            0 <= i < before.cells.len() ==> #[trigger] self.cells@[i] == half_stamped(
                before,
                p,
                row,
                col,
                i,
                n,
            )
    }

    /// The storage position of the cell at (`row`, `column`).
    pub fn get_index(&self, row: u32, column: u32) -> (idx: usize)
        requires
            self.wf(),
            self@.contains(row as int, column as int),
        ensures
            idx == self@.index(row as int, column as int),
            idx < self@.cells.len(),
    {
        proof {
            lemma_index(self@, row as int, column as int);
        }
        (row * self.width + column) as usize
    }

    /// The cell at (`row`, `column`) as a number: 0 when dead, 1 when alive.
    fn value_at(&self, row: u32, column: u32) -> (value: u8)
        requires
            self.wf(),
            self@.contains(row as int, column as int),
        ensures
            value == self@.at(row as int, column as int).as_int(),
            value <= 1,
    {
        let idx: usize = self.get_index(row, column);
        self.cells[idx].value()
    }

    /// Counts the live cells among the eight neighbours of (`row`,
    /// `column`), wrapping around the edges of the grid.
    pub fn live_neighbor_count(&self, row: u32, column: u32) -> (count: u8)
        requires
            self.wf(),
            self@.contains(row as int, column as int),
        ensures
            count == self@.live_neighbors(row as int, column as int),
    {
        let north: u32 = if row == 0 { self.height - 1 } else { row - 1 };

        let south: u32 = if row == self.height - 1 { 0 } else { row + 1 };

        let west: u32 = if column == 0 { self.width - 1 } else { column - 1 };

        let east: u32 = if column == self.width - 1 { 0 } else { column + 1 };

        let mut count: u8 = self.value_at(north, west);
        count += self.value_at(north, column);
        count += self.value_at(north, east);
        count += self.value_at(row, west);
        count += self.value_at(row, east);
        count += self.value_at(south, west);
        count += self.value_at(south, column);
        count += self.value_at(south, east);
        count
    }

    /// Creates a universe of [`DEFAULT_WIDTH`] by [`DEFAULT_HEIGHT`] cells,
    /// each of them alive or dead by the flip of a coin, with an unused
    /// change list.
    pub fn new() -> (u: Universe)
        ensures
            u.wf(),
            u@.width == DEFAULT_WIDTH,
            u@.height == DEFAULT_HEIGHT,
            u.diff_view() == Seq::new((DEFAULT_WIDTH * DEFAULT_HEIGHT) as nat, |j: int| UNUSED),
    {
        let mut u = Universe::blank(DEFAULT_WIDTH, DEFAULT_HEIGHT);
        u.randomize();
        u
    }

    /// Sets every cell alive or dead by the flip of a fair coin, one flip
    /// per cell. The dimensions and the change list are left as they were.
    pub fn randomize(&mut self)
        requires
            old(self).wf(),
        ensures
            final(self).wf(),
            final(self)@.width == old(self)@.width,
            final(self)@.height == old(self)@.height,
            final(self).diff_view() == old(self).diff_view(),
    {
        let size: usize = self.cells.len();
        let mut flips: Vec<bool> = Vec::with_capacity(size);
        let mut i: usize = 0;
        while i < size
            invariant
                i <= size,
                flips@.len() == i,
            decreases size - i,
        {
            flips.push(flip());
            i += 1;
        }
        self.randomize_with(flips.as_slice());
    }

    /// Seeds the cells from the given coin flips, in storage order: heads
    /// (`true`) leaves a cell dead, tails makes it alive. A cell for which
    /// there is no flip is left as it was, and flips beyond the last cell are
    /// ignored. The change list is left as it was.
    pub fn randomize_with(&mut self, flips: &[bool])
        requires
            old(self).wf(),
        ensures
            final(self).wf(),
            final(self)@ == old(self)@.seeded(flips@),
            final(self).diff_view() == old(self).diff_view(),
    {
        let size: usize = self.cells.len();
        let mut i: usize = 0;
        while i < size && i < flips.len()
            invariant
                self.wf(),
                size == self.cells@.len(),
                self.cells@.len() == old(self).cells@.len(),
                self.width == old(self).width,
                self.height == old(self).height,
                self.diff@ == old(self).diff@,
                i <= size,
                i <= flips@.len(),
                forall|j: int| 0 <= j < i ==> self.cells@[j] == Cell::of_coin(flips@[j]),
                forall|j: int| i <= j < size ==> self.cells@[j] == old(self).cells@[j],
            decreases size - i,
        {
            self.cells[i] = Cell::from_coin(flips[i]);
            i += 1;
        }
        proof {
            assert(self.cells@ =~= old(self)@.seeded(flips@).cells);
        }
    }

    /// Kills every cell. The dimensions and the change list are left as they
    /// were.
    pub fn clear(&mut self)
        requires
            old(self).wf(),
        ensures
            final(self).wf(),
            final(self)@ == old(self)@.cleared(),
            final(self).diff_view() == old(self).diff_view(),
    {
        let size: usize = self.cells.len();
        let mut i: usize = 0;
        while i < size
            invariant
                self.wf(),
                size == self.cells@.len(),
                self.width == old(self).width,
                self.height == old(self).height,
                self.diff@ == old(self).diff@,
                i <= size,
                forall|j: int| 0 <= j < i ==> self.cells@[j] == Cell::Dead,
            decreases size - i,
        {
            self.cells[i] = Cell::Dead;
            i += 1;
        }
        proof {
            assert(self.cells@ =~= old(self)@.cleared().cells);
        }
    }

    /// Flips the cell at (`row`, `column`). Every other cell and the change
    /// list are left as they were.
    pub fn toggle_cell(&mut self, row: u32, column: u32)
        requires
            old(self).wf(),
            old(self)@.contains(row as int, column as int),
        ensures
            final(self).wf(),
            final(self)@ == old(self)@.toggled(row as int, column as int),
            final(self).diff_view() == old(self).diff_view(),
    {
        let idx: usize = self.get_index(row, column);
        let mut cell: Cell = self.cells[idx];
        cell.toggle();
        self.cells[idx] = cell;
    }

    /// Makes the cells at the given (row, column) coordinates alive. Every
    /// other cell and the change list are left as they were.
    pub fn set_cells(&mut self, cells: &[(u32, u32)])
        requires
            old(self).wf(),
            forall|k: int|
                0 <= k < cells@.len() ==> old(self)@.contains(
                    (#[trigger] cells@[k]).0 as int,
                    cells@[k].1 as int,
                ),
        ensures
            final(self).wf(),
            final(self)@ == old(self)@.with_alive(cells@),
            final(self).diff_view() == old(self).diff_view(),
    {
        let ghost before = self@;
        let mut k: usize = 0;
        while k < cells.len()
            invariant
                self.wf(),
                self@.width == before.width,
                self@.height == before.height,
                self.cells@.len() == before.cells.len(),
                self.diff@ == old(self).diff@,
                k <= cells@.len(),
                forall|j: int|
                    0 <= j < cells@.len() ==> before.contains(
                        (#[trigger] cells@[j]).0 as int,
                        cells@[j].1 as int,
                    ),
                forall|i: int|
                    0 <= i < before.cells.len() ==> #[trigger] self.cells@[i] == half_set(
                        before,
                        cells@,
                        i,
                        k as int,
                    ),
            decreases cells@.len() - k,
        {
            let (row, col): (u32, u32) = cells[k];
            let idx: usize = self.get_index(row, col);
            self.cells[idx] = Cell::Alive;
            proof {
                assert forall|i: int| 0 <= i < before.cells.len() implies before.named_below(
                    cells@,
                    i,
                    k + 1,
                ) == (before.named_below(cells@, i, k as int) || i == idx) by {
                    if i == idx {
                        assert(before.index(cells@[k as int].0 as int, cells@[k as int].1 as int)
                            == i);
                    }
                }
            }
            k += 1;
        }
        proof {
            assert(self.cells@ =~= before.with_alive(cells@).cells);
        }
    }

    /// Gives the universe `width` columns. Every cell is dead afterwards and
    /// the change list is unused, whatever the universe held before.
    pub fn set_width(&mut self, width: u32)
        requires
            old(self).wf(),
            width > 0,
            width * old(self)@.height <= MAX_CELLS,
        ensures
            final(self).wf(),
            final(self)@ == Grid::blank(width as nat, old(self)@.height),
            final(self).diff_view() == Seq::new(
                (width * old(self)@.height) as nat,
                |j: int| UNUSED,
            ),
    {
        *self = Universe::blank(width, self.height);
    }

    /// Gives the universe `height` rows. Every cell is dead afterwards and
    /// the change list is unused, whatever the universe held before.
    pub fn set_height(&mut self, height: u32)
        requires
            old(self).wf(),
            height > 0,
            old(self)@.width * height <= MAX_CELLS,
        ensures
            final(self).wf(),
            final(self)@ == Grid::blank(old(self)@.width, height as nat),
            final(self).diff_view() == Seq::new(
                (old(self)@.width * height) as nat,
                |j: int| UNUSED,
            ),
    {
        *self = Universe::blank(self.width, height);
    }

    /// The number of columns.
    pub fn width(&self) -> (width: u32)
        ensures
            width == self@.width,
    {
        self.width
    }

    /// The number of rows.
    pub fn height(&self) -> (height: u32)
        ensures
            height == self@.height,
    {
        self.height
    }

    /// The cells in storage order: row by row, each row from left to right.
    pub fn get_cells(&self) -> (cells: &[Cell])
        ensures
            cells@ == self@.cells,
    {
        self.cells.as_slice()
    }

    /// The cells in storage order as bytes, 0 for a dead cell and 1 for a
    /// live one: the form in which a host reads the grid to draw it.
    pub fn cells(&self) -> (bytes: Vec<u8>)
        ensures
            bytes@ == Seq::new(self@.cells.len(), |i: int| self@.cells[i].as_int() as u8),
    {
        let size: usize = self.cells.len();
        let mut bytes: Vec<u8> = Vec::with_capacity(size);
        let mut i: usize = 0;
        while i < size
            invariant
                size == self.cells@.len(),
                i <= size,
                bytes@ == Seq::new(i as nat, |j: int| self.cells@[j].as_int() as u8),
            decreases size - i,
        {
            bytes.push(self.cells[i].value());
            i += 1;
        }
        bytes
    }

    /// The change list of the last [`tick`](Universe::tick): one slot per
    /// cell, holding the positions of the cells that changed state in
    /// increasing order and [`UNUSED`] in every slot after them. A reader
    /// scans it up to the first unused slot, or to its end.
    pub fn diff(&self) -> (slots: &[i32])
        ensures
            slots@ == self.diff_view(),
    {
        self.diff.as_slice()
    }

    /// Stamps a pattern onto the grid, centred on (`row`, `column`).
    ///
    /// The centre of a pattern is half its row extent below and half its
    /// column extent right of its first cell, both halves rounded down. The
    /// pattern's bounding box is cleared first and its live cells are set
    /// after that, so that whatever the box held before is overwritten. Rows
    /// and columns wrap around the edges of the grid. The change list is left
    /// as it was.
    pub fn insert_pattern(&mut self, pattern: &Pattern, row: u32, column: u32)
        requires
            old(self).wf(),
            pattern.wf(),
        ensures
            final(self).wf(),
            final(self)@ == old(self)@.stamped(pattern@, row as int, column as int),
            final(self).diff_view() == old(self).diff_view(),
    {
        let ghost before = self@;
        let ghost p = pattern@;
        let rows: u32 = pattern.width();
        let cols: u32 = pattern.height();
        let top: u32 = ring_sub(row, rows / 2, self.height);
        let left: u32 = ring_sub(column, cols / 2, self.width);
        let mut x: u32 = 0;
        while x < rows
            invariant
                x <= rows,
                rows == p.width,
                cols == p.height,
                p == pattern@,
                self.diff@ == old(self).diff@,
                top == before.anchor_row(p, row as int),
                left == before.anchor_col(p, column as int),
                self.clearing(before, p, row as int, column as int, x as int, 0),
            decreases rows - x,
        {
            let mut y: u32 = 0;
            while y < cols
                invariant
                    x < rows,
                    rows == p.width,
                    cols == p.height,
                    y <= cols,
                    p == pattern@,
                    self.diff@ == old(self).diff@,
                    top == before.anchor_row(p, row as int),
                    left == before.anchor_col(p, column as int),
                    self.clearing(before, p, row as int, column as int, x as int, y as int),
                decreases cols - y,
            {
                let r: u32 = ring_add(top, x, self.height);
                let c: u32 = ring_add(left, y, self.width);
                let i: usize = self.get_index(r, c);
                self.cells[i] = Cell::Dead;
                proof {
                    let (row, col) = (row as int, column as int);
                    assert forall|j: int| 0 <= j < before.cells.len() implies #[trigger] self.cells@[j]
                        == half_cleared(before, p, row, col, j, x as int, y + 1) by {
                        lemma_cover_cell(before, p, row, col, j, x as int, y as int);
                    }
                }
                y += 1;
            }
            proof {
                let (row, col) = (row as int, column as int);
                assert forall|j: int| 0 <= j < before.cells.len() implies #[trigger] self.cells@[j]
                    == half_cleared(before, p, row, col, j, x + 1, 0) by {
                    lemma_cover_row(before, p, row, col, j, x as int);
                }
            }
            x += 1;
        }
        proof {
            let (row, col) = (row as int, column as int);
            assert forall|j: int| 0 <= j < before.cells.len() implies #[trigger] self.cells@[j]
                == half_stamped(before, p, row, col, j, 0) by {
                lemma_cover_row(before, p, row, col, j, 0);
            }
        }
        let alive_cells: &[(u32, u32)] = pattern.alive_cells();
        let mut k: usize = 0;
        while k < alive_cells.len()
            invariant
                k <= alive_cells@.len(),
                alive_cells@ == p.cells,
                self.diff@ == old(self).diff@,
                top == before.anchor_row(p, row as int),
                left == before.anchor_col(p, column as int),
                self.stamping(before, p, row as int, column as int, k as int),
            decreases alive_cells@.len() - k,
        {
            let (x, y): (u32, u32) = alive_cells[k];
            let r: u32 = ring_add(top, x, self.height);
            let c: u32 = ring_add(left, y, self.width);
            let i: usize = self.get_index(r, c);
            self.cells[i] = Cell::Alive;
            proof {
                assert(i == before.target(p, row as int, column as int, k as int));
                assert forall|j: int| 0 <= j < before.cells.len() implies before.lit_below(
                    p,
                    row as int,
                    column as int,
                    j,
                    k + 1,
                ) == (before.lit_below(p, row as int, column as int, j, k as int) || j == i) by {}
            }
            k += 1;
        }
        proof {
            assert(self.cells@ =~= before.stamped(p, row as int, column as int).cells);
        }
    }

    /// Stamps a glider onto the grid, centred on (`row`, `column`).
    pub fn insert_glider(&mut self, row: u32, column: u32)
        requires
            old(self).wf(),
        ensures
            final(self).wf(),
            final(self)@ == old(self)@.stamped(glider_shape(), row as int, column as int),
            final(self).diff_view() == old(self).diff_view(),
    {
        let glider: Pattern = glider();
        self.insert_pattern(&glider, row, column);
    }

    /// Stamps a pulsar onto the grid, centred on (`row`, `column`).
    pub fn insert_pulsar(&mut self, row: u32, column: u32)
        requires
            old(self).wf(),
        ensures
            final(self).wf(),
            final(self)@ == old(self)@.stamped(pulsar_shape(), row as int, column as int),
            final(self).diff_view() == old(self).diff_view(),
    {
        let pulsar: Pattern = pulsar();
        self.insert_pattern(&pulsar, row, column);
    }

    /// Advances the universe by one generation.
    ///
    /// Every cell is evolved from the grid as it was before the call. The
    /// change list is reset and then filled, in row-major order, with the
    /// positions of the cells that changed state; the slots after them hold
    /// [`UNUSED`]. Flipping the listed cells in the grid as it was gives the
    /// grid as it is after the call.
    pub fn tick(&mut self)
        requires
            old(self).wf(),
        ensures
            final(self).wf(),
            final(self)@ == old(self)@.step(),
            final(self).diff_view() == old(self)@.diff(),
            replay(old(self)@.cells, final(self).diff_view()) == final(self)@.cells,
    {
        let ghost before = self@;
        clear_slots(&mut self.diff);
        let mut diff_index: usize = 0;
        let mut row: u32 = 0;
        while row < self.height
            invariant
                row <= self.height,
                self.scanned(before, row * self.width, diff_index as int),
            decreases self.height - row,
        {
            let mut col: u32 = 0;
            while col < self.width
                invariant
                    row < self.height,
                    col <= self.width,
                    self.scanned(before, row * self.width + col, diff_index as int),
                decreases self.width - col,
            {
                let idx: usize = self.get_index(row, col);
                let cell: Cell = self.cells[idx];
                let live_neighbors: u8 = self.live_neighbor_count(row, col);
                let next_cell: Cell = cell.evolve(live_neighbors);
                proof {
                    lemma_index(before, row as int, col as int);
                    lemma_flips_below(before, idx as int);
                }
                if cell != next_cell {
                    self.diff[diff_index] = idx as i32;
                    diff_index += 1;
                }
                self.buffer[idx] = next_cell;
                col += 1;
            }
            proof {
                assert(row * self.width + self.width == (row + 1) * self.width)
                    by (nonlinear_arith);
            }
            row += 1;
        }
        proof {
            assert(self.height * self.width == self.width * self.height) by (nonlinear_arith);
            lemma_flips_below(before, before.cells.len() as int);
            lemma_replay_diff(before);
            assert(self.buffer@ =~= before.step().cells);
            assert(self.diff@ =~= before.diff());
        }
        std::mem::swap(&mut self.cells, &mut self.buffer);
    }
}

} // verus!
