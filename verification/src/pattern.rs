//! Patterns of live cells and the plaintext notation they are written in.
//!
//! A pattern text is a sequence of lines. A line that begins with `!` is a
//! comment and is skipped. Every other line is a row of the pattern, and
//! each `O` in it is a live cell whose column is its offset in bytes from
//! the start of the line. All other bytes stand for dead cells. A carriage
//! return before a line feed is such a byte, so that a text denotes the same
//! pattern with either kind of line ending.

use vstd::prelude::*;
use vstd::string::*;

verus! {

/// The byte that marks a live cell: the letter `O`.
pub const LIVE: u8 = 0x4f;

/// The byte that makes a line a comment when the line begins with it: `!`.
pub const COMMENT: u8 = 0x21;

/// The byte that ends a line: the line feed.
pub const NEWLINE: u8 = 0x0a;

/// The position at which the line that holds position `p` starts.
pub open spec fn line_start(text: Seq<u8>, p: int) -> int
    decreases p,
{
    if p <= 0 {
        0
    } else if text[p - 1] == NEWLINE {
        p
    } else {
        line_start(text, p - 1)
    }
}

/// Whether position `p` lies on a comment line.
pub open spec fn in_comment(text: Seq<u8>, p: int) -> bool {
    text[line_start(text, p)] == COMMENT
}

/// The number of rows, that is of lines other than comments, that end before
/// position `p`.
pub open spec fn rows_before(text: Seq<u8>, p: int) -> int
    decreases p,
{
    if p <= 0 {
        0
    } else if text[p - 1] == NEWLINE && !in_comment(text, p - 1) {
        rows_before(text, p - 1) + 1
    } else {
        rows_before(text, p - 1)
    }
}

/// Whether the byte at position `p` denotes a live cell.
pub open spec fn is_live(text: Seq<u8>, p: int) -> bool {
    text[p] == LIVE && !in_comment(text, p)
}

/// The row and column that position `p` denotes.
pub open spec fn cell_at(text: Seq<u8>, p: int) -> (u32, u32) {
    (rows_before(text, p) as u32, (p - line_start(text, p)) as u32)
}

/// The live cells denoted by the first `n` bytes of `text`, in the order in
/// which they occur.
pub open spec fn live_cells_below(text: Seq<u8>, n: int) -> Seq<(u32, u32)>
    decreases n,
{
    if n <= 0 {
        Seq::empty()
    } else if is_live(text, n - 1) {
        live_cells_below(text, n - 1).push(cell_at(text, n - 1))
    } else {
        live_cells_below(text, n - 1)
    }
}

/// The live cells that `text` denotes, row by row and left to right.
pub open spec fn live_cells(text: Seq<u8>) -> Seq<(u32, u32)> {
    live_cells_below(text, text.len() as int)
}

/// The line that holds `p` starts at or before `p`, and no more rows end
/// before `p` than there are bytes before it.
pub proof fn lemma_line_start(text: Seq<u8>, p: int)
    requires
        0 <= p,
    ensures
        0 <= line_start(text, p) <= p,
        rows_before(text, p) <= p,
        rows_before(text, p) >= 0,
    decreases p,
{
    if p > 0 {
        lemma_line_start(text, p - 1);
    }
}

/// Whether a line starts at position `a`: `a` is the start of the text or
/// follows a line feed.
pub open spec fn starts_line(text: Seq<u8>, a: int) -> bool {
    a == 0 || text[a - 1] == NEWLINE
}

/// Whether no line ends at a position from `a` up to, and without, `b`.
pub open spec fn unbroken(text: Seq<u8>, a: int, b: int) -> bool {
    forall|i: int| a <= i < b ==> text[i] != NEWLINE
}

/// The live cells that the bytes from `a` up to, and without, `n` denote when
/// they lie on row `row` of a line that starts at `a`.
pub open spec fn row_cells(text: Seq<u8>, a: int, n: int, row: int) -> Seq<(u32, u32)>
    decreases n - a,
{
    if n <= a {
        Seq::empty()
    } else if text[n - 1] == LIVE {
        row_cells(text, a, n - 1, row).push((row as u32, (n - 1 - a) as u32))
    } else {
        row_cells(text, a, n - 1, row)
    }
}

/// Every position of a line has the start of the line as its line start.
pub proof fn lemma_same_line(text: Seq<u8>, a: int, p: int)
    requires
        0 <= a <= p,
        starts_line(text, a),
        unbroken(text, a, p),
    ensures
        line_start(text, p) == a,
    decreases p - a,
{
    if p > a {
        lemma_same_line(text, a, p - 1);
    }
}

/// A comment line denotes nothing: the bytes of a line that begins with the
/// comment marker add no live cell and, with the line feed that ends the
/// line, no row.
pub proof fn lemma_comment_line(text: Seq<u8>, a: int, b: int)
    requires
        0 <= a <= b <= text.len(),
        a < text.len(),
        starts_line(text, a),
        unbroken(text, a, b),
        text[a] == COMMENT,
    ensures
        live_cells_below(text, b) == live_cells_below(text, a),
        rows_before(text, b) == rows_before(text, a),
        b < text.len() && text[b] == NEWLINE ==> live_cells_below(text, b + 1)
            == live_cells_below(text, a) && rows_before(text, b + 1) == rows_before(text, a),
    decreases b - a,
{
    lemma_same_line(text, a, b);
    if b > a {
        lemma_comment_line(text, a, b - 1);
        lemma_same_line(text, a, b - 1);
    }
    if b < text.len() && text[b] == NEWLINE {
        assert(in_comment(text, b));
        assert(live_cells_below(text, b + 1) == live_cells_below(text, b));
        assert(rows_before(text, b + 1) == rows_before(text, b));
    }
}

/// A line that is no comment denotes one row: each live marker in it adds a
/// live cell at the row of the line and at the column of the marker, and the
/// line feed that ends the line starts the next row.
pub proof fn lemma_row_line(text: Seq<u8>, a: int, b: int)
    requires
        0 <= a <= b <= text.len(),
        starts_line(text, a),
        unbroken(text, a, b),
        a < b ==> text[a] != COMMENT,
    ensures
        live_cells_below(text, b) == live_cells_below(text, a) + row_cells(
            text,
            a,
            b,
            rows_before(text, a),
        ),
        rows_before(text, b) == rows_before(text, a),
        b < text.len() && text[b] == NEWLINE ==> live_cells_below(text, b + 1)
            == live_cells_below(text, b) && rows_before(text, b + 1) == rows_before(text, a) + 1,
    decreases b - a,
{
    lemma_same_line(text, a, b);
    if b < text.len() && text[b] == NEWLINE {
        assert(!in_comment(text, b));
        assert(live_cells_below(text, b + 1) == live_cells_below(text, b));
        assert(rows_before(text, b + 1) == rows_before(text, b) + 1);
    }
    if b > a {
        lemma_row_line(text, a, b - 1);
        lemma_same_line(text, a, b - 1);
        assert(live_cells_below(text, b) =~= live_cells_below(text, a) + row_cells(
            text,
            a,
            b,
            rows_before(text, a),
        ));
    } else {
        assert(live_cells_below(text, b) =~= live_cells_below(text, a) + row_cells(
            text,
            a,
            b,
            rows_before(text, a),
        ));
    }
}

/// A pattern as a mathematical value.
pub struct PatternView {
    /// The live cells, each as (row, column).
    pub cells: Seq<(u32, u32)>,
    /// One more than the largest row among the live cells.
    pub width: nat,
    /// One more than the largest column among the live cells.
    pub height: nat,
}

impl PatternView {
    /// There is at least one live cell, and `width` and `height` are the
    /// least bounds on the rows and the columns of the live cells.
    pub open spec fn wf(self) -> bool {
        &&& self.cells.len() > 0
        &&& forall|k: int|
            0 <= k < self.cells.len() ==> (#[trigger] self.cells[k]).0 < self.width
                && self.cells[k].1 < self.height
        &&& exists|k: int|
            0 <= k < self.cells.len() && (#[trigger] self.cells[k]).0 + 1 == self.width
        &&& exists|k: int|
            0 <= k < self.cells.len() && (#[trigger] self.cells[k]).1 + 1 == self.height
    }
}

/// A pattern of live cells, ready to be stamped onto a universe.
///
/// The bounding box of a pattern reaches from the origin to its farthest
/// live cell: dead rows and columns that trail in the text are not part of
/// it.
#[derive(Debug)]
pub struct Pattern {
    alive_cells: Vec<(u32, u32)>,
    width: u32,
    height: u32,
}

impl View for Pattern {
    type V = PatternView;

    closed spec fn view(&self) -> PatternView {
        PatternView {
            cells: self.alive_cells@,
            width: self.width as nat,
            height: self.height as nat,
        }
    }
}

/// The error of parsing a pattern text that denotes no live cell.
#[derive(Debug)]
pub struct ParseError {
    input: String,
}

impl View for ParseError {
    type V = Seq<char>;

    /// The text that was rejected.
    closed spec fn view(&self) -> Seq<char> {
        self.input@
    }
}

impl ParseError {
    /// The text that was rejected.
    pub fn input(&self) -> (text: &str)
        ensures
            text@ == self@,
    {
        self.input.as_str()
    }

    /// A description of the error that quotes the rejected text.
    pub fn message(&self) -> (msg: String)
        ensures
            msg@ == "No alive cells in given pattern: ["@ + self@ + "]"@,
    {
        let mut msg: String = String::from_str("No alive cells in given pattern: [");
        msg.append(self.input.as_str());
        msg.append("]");
        msg
    }
}

/// Reads the live cells off a pattern text.
fn scan(text: &[u8]) -> (cells: Vec<(u32, u32)>)
    requires
        text@.len() <= u32::MAX,
    ensures
        cells@ == live_cells(text@),
{
    let mut cells: Vec<(u32, u32)> = Vec::new();
    let mut row: u32 = 0;
    let mut start: usize = 0;
    let mut comment: bool = false;
    let mut p: usize = 0;
    while p < text.len()
        invariant
            p <= text@.len() <= u32::MAX,
            start == line_start(text@, p as int),
            row == rows_before(text@, p as int),
            start < p ==> comment == (text@[start as int] == COMMENT),
            cells@ == live_cells_below(text@, p as int),
        decreases text@.len() - p,
    {
        let byte: u8 = text[p];
        proof {
            lemma_line_start(text@, p as int);
        }
        if p == start {
            comment = byte == COMMENT;
        }
        if byte == NEWLINE {
            if !comment {
                row += 1;
            }
            start = p + 1;
        } else if byte == LIVE && !comment {
            cells.push((row, (p - start) as u32));
        }
        p += 1;
    }
    cells
}

impl Pattern {
    /// The pattern is well formed: see [`PatternView::wf`].
    pub open spec fn wf(&self) -> bool {
        self@.wf()
    }

    /// The live cells, each as (row, column), in the order of the text.
    pub fn alive_cells(&self) -> (cells: &[(u32, u32)])
        ensures
            cells@ == self@.cells,
    {
        self.alive_cells.as_slice()
    }

    /// One more than the largest row among the live cells.
    pub fn width(&self) -> (width: u32)
        ensures
            width == self@.width,
    {
        self.width
    }

    /// One more than the largest column among the live cells.
    pub fn height(&self) -> (height: u32)
        ensures
            height == self@.height,
    {
        self.height
    }

    /// Parses a pattern text.
    ///
    /// Succeeds exactly when the text denotes at least one live cell. The
    /// error carries the rejected text. The text may be no longer than
    /// `u32::MAX` bytes, so that every row and every column fits in a `u32`.
    pub fn from_str(schema: &str) -> (res: Result<Pattern, ParseError>)
        requires
            schema.spec_bytes().len() <= u32::MAX,
        ensures
            match res {
                Ok(pattern) => pattern.wf() && pattern@.cells == live_cells(schema.spec_bytes()),
                Err(e) => live_cells(schema.spec_bytes()).len() == 0 && e@ == schema@,
            },
    {
        let alive_cells: Vec<(u32, u32)> = scan(schema.as_bytes());
        if alive_cells.len() == 0 {
            return Err(ParseError { input: String::from_str(schema) });
        }
        let mut width: u32 = 1;
        let mut height: u32 = 1;
        let ghost mut lowest: int = 0;
        let ghost mut rightmost: int = 0;
        let mut k: usize = 0;
        while k < alive_cells.len()
            invariant
                k <= alive_cells@.len(),
                alive_cells@ == live_cells(schema.spec_bytes()),
                schema.spec_bytes().len() <= u32::MAX,
                k == 0 ==> width == 1 && height == 1,
                forall|j: int|
                    0 <= j < k ==> (#[trigger] alive_cells@[j]).0 < width && alive_cells@[j].1
                        < height,
                k > 0 ==> 0 <= lowest < k && alive_cells@[lowest].0 + 1 == width,
                k > 0 ==> 0 <= rightmost < k && alive_cells@[rightmost].1 + 1 == height,
            decreases alive_cells@.len() - k,
        {
            let (x, y): (u32, u32) = alive_cells[k];
            proof {
                lemma_cells_fit(schema.spec_bytes(), k as int);
            }
            if x + 1 >= width {
                width = x + 1;
                proof {
                    lowest = k as int;
                }
            }
            if y + 1 >= height {
                height = y + 1;
                proof {
                    rightmost = k as int;
                }
            }
            k += 1;
        }
        let pattern = Pattern { alive_cells, width, height };
        proof {
            assert(pattern@.cells[lowest].0 + 1 == pattern@.width);
            assert(pattern@.cells[rightmost].1 + 1 == pattern@.height);
        }
        Ok(pattern)
    }
}

/// Every live cell of a text lies at a row and a column below the length of
/// the text.
pub proof fn lemma_cells_fit(text: Seq<u8>, k: int)
    requires
        0 <= k < live_cells(text).len(),
        text.len() <= u32::MAX,
    ensures
        live_cells(text)[k].0 < text.len(),
        live_cells(text)[k].1 < text.len(),
{
    lemma_cells_below_fit(text, text.len() as int, k);
}

/// Every live cell among the first `n` bytes of a text lies at a row and a
/// column below `n`.
pub proof fn lemma_cells_below_fit(text: Seq<u8>, n: int, k: int)
    requires
        0 <= k < live_cells_below(text, n).len(),
        0 <= n <= u32::MAX,
    ensures
        live_cells_below(text, n)[k].0 < n,
        live_cells_below(text, n)[k].1 < n,
    decreases n,
{
    if n > 0 {
        lemma_line_start(text, n - 1);
        if k < live_cells_below(text, n - 1).len() {
            lemma_cells_below_fit(text, n - 1, k);
        }
    }
}

} // verus!
