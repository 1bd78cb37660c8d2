//! The two patterns that come with the library, each from its description
//! in the plaintext notation.

use vstd::prelude::*;
use vstd::string::*;
use vstd::utf8::{is_ascii_chars, is_ascii_chars_encode_utf8};
use crate::pattern::{
    lemma_comment_line, lemma_row_line, live_cells, row_cells, Pattern, PatternView,
};

verus! {

/// The glider in the plaintext notation.
pub const GLIDER: &'static str = "!Name: Glider
!Author: Richard K. Guy
!The smallest, most common, and first discovered spaceship.
!www.conwaylife.com/wiki/index.php?title=Glider
.O
..O
OOO";

/// The pulsar in the plaintext notation.
pub const PULSAR: &'static str = "!Name: Pulsar
!Author: John Conway
!Despite its size, this is the fourth most common oscillator (and by far the most common of period greater than 2).
!www.conwaylife.com/wiki/index.php?title=Pulsar
..OOO...OOO

O....O.O....O
O....O.O....O
O....O.O....O
..OOO...OOO

..OOO...OOO
O....O.O....O
O....O.O....O
O....O.O....O

..OOO...OOO";

/// The glider: five live cells in a box of three by three.
pub open spec fn glider_shape() -> PatternView {
    PatternView {
        cells: seq![(0u32, 1u32), (1u32, 2u32), (2u32, 0u32), (2u32, 1u32), (2u32, 2u32)],
        width: 3,
        height: 3,
    }
}

/// A row of the pulsar that holds two bars of three live cells.
pub open spec fn pulsar_bars(row: u32) -> Seq<(u32, u32)> {
    seq![(row, 2u32), (row, 3u32), (row, 4u32), (row, 8u32), (row, 9u32), (row, 10u32)]
}

/// A row of the pulsar that holds four single live cells.
pub open spec fn pulsar_posts(row: u32) -> Seq<(u32, u32)> {
    seq![(row, 0u32), (row, 5u32), (row, 7u32), (row, 12u32)]
}

/// The pulsar: forty-eight live cells in a box of thirteen by thirteen, in
/// four rows of bars and six rows of posts; the rows between them are empty.
pub open spec fn pulsar_shape() -> PatternView {
    PatternView {
        cells: pulsar_bars(0) + pulsar_posts(2) + pulsar_posts(3) + pulsar_posts(4) + pulsar_bars(5)
            + pulsar_bars(7) + pulsar_posts(8) + pulsar_posts(9) + pulsar_posts(10) + pulsar_bars(
            12,
        ),
        width: 13,
        height: 13,
    }
}

/// The text of the glider denotes the live cells of the glider.
pub proof fn lemma_glider_text()
    ensures
        GLIDER.spec_bytes().len() == 156,
        live_cells(GLIDER.spec_bytes()) == glider_shape().cells,
{
    reveal_strlit("!Name: Glider
!Author: Richard K. Guy
!The smallest, most common, and first discovered spaceship.
!www.conwaylife.com/wiki/index.php?title=Glider
.O
..O
OOO");
    let text = GLIDER.spec_bytes();
    assert(is_ascii_chars(GLIDER@));
    is_ascii_chars_encode_utf8(GLIDER@);
    lemma_comment_line(text, 0, 13);
    lemma_comment_line(text, 14, 37);
    lemma_comment_line(text, 38, 97);
    lemma_comment_line(text, 98, 145);
    reveal_with_fuel(row_cells, 4);
    lemma_row_line(text, 146, 148);
    lemma_row_line(text, 149, 152);
    lemma_row_line(text, 153, 156);
    assert(live_cells(text) =~= glider_shape().cells);
}

/// The glider, parsed from its text.
pub fn glider() -> (pattern: Pattern)
    ensures
        pattern.wf(),
        pattern@ == glider_shape(),
{
    proof {
        lemma_glider_text();
    }
    let pattern = Pattern::from_str(GLIDER).unwrap();
    proof {
        let cells = pattern@.cells;
        assert(cells[0] == (0u32, 1u32) && cells[1] == (1u32, 2u32) && cells[2] == (2u32, 0u32)
            && cells[3] == (2u32, 1u32) && cells[4] == (2u32, 2u32));
    }
    pattern
}

/// The text of the pulsar denotes the live cells of the pulsar.
pub proof fn lemma_pulsar_text()
    ensures
        PULSAR.spec_bytes().len() == 333,
        live_cells(PULSAR.spec_bytes()) == pulsar_shape().cells,
{
    reveal_strlit("!Name: Pulsar
!Author: John Conway
!Despite its size, this is the fourth most common oscillator (and by far the most common of period greater than 2).
!www.conwaylife.com/wiki/index.php?title=Pulsar
..OOO...OOO

O....O.O....O
O....O.O....O
O....O.O....O
..OOO...OOO

..OOO...OOO
O....O.O....O
O....O.O....O
O....O.O....O

..OOO...OOO");
    let text = PULSAR.spec_bytes();
    assert(is_ascii_chars(PULSAR@));
    is_ascii_chars_encode_utf8(PULSAR@);
    lemma_comment_line(text, 0, 13);
    lemma_comment_line(text, 14, 34);
    lemma_comment_line(text, 35, 150);
    lemma_comment_line(text, 151, 198);
    reveal_with_fuel(row_cells, 14);
    lemma_row_line(text, 199, 210);
    assert(row_cells(text, 199, 210, 0) =~= pulsar_bars(0));
    lemma_row_line(text, 211, 211);
    lemma_row_line(text, 212, 225);
    assert(row_cells(text, 212, 225, 2) =~= pulsar_posts(2));
    lemma_row_line(text, 226, 239);
    assert(row_cells(text, 226, 239, 3) =~= pulsar_posts(3));
    lemma_row_line(text, 240, 253);
    assert(row_cells(text, 240, 253, 4) =~= pulsar_posts(4));
    lemma_row_line(text, 254, 265);
    assert(row_cells(text, 254, 265, 5) =~= pulsar_bars(5));
    lemma_row_line(text, 266, 266);
    lemma_row_line(text, 267, 278);
    assert(row_cells(text, 267, 278, 7) =~= pulsar_bars(7));
    lemma_row_line(text, 279, 292);
    assert(row_cells(text, 279, 292, 8) =~= pulsar_posts(8));
    lemma_row_line(text, 293, 306);
    assert(row_cells(text, 293, 306, 9) =~= pulsar_posts(9));
    lemma_row_line(text, 307, 320);
    assert(row_cells(text, 307, 320, 10) =~= pulsar_posts(10));
    lemma_row_line(text, 321, 321);
    lemma_row_line(text, 322, 333);
    assert(row_cells(text, 322, 333, 12) =~= pulsar_bars(12));
    assert(live_cells(text) =~= pulsar_shape().cells);
}

/// The pulsar, parsed from its text.
pub fn pulsar() -> (pattern: Pattern)
    ensures
        pattern.wf(),
        pattern@ == pulsar_shape(),
{
    proof {
        lemma_pulsar_text();
    }
    let pattern = Pattern::from_str(PULSAR).unwrap();
    proof {
        let cells = pattern@.cells;
        assert(cells.len() == 48);
        assert(cells[47] == (12u32, 10u32));
        assert(cells[9] == (2u32, 12u32));
        assert forall|k: int| 0 <= k < 48 implies (#[trigger] cells[k]).0 <= 12 && cells[k].1
            <= 12 by {}
    }
    pattern
}

} // verus!
