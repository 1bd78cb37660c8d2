use game_of_life::shapes::{glider, pulsar, GLIDER, PULSAR};
use game_of_life::{Cell, Pattern, Universe};

fn blank_grid(width: u32, height: u32) -> Universe {
    let mut universe = Universe::new();
    universe.set_width(width);
    universe.set_height(height);
    universe
}

fn live(universe: &Universe) -> Vec<(u32, u32)> {
    let width = universe.width();
    let mut found = Vec::new();
    for (i, cell) in universe.get_cells().iter().enumerate() {
        if *cell == Cell::Alive {
            found.push((i as u32 / width, i as u32 % width));
        }
    }
    found
}

#[test]
fn parse_the_glider() {
    let pattern = Pattern::from_str(GLIDER).unwrap();
    assert_eq!(
        pattern.alive_cells(),
        &[(0, 1), (1, 2), (2, 0), (2, 1), (2, 2)]
    );
    assert_eq!(pattern.width(), 3);
    assert_eq!(pattern.height(), 3);
}

#[test]
fn parse_the_pulsar() {
    let pattern = Pattern::from_str(PULSAR).unwrap();
    assert_eq!(pattern.alive_cells().len(), 48);
    assert_eq!(pattern.width(), 13);
    assert_eq!(pattern.height(), 13);
    assert_eq!(
        &pattern.alive_cells()[..10],
        &[
            (0, 2),
            (0, 3),
            (0, 4),
            (0, 8),
            (0, 9),
            (0, 10),
            (2, 0),
            (2, 5),
            (2, 7),
            (2, 12)
        ]
    );
    assert_eq!(pattern.alive_cells()[47], (12, 10));
}

#[test]
fn the_bundled_patterns_are_the_parsed_texts() {
    assert_eq!(
        glider().alive_cells(),
        Pattern::from_str(GLIDER).unwrap().alive_cells()
    );
    assert_eq!(
        pulsar().alive_cells(),
        Pattern::from_str(PULSAR).unwrap().alive_cells()
    );
    assert_eq!(glider().width(), 3);
    assert_eq!(pulsar().height(), 13);
}

#[test]
fn parse_skips_comment_lines() {
    let pattern = Pattern::from_str("!O\nO\n!OOO\n.O").unwrap();
    assert_eq!(pattern.alive_cells(), &[(0, 0), (1, 1)]);
    assert_eq!(pattern.width(), 2);
    assert_eq!(pattern.height(), 2);
}

#[test]
fn parse_counts_empty_lines_as_rows() {
    let pattern = Pattern::from_str("\n\nO").unwrap();
    assert_eq!(pattern.alive_cells(), &[(2, 0)]);
    assert_eq!(pattern.width(), 3);
    assert_eq!(pattern.height(), 1);
}

#[test]
fn parse_leaves_trailing_dead_rows_and_columns_out() {
    let pattern = Pattern::from_str(".O....\n......\n......\n").unwrap();
    assert_eq!(pattern.alive_cells(), &[(0, 1)]);
    assert_eq!(pattern.width(), 1);
    assert_eq!(pattern.height(), 2);
}

#[test]
fn parse_treats_other_bytes_as_dead() {
    let pattern = Pattern::from_str("o0 O\r\nxO!\r\n").unwrap();
    assert_eq!(pattern.alive_cells(), &[(0, 3), (1, 1)]);
    assert_eq!(pattern.width(), 2);
    assert_eq!(pattern.height(), 4);
}

#[test]
fn parse_takes_columns_as_byte_offsets() {
    let pattern = Pattern::from_str("\u{e9}O").unwrap();
    assert_eq!(pattern.alive_cells(), &[(0, 2)]);
    assert_eq!(pattern.height(), 3);
}

#[test]
fn parse_a_marker_after_a_comment_marker_inside_a_row() {
    let pattern = Pattern::from_str(".!O").unwrap();
    assert_eq!(pattern.alive_cells(), &[(0, 2)]);
}

#[test]
fn parse_fails_on_the_empty_text() {
    let error = Pattern::from_str("").unwrap_err();
    assert_eq!(error.input(), "");
    assert_eq!(error.message(), "No alive cells in given pattern: []");
}

#[test]
fn parse_fails_on_a_comment_line() {
    let error = Pattern::from_str("!Name: O").unwrap_err();
    assert_eq!(error.input(), "!Name: O");
    assert_eq!(
        error.message(),
        "No alive cells in given pattern: [!Name: O]"
    );
}

#[test]
fn parse_fails_on_a_text_of_dead_cells() {
    let error = Pattern::from_str("...\n...\n").unwrap_err();
    assert_eq!(error.input(), "...\n...\n");
    assert_eq!(
        error.message(),
        "No alive cells in given pattern: [...\n...\n]"
    );
}

#[test]
fn a_failed_parse_leaves_a_universe_alone() {
    let mut universe = blank_grid(4, 4);
    universe.set_cells(&[(1, 2), (3, 3)]);
    let cells = universe.get_cells().to_vec();
    let diff = universe.diff().to_vec();
    assert!(Pattern::from_str("!only a comment").is_err());
    assert!(Pattern::from_str("").is_err());
    assert_eq!(universe.get_cells(), &cells[..]);
    assert_eq!(universe.diff(), &diff[..]);
    assert_eq!(universe.width(), 4);
    assert_eq!(universe.height(), 4);
}

#[test]
fn insert_glider_in_the_middle() {
    let mut universe = blank_grid(12, 12);
    universe.insert_glider(6, 6);
    assert_eq!(live(&universe), vec![(5, 6), (6, 7), (7, 5), (7, 6), (7, 7)]);
}

#[test]
fn a_glider_moves_one_cell_diagonally_in_four_ticks() {
    let mut universe = blank_grid(12, 12);
    universe.insert_glider(6, 6);
    for _ in 0..4 {
        universe.tick();
    }
    assert_eq!(live(&universe), vec![(6, 7), (7, 8), (8, 6), (8, 7), (8, 8)]);
}

#[test]
fn a_glider_crosses_the_edge() {
    let mut universe = blank_grid(12, 12);
    universe.insert_glider(6, 6);
    for _ in 0..48 {
        universe.tick();
    }
    assert_eq!(live(&universe), vec![(5, 6), (6, 7), (7, 5), (7, 6), (7, 7)]);
}

#[test]
fn insert_glider_wraps_around_the_corner() {
    let mut universe = blank_grid(5, 5);
    universe.insert_glider(0, 0);
    assert_eq!(live(&universe), vec![(0, 1), (1, 0), (1, 1), (1, 4), (4, 0)]);
}

#[test]
fn insert_wraps_rows_by_the_height_and_columns_by_the_width() {
    let mut universe = blank_grid(7, 4);
    universe.insert_glider(3, 6);
    assert_eq!(live(&universe), vec![(0, 0), (0, 5), (0, 6), (2, 6), (3, 0)]);
}

#[test]
fn insert_takes_any_centre_around_the_torus() {
    let mut wrapped = blank_grid(7, 4);
    wrapped.insert_glider(3 + 4 * 10, 6 + 7 * 3);
    let mut plain = blank_grid(7, 4);
    plain.insert_glider(3, 6);
    assert_eq!(wrapped.get_cells(), plain.get_cells());
}

#[test]
fn insert_clears_the_bounding_box() {
    let mut universe = blank_grid(6, 6);
    universe.randomize_with(&[false; 36]);
    universe.insert_glider(2, 2);
    let mut expected = Vec::new();
    for row in 0..6u32 {
        for col in 0..6u32 {
            let boxed = (1..=3).contains(&row) && (1..=3).contains(&col);
            let lit = [(1, 2), (2, 3), (3, 1), (3, 2), (3, 3)].contains(&(row, col));
            if !boxed || lit {
                expected.push((row, col));
            }
        }
    }
    assert_eq!(live(&universe), expected);
}

#[test]
fn insert_a_pattern_larger_than_the_grid() {
    let pattern = Pattern::from_str("O...O\n.....\n....O").unwrap();
    assert_eq!(pattern.width(), 3);
    assert_eq!(pattern.height(), 5);
    let mut universe = blank_grid(2, 2);
    universe.randomize_with(&[false; 4]);
    universe.insert_pattern(&pattern, 0, 0);
    assert_eq!(live(&universe), vec![(1, 0)]);
}

#[test]
fn insert_centres_an_uneven_pattern_toward_the_top_left() {
    let pattern = Pattern::from_str("OO\nOO\n..\n.O").unwrap();
    assert_eq!(pattern.width(), 4);
    assert_eq!(pattern.height(), 2);
    let mut universe = blank_grid(8, 8);
    universe.insert_pattern(&pattern, 4, 4);
    assert_eq!(live(&universe), vec![(2, 3), (2, 4), (3, 3), (3, 4), (5, 4)]);
}

#[test]
fn insert_leaves_the_change_list() {
    let mut universe = blank_grid(8, 8);
    universe.set_cells(&[(0, 0)]);
    universe.tick();
    let diff = universe.diff().to_vec();
    universe.insert_glider(4, 4);
    universe.insert_pulsar(4, 4);
    assert_eq!(universe.diff(), &diff[..]);
}

#[test]
fn insert_pulsar_in_the_middle() {
    let mut universe = blank_grid(20, 20);
    universe.insert_pulsar(10, 10);
    let cells = live(&universe);
    assert_eq!(cells.len(), 48);
    assert_eq!(cells[0], (4, 6));
    assert_eq!(cells[47], (16, 14));
    let expected: Vec<(u32, u32)> = pulsar()
        .alive_cells()
        .iter()
        .map(|(row, col)| (row + 4, col + 4))
        .collect();
    assert_eq!(cells, expected);
}

#[test]
fn a_pulsar_has_period_three() {
    let mut universe = blank_grid(20, 20);
    universe.insert_pulsar(10, 10);
    let start = universe.get_cells().to_vec();
    universe.tick();
    assert_ne!(universe.get_cells(), &start[..]);
    universe.tick();
    assert_ne!(universe.get_cells(), &start[..]);
    universe.tick();
    assert_eq!(universe.get_cells(), &start[..]);
}
