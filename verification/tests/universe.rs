use game_of_life::grid::UNUSED;
use game_of_life::{Cell, Universe};

fn blank(width: u32, height: u32) -> Universe {
    let mut universe = Universe::new();
    universe.set_width(width);
    universe.set_height(height);
    universe
}

fn alive(universe: &Universe) -> Vec<(u32, u32)> {
    let width = universe.width();
    let mut found = Vec::new();
    for (i, cell) in universe.get_cells().iter().enumerate() {
        if *cell == Cell::Alive {
            found.push((i as u32 / width, i as u32 % width));
        }
    }
    found
}

fn used(diff: &[i32]) -> Vec<i32> {
    diff.iter().cloned().take_while(|slot| *slot != UNUSED).collect()
}

#[test]
fn new_universe_has_default_size() {
    let universe = Universe::new();
    assert_eq!(universe.width(), 120);
    assert_eq!(universe.height(), 120);
    assert_eq!(universe.get_cells().len(), 120 * 120);
    assert_eq!(universe.diff().len(), 120 * 120);
    assert!(universe.diff().iter().all(|slot| *slot == -1));
}

#[test]
fn randomize_keeps_the_size_and_draws_both_states() {
    let mut universe = Universe::new();
    universe.randomize();
    assert_eq!(universe.width(), 120);
    assert_eq!(universe.height(), 120);
    assert_eq!(universe.get_cells().len(), 120 * 120);
    assert!(universe.get_cells().iter().any(|cell| *cell == Cell::Alive));
    assert!(universe.get_cells().iter().any(|cell| *cell == Cell::Dead));
}

#[test]
fn randomize_with_follows_the_flips() {
    let mut universe = blank(2, 2);
    universe.randomize_with(&[true, false, false, true]);
    assert_eq!(
        universe.get_cells(),
        &[Cell::Dead, Cell::Alive, Cell::Alive, Cell::Dead]
    );
}

#[test]
fn randomize_with_too_few_flips_leaves_the_rest() {
    let mut universe = blank(2, 2);
    universe.set_cells(&[(1, 1)]);
    universe.randomize_with(&[false]);
    assert_eq!(
        universe.get_cells(),
        &[Cell::Alive, Cell::Dead, Cell::Dead, Cell::Alive]
    );
}

#[test]
fn randomize_with_ignores_flips_beyond_the_grid() {
    let mut universe = blank(1, 2);
    universe.randomize_with(&[false, true, false, false]);
    assert_eq!(universe.get_cells(), &[Cell::Alive, Cell::Dead]);
}

#[test]
fn get_index_is_row_major() {
    let universe = blank(7, 4);
    assert_eq!(universe.get_index(0, 0), 0);
    assert_eq!(universe.get_index(0, 6), 6);
    assert_eq!(universe.get_index(1, 0), 7);
    assert_eq!(universe.get_index(3, 6), 27);
}

#[test]
fn clear_kills_every_cell_and_the_next_tick_reports_nothing() {
    let mut universe = Universe::new();
    universe.clear();
    assert!(universe.get_cells().iter().all(|cell| *cell == Cell::Dead));
    universe.tick();
    assert!(universe.get_cells().iter().all(|cell| *cell == Cell::Dead));
    assert!(universe.diff().iter().all(|slot| *slot == -1));
    assert_eq!(universe.diff().len(), 120 * 120);
}

#[test]
fn clear_twice_is_clear_once() {
    let mut once = blank(6, 5);
    once.set_cells(&[(0, 0), (2, 3), (4, 5)]);
    let mut twice = blank(6, 5);
    twice.set_cells(&[(0, 0), (2, 3), (4, 5)]);
    once.clear();
    twice.clear();
    twice.clear();
    assert_eq!(once.get_cells(), twice.get_cells());
    assert_eq!(once.diff(), twice.diff());
    assert_eq!(once.width(), twice.width());
    assert_eq!(once.height(), twice.height());
}

#[test]
fn clear_leaves_the_change_list() {
    let mut universe = blank(3, 3);
    universe.toggle_cell(1, 1);
    universe.tick();
    let before = universe.diff().to_vec();
    universe.clear();
    assert_eq!(universe.diff(), &before[..]);
}

#[test]
fn toggle_cell_flips_one_cell() {
    let mut universe = blank(4, 3);
    universe.toggle_cell(2, 1);
    assert_eq!(alive(&universe), vec![(2, 1)]);
    universe.toggle_cell(2, 1);
    assert_eq!(alive(&universe), vec![]);
}

#[test]
fn set_cells_makes_the_listed_cells_alive() {
    let mut universe = blank(4, 4);
    universe.set_cells(&[(3, 3), (0, 1), (0, 1), (2, 0)]);
    assert_eq!(alive(&universe), vec![(0, 1), (2, 0), (3, 3)]);
    universe.set_cells(&[]);
    assert_eq!(alive(&universe), vec![(0, 1), (2, 0), (3, 3)]);
}

#[test]
fn cells_are_read_as_bytes() {
    let mut universe = blank(3, 2);
    universe.set_cells(&[(0, 2), (1, 0)]);
    assert_eq!(universe.cells(), vec![0, 0, 1, 1, 0, 0]);
    assert_eq!(Cell::Dead.value(), 0);
    assert_eq!(Cell::Alive.value(), 1);
}

#[test]
fn set_width_resets_the_grid() {
    let mut universe = Universe::new();
    universe.tick();
    universe.set_width(7);
    assert_eq!(universe.width(), 7);
    assert_eq!(universe.height(), 120);
    assert_eq!(universe.get_cells().len(), 7 * 120);
    assert!(universe.get_cells().iter().all(|cell| *cell == Cell::Dead));
    assert_eq!(universe.diff().len(), 7 * 120);
    assert!(universe.diff().iter().all(|slot| *slot == -1));
}

#[test]
fn set_height_resets_the_grid() {
    let mut universe = Universe::new();
    universe.tick();
    universe.set_height(9);
    assert_eq!(universe.width(), 120);
    assert_eq!(universe.height(), 9);
    assert_eq!(universe.get_cells().len(), 120 * 9);
    assert!(universe.get_cells().iter().all(|cell| *cell == Cell::Dead));
    assert_eq!(universe.diff().len(), 120 * 9);
    assert!(universe.diff().iter().all(|slot| *slot == -1));
}

#[test]
fn resize_to_the_same_size_still_resets() {
    let mut universe = blank(5, 5);
    universe.set_cells(&[(1, 1), (2, 2)]);
    universe.set_width(5);
    assert_eq!(alive(&universe), vec![]);
    universe.set_cells(&[(1, 1), (2, 2)]);
    universe.set_height(5);
    assert_eq!(alive(&universe), vec![]);
}

#[test]
fn neighbors_wrap_around_the_edges() {
    let mut universe = blank(5, 4);
    universe.set_cells(&[(0, 0)]);
    assert_eq!(universe.live_neighbor_count(0, 0), 0);
    assert_eq!(universe.live_neighbor_count(3, 0), 1);
    assert_eq!(universe.live_neighbor_count(3, 4), 1);
    assert_eq!(universe.live_neighbor_count(0, 4), 1);
    assert_eq!(universe.live_neighbor_count(1, 4), 1);
    assert_eq!(universe.live_neighbor_count(1, 1), 1);
    assert_eq!(universe.live_neighbor_count(2, 0), 0);
    assert_eq!(universe.live_neighbor_count(0, 2), 0);
}

#[test]
fn a_lone_cell_has_the_same_count_wherever_it_lies() {
    for (row, col) in [(0, 0), (3, 0), (0, 4), (3, 4), (2, 2)] {
        let mut universe = blank(5, 4);
        universe.set_cells(&[(row, col)]);
        assert_eq!(universe.live_neighbor_count(row, col), 0);
        let total: u32 = (0..4)
            .flat_map(|r| (0..5).map(move |c| (r, c)))
            .map(|(r, c)| universe.live_neighbor_count(r, c) as u32)
            .sum();
        assert_eq!(total, 8);
    }
}

#[test]
fn neighbors_count_all_eight() {
    let mut universe = blank(3, 3);
    universe.randomize_with(&[false; 9]);
    assert_eq!(universe.live_neighbor_count(1, 1), 8);
    assert_eq!(universe.live_neighbor_count(0, 0), 8);
    assert_eq!(universe.live_neighbor_count(2, 1), 8);
}

#[test]
fn one_by_one_grid_counts_the_cell_eight_times() {
    let mut universe = blank(1, 1);
    assert_eq!(universe.live_neighbor_count(0, 0), 0);
    universe.toggle_cell(0, 0);
    assert_eq!(universe.live_neighbor_count(0, 0), 8);
    universe.tick();
    assert_eq!(universe.get_cells(), &[Cell::Dead]);
    assert_eq!(universe.diff(), &[0]);
    universe.tick();
    assert_eq!(universe.get_cells(), &[Cell::Dead]);
    assert_eq!(universe.diff(), &[-1]);
}

#[test]
fn two_by_two_grid_counts_coinciding_neighbors_twice() {
    let mut universe = blank(2, 2);
    universe.set_cells(&[(0, 0)]);
    assert_eq!(universe.live_neighbor_count(0, 0), 0);
    assert_eq!(universe.live_neighbor_count(0, 1), 2);
    assert_eq!(universe.live_neighbor_count(1, 0), 2);
    assert_eq!(universe.live_neighbor_count(1, 1), 4);
    universe.tick();
    assert_eq!(
        universe.get_cells(),
        &[Cell::Dead, Cell::Dead, Cell::Dead, Cell::Dead]
    );
    assert_eq!(universe.diff(), &[0, -1, -1, -1]);
}

#[test]
fn two_by_two_grid_with_two_live_cells() {
    let mut universe = blank(2, 2);
    universe.set_cells(&[(0, 0), (0, 1)]);
    assert_eq!(universe.live_neighbor_count(0, 0), 2);
    assert_eq!(universe.live_neighbor_count(0, 1), 2);
    assert_eq!(universe.live_neighbor_count(1, 0), 6);
    assert_eq!(universe.live_neighbor_count(1, 1), 6);
    universe.tick();
    assert_eq!(
        universe.get_cells(),
        &[Cell::Alive, Cell::Alive, Cell::Dead, Cell::Dead]
    );
    assert_eq!(universe.diff(), &[-1, -1, -1, -1]);
}

#[test]
fn a_lone_cell_dies() {
    let mut universe = blank(3, 3);
    universe.set_cells(&[(1, 1)]);
    assert_eq!(universe.live_neighbor_count(1, 1), 0);
    universe.tick();
    assert!(universe.get_cells().iter().all(|cell| *cell == Cell::Dead));
    let index = universe.get_index(1, 1) as i32;
    assert_eq!(index, 4);
    assert_eq!(universe.diff(), &[index, -1, -1, -1, -1, -1, -1, -1, -1]);
}

#[test]
fn a_blinker_has_period_two() {
    let mut universe = blank(5, 5);
    universe.set_cells(&[(2, 1), (2, 2), (2, 3)]);
    let start = universe.get_cells().to_vec();
    universe.tick();
    assert_eq!(alive(&universe), vec![(1, 2), (2, 2), (3, 2)]);
    assert_eq!(used(universe.diff()), vec![7, 11, 13, 17]);
    universe.tick();
    assert_eq!(universe.get_cells(), &start[..]);
    assert_eq!(alive(&universe), vec![(2, 1), (2, 2), (2, 3)]);
    assert_eq!(used(universe.diff()), vec![7, 11, 13, 17]);
}

#[test]
fn a_blinker_in_a_wider_grid_has_period_two() {
    let mut universe = blank(9, 6);
    universe.set_cells(&[(3, 3), (3, 4), (3, 5)]);
    let start = universe.get_cells().to_vec();
    universe.tick();
    assert_eq!(alive(&universe), vec![(2, 4), (3, 4), (4, 4)]);
    universe.tick();
    assert_eq!(universe.get_cells(), &start[..]);
}

#[test]
fn a_block_is_still() {
    let mut universe = blank(4, 4);
    universe.set_cells(&[(1, 1), (1, 2), (2, 1), (2, 2)]);
    universe.tick();
    assert_eq!(alive(&universe), vec![(1, 1), (1, 2), (2, 1), (2, 2)]);
    assert!(universe.diff().iter().all(|slot| *slot == -1));
}

#[test]
fn the_rule_for_each_count() {
    for count in 0..=8u8 {
        let survives = count == 2 || count == 3;
        let expected = if survives { Cell::Alive } else { Cell::Dead };
        assert_eq!(Cell::Alive.evolve(count), expected);
        let born = if count == 3 { Cell::Alive } else { Cell::Dead };
        assert_eq!(Cell::Dead.evolve(count), born);
    }
}

#[test]
fn toggle_and_coin() {
    let mut cell = Cell::Dead;
    cell.toggle();
    assert_eq!(cell, Cell::Alive);
    cell.toggle();
    assert_eq!(cell, Cell::Dead);
    assert_eq!(Cell::from_coin(true), Cell::Dead);
    assert_eq!(Cell::from_coin(false), Cell::Alive);
}

#[test]
fn the_change_list_is_reset_by_each_tick() {
    let mut universe = blank(8, 8);
    universe.set_cells(&[(6, 6), (2, 1), (2, 2), (2, 3)]);
    universe.tick();
    assert_eq!(used(universe.diff()), vec![10, 17, 19, 26, 54]);
    universe.tick();
    assert_eq!(used(universe.diff()), vec![10, 17, 19, 26]);
    assert_eq!(universe.diff()[4], -1);
    assert_eq!(universe.diff().len(), 64);
}

#[test]
fn the_change_list_is_full_when_every_cell_flips() {
    let mut universe = blank(3, 3);
    universe.randomize_with(&[false; 9]);
    universe.tick();
    assert!(universe.get_cells().iter().all(|cell| *cell == Cell::Dead));
    assert_eq!(universe.diff(), &[0, 1, 2, 3, 4, 5, 6, 7, 8]);
}

#[test]
fn replaying_the_change_list_gives_the_next_grid() {
    let mut universe = Universe::new();
    for _ in 0..5 {
        let mut before = universe.get_cells().to_vec();
        universe.tick();
        let mut last = -1;
        for slot in used(universe.diff()) {
            assert!(slot > last);
            last = slot;
            before[slot as usize].toggle();
        }
        assert_eq!(&before[..], universe.get_cells());
    }
}

#[test]
fn replaying_the_change_list_of_a_seeded_grid() {
    let mut universe = blank(6, 4);
    let flips: Vec<bool> = (0..24).map(|i| (i * 7 + i / 3) % 5 < 2).collect();
    universe.randomize_with(&flips);
    for _ in 0..6 {
        let mut before = universe.get_cells().to_vec();
        universe.tick();
        for slot in used(universe.diff()) {
            before[slot as usize].toggle();
        }
        assert_eq!(&before[..], universe.get_cells());
    }
}

#[test]
fn a_step_does_the_same_wherever_the_grid_lies() {
    let cells = [(0u32, 1u32), (1, 2), (2, 0), (2, 1), (2, 2), (4, 4), (4, 5), (5, 4)];
    let (down, right) = (3u32, 5u32);
    let mut here = blank(7, 6);
    here.set_cells(&cells);
    let moved: Vec<(u32, u32)> = cells
        .iter()
        .map(|(row, col)| ((row + down) % 6, (col + right) % 7))
        .collect();
    let mut there = blank(7, 6);
    there.set_cells(&moved);
    for _ in 0..5 {
        here.tick();
        there.tick();
        let mut expected: Vec<(u32, u32)> = alive(&here)
            .iter()
            .map(|(row, col)| ((row + down) % 6, (col + right) % 7))
            .collect();
        expected.sort();
        assert_eq!(alive(&there), expected);
    }
}
