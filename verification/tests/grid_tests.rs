use gol::grid::{BoolGrid, Grid, GridError};

fn setup_blinker() -> BoolGrid {
    let mut grid = BoolGrid::create(3, 3);
    grid.set(1, 0, true);
    grid.set(1, 1, true);
    grid.set(1, 2, true);
    grid.flip();
    return grid;
}

#[test]
fn simple_blinker() {
    let grid = setup_blinker();
    assert!(grid.get(1, 0));
    assert!(grid.get(1, 1));
    assert!(grid.get(1, 2));
}

#[test]
fn gol_blinker() {
    let mut grid = setup_blinker();
    grid.step();
    assert!(!grid.get(1, 0));
    assert!(!grid.get(1, 2));
    assert!(grid.get(0, 1));
    assert!(grid.get(1, 1));
    assert!(grid.get(2, 1));
}

#[test]
fn create_starts_all_dead() {
    let grid = BoolGrid::create(4, 5);
    assert_eq!(grid.get_width(), 4);
    assert_eq!(grid.get_height(), 5);
    for x in 0..4 {
        for y in 0..5 {
            assert!(!grid.get(x, y));
        }
    }
}

#[test]
fn set_stages_until_flip() {
    let mut grid = BoolGrid::create(3, 3);
    grid.set(0, 0, true);
    assert!(!grid.get(0, 0));
    grid.flip();
    assert!(grid.get(0, 0));
}

#[test]
fn flip_swaps_back_and_forth() {
    let mut grid = BoolGrid::create(2, 2);
    grid.set(1, 1, true);
    grid.flip();
    assert!(grid.get(1, 1));
    grid.flip();
    assert!(!grid.get(1, 1));
}

#[test]
fn next_location_alternates() {
    let mut grid = BoolGrid::create(2, 2);
    assert_eq!(grid.next_location(), 1);
    grid.flip();
    assert_eq!(grid.next_location(), 0);
    grid.flip();
    assert_eq!(grid.next_location(), 1);
}

#[test]
fn get_offset_is_row_major() {
    let grid = BoolGrid::create(7, 5);
    assert_eq!(grid.get_offset(0, 0), 0);
    assert_eq!(grid.get_offset(3, 2), 17);
    assert_eq!(grid.get_offset(6, 4), 34);
}

#[test]
fn count_neighbours_exact_values() {
    let mut grid = BoolGrid::create(3, 3);
    grid.set(0, 0, true);
    grid.set(1, 0, true);
    grid.set(2, 2, true);
    grid.flip();
    assert_eq!(grid.count_neighbours(1, 1), 3);
    assert_eq!(grid.count_neighbours(0, 1), 2);
    assert_eq!(grid.count_neighbours(2, 0), 1);
    assert_eq!(grid.count_neighbours(2, 2), 0);
}

#[test]
fn calculate_next_cell_state_matches_rule() {
    let mut grid = BoolGrid::create(3, 3);
    grid.set(1, 0, true);
    grid.set(1, 1, true);
    grid.set(1, 2, true);
    grid.flip();
    assert!(grid.calculate_next_cell_state(0, 1));
    assert!(grid.calculate_next_cell_state(1, 1));
    assert!(!grid.calculate_next_cell_state(1, 0));
    assert!(!grid.calculate_next_cell_state(0, 0));
}

#[test]
fn try_get_succeeds_exactly_on_the_board() {
    let grid = BoolGrid::create(3, 2);
    for x in 0..3 {
        for y in 0..2 {
            assert!(grid.try_get(x, y).is_ok());
        }
    }
    assert_eq!(grid.try_get(3, 0), Err(GridError::OutOfRange));
    assert_eq!(grid.try_get(0, 2), Err(GridError::OutOfRange));
    assert_eq!(grid.try_get(10, 10), Err(GridError::OutOfRange));
}

#[test]
fn try_set_succeeds_exactly_on_the_board() {
    let mut grid = BoolGrid::create(3, 2);
    for x in 0..3 {
        for y in 0..2 {
            assert!(grid.try_set(x, y, true).is_ok());
        }
    }
    assert_eq!(grid.try_set(3, 0, true), Err(GridError::OutOfRange));
    assert_eq!(grid.try_set(0, 2, true), Err(GridError::OutOfRange));
    grid.flip();
    assert!(grid.get(2, 1));
}

#[test]
fn fill_current_writes_row_major_at_once() {
    let mut grid = BoolGrid::create(3, 2);
    grid.set(0, 0, true);
    let vals = vec![true, false, true, false, true, false];
    grid.fill_current(&vals);
    assert!(grid.get(0, 0));
    assert!(!grid.get(1, 0));
    assert!(grid.get(2, 0));
    assert!(!grid.get(0, 1));
    assert!(grid.get(1, 1));
    assert!(!grid.get(2, 1));
    // the staged write from before survives the fill of the current cells
    grid.flip();
    assert!(grid.get(0, 0));
    assert!(!grid.get(1, 1));
}

#[test]
fn try_create_rejects_zero_dimensions() {
    assert!(BoolGrid::try_create(0, 5).is_none());
    assert!(BoolGrid::try_create(5, 0).is_none());
    assert!(BoolGrid::try_create(0, 0).is_none());
    assert!(BoolGrid::try_create(usize::MAX, 2).is_none());
    let grid = BoolGrid::try_create(5, 4).unwrap();
    assert_eq!(grid.get_width(), 5);
    assert_eq!(grid.get_height(), 4);
    assert!(!grid.get(4, 3));
}
