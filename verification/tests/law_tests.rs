use gol::grid::{BoolGrid, Grid};

#[test]
fn corner_has_at_most_three_neighbours() {
    let mut grid = BoolGrid::create(3, 3);
    for x in 0..3 {
        for y in 0..3 {
            grid.set(x, y, true);
        }
    }
    grid.flip();
    assert_eq!(grid.count_neighbours(0, 0), 3);
    assert_eq!(grid.count_neighbours(2, 2), 3);
    assert_eq!(grid.count_neighbours(1, 1), 8);
}

#[test]
fn block_is_a_still_life() {
    let mut grid = BoolGrid::create(5, 4);
    grid.set(1, 1, true);
    grid.set(2, 1, true);
    grid.set(1, 2, true);
    grid.set(2, 2, true);
    grid.flip();
    for _ in 0..6 {
        grid.step();
        for x in 0..5 {
            for y in 0..4 {
                let expected = (x == 1 || x == 2) && (y == 1 || y == 2);
                assert_eq!(grid.get(x, y), expected);
            }
        }
    }
}

#[test]
fn isolated_cell_dies() {
    let mut grid = BoolGrid::create(5, 5);
    grid.set(2, 2, true);
    grid.flip();
    grid.step();
    for x in 0..5 {
        for y in 0..5 {
            assert!(!grid.get(x, y));
        }
    }
}

#[test]
fn dead_cell_with_three_neighbours_is_born() {
    let mut grid = BoolGrid::create(5, 5);
    grid.set(1, 1, true);
    grid.set(1, 2, true);
    grid.set(1, 3, true);
    grid.flip();
    assert!(!grid.get(2, 2));
    grid.step();
    assert!(grid.get(2, 2));
}

#[test]
fn dead_cell_with_two_neighbours_stays_dead() {
    let mut grid = BoolGrid::create(5, 5);
    grid.set(1, 1, true);
    grid.set(1, 2, true);
    grid.flip();
    grid.step();
    assert!(!grid.get(2, 2));
}

#[test]
fn dead_cell_with_four_neighbours_stays_dead() {
    let mut grid = BoolGrid::create(5, 5);
    grid.set(1, 1, true);
    grid.set(1, 2, true);
    grid.set(1, 3, true);
    grid.set(2, 1, true);
    grid.flip();
    grid.step();
    assert!(!grid.get(2, 2));
}

#[test]
fn identical_histories_give_identical_boards() {
    let mut a = BoolGrid::create(6, 6);
    let mut b = BoolGrid::create(6, 6);
    let pattern = [(1usize, 2usize), (2, 2), (3, 2), (3, 1), (2, 0)];
    for &(x, y) in pattern.iter() {
        a.set(x, y, true);
        b.set(x, y, true);
    }
    a.flip();
    b.flip();
    for _ in 0..4 {
        a.step();
        b.step();
        for x in 0..6 {
            for y in 0..6 {
                assert_eq!(a.get(x, y), b.get(x, y));
            }
        }
    }
}
