use game_of_life::Universe;

/// A universe whose last tick read exactly `cells` alive.
fn having_read(width: u32, height: u32, cells: &[(u32, u32)]) -> Universe {
    let mut universe = Universe::new(width, height);
    universe.clear();
    universe.set_cells(cells);
    universe.tick();
    universe
}

#[test]
fn live_neighbor_count_wraps_diagonally() {
    let universe = having_read(3, 3, &[(0, 0)]);
    assert_eq!(universe.live_neighbor_count(2, 2), 1);
}

#[test]
fn live_neighbor_count_does_not_count_the_cell_itself() {
    let universe = having_read(3, 3, &[(0, 0)]);
    assert_eq!(universe.live_neighbor_count(0, 0), 0);
    for (row, col) in [(0, 1), (0, 2), (1, 0), (1, 1), (1, 2), (2, 0), (2, 1), (2, 2)] {
        assert_eq!(universe.live_neighbor_count(row, col), 1, "({}, {})", row, col);
    }
}

#[test]
fn live_neighbor_count_wraps_at_each_edge() {
    let universe = having_read(5, 4, &[(0, 2)]);
    // North of row 0 is row 3.
    assert_eq!(universe.live_neighbor_count(3, 1), 1);
    assert_eq!(universe.live_neighbor_count(3, 2), 1);
    assert_eq!(universe.live_neighbor_count(3, 3), 1);
    assert_eq!(universe.live_neighbor_count(2, 2), 0);

    let universe = having_read(5, 4, &[(3, 2)]);
    // South of row 3 is row 0.
    assert_eq!(universe.live_neighbor_count(0, 1), 1);
    assert_eq!(universe.live_neighbor_count(0, 2), 1);
    assert_eq!(universe.live_neighbor_count(0, 3), 1);
    assert_eq!(universe.live_neighbor_count(1, 2), 0);

    let universe = having_read(5, 4, &[(1, 0)]);
    // West of column 0 is column 4.
    assert_eq!(universe.live_neighbor_count(0, 4), 1);
    assert_eq!(universe.live_neighbor_count(1, 4), 1);
    assert_eq!(universe.live_neighbor_count(2, 4), 1);
    assert_eq!(universe.live_neighbor_count(1, 3), 0);

    let universe = having_read(5, 4, &[(1, 4)]);
    // East of column 4 is column 0.
    assert_eq!(universe.live_neighbor_count(0, 0), 1);
    assert_eq!(universe.live_neighbor_count(1, 0), 1);
    assert_eq!(universe.live_neighbor_count(2, 0), 1);
    assert_eq!(universe.live_neighbor_count(1, 1), 0);
}

#[test]
fn live_neighbor_count_uses_row_major_positions() {
    // (1, 3) on a grid five wide is flat position 8, not 3 * 5 + 1.
    let universe = having_read(5, 4, &[(1, 3)]);
    assert_eq!(universe.live_neighbor_count(1, 2), 1);
    assert_eq!(universe.live_neighbor_count(0, 4), 1);
    assert_eq!(universe.live_neighbor_count(2, 3), 1);
    assert_eq!(universe.live_neighbor_count(3, 1), 0);
    assert_eq!(universe.live_neighbor_count(3, 0), 0);
}

#[test]
fn live_neighbor_count_reaches_eight() {
    let ring = [(0, 0), (0, 1), (0, 2), (1, 0), (1, 2), (2, 0), (2, 1), (2, 2)];
    let universe = having_read(5, 5, &ring);
    assert_eq!(universe.live_neighbor_count(1, 1), 8);
    assert_eq!(universe.live_neighbor_count(0, 0), 2);
    assert_eq!(universe.live_neighbor_count(0, 1), 4);
    assert_eq!(universe.live_neighbor_count(3, 1), 3);
    assert_eq!(universe.live_neighbor_count(4, 4), 1);
}

#[test]
fn live_neighbor_count_on_a_single_cell_grid_counts_the_cell_eight_times() {
    let universe = Universe::new(1, 1);
    assert_eq!(universe.live_neighbor_count(0, 0), 8);
    let universe = having_read(1, 1, &[]);
    assert_eq!(universe.live_neighbor_count(0, 0), 0);
}

#[test]
fn live_neighbor_count_on_two_columns_counts_the_other_column_twice() {
    let universe = having_read(2, 3, &[(1, 0)]);
    // West and east of column 1 are both column 0.
    assert_eq!(universe.live_neighbor_count(1, 1), 2);
    assert_eq!(universe.live_neighbor_count(0, 1), 2);
    assert_eq!(universe.live_neighbor_count(0, 0), 1);
    assert_eq!(universe.live_neighbor_count(1, 0), 0);
}
