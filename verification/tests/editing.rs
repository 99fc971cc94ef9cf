use game_of_life::{create_buffer, Universe};

fn frame_of(universe: &Universe) -> Vec<u8> {
    let count = (universe.width() as usize) * (universe.height() as usize);
    let mut buffer = create_buffer(4 * count);
    universe.render_into(&mut buffer);
    buffer
}

fn alive_at(universe: &Universe, row: u32, col: u32) -> bool {
    let i = (row as usize) * (universe.width() as usize) + (col as usize);
    frame_of(universe)[4 * i] == 0
}

#[test]
fn clear_then_render_is_all_white() {
    let mut universe = Universe::new(6, 4);
    universe.clear();
    assert_eq!(frame_of(&universe), vec![0xffu8; 4 * 6 * 4]);
}

#[test]
fn clear_after_ticks_is_all_white() {
    let mut universe = Universe::new(8, 8);
    universe.tick();
    universe.tick();
    universe.clear();
    assert_eq!(frame_of(&universe), vec![0xffu8; 4 * 8 * 8]);
}

#[test]
fn clear_twice_is_clear_once() {
    let mut once = Universe::new(5, 5);
    once.clear();
    let mut twice = Universe::new(5, 5);
    twice.clear();
    twice.clear();
    assert_eq!(once, twice);
    assert_eq!(frame_of(&once), frame_of(&twice));
}

#[test]
fn clear_keeps_the_dimensions() {
    let mut universe = Universe::new(3, 8);
    universe.clear();
    assert_eq!(universe.width(), 3);
    assert_eq!(universe.height(), 8);
}

#[test]
fn clear_leaves_the_generation_read_from() {
    let mut universe = Universe::new(3, 3);
    universe.clear();
    // The neighbour counts are still those of the seed.
    assert_eq!(universe.live_neighbor_count(1, 1), 5);
    assert_eq!(universe.live_neighbor_count(0, 1), 6);
}

#[test]
fn clear_then_tick_stays_dead() {
    let mut universe = Universe::new(7, 5);
    universe.clear();
    universe.tick();
    assert_eq!(frame_of(&universe), vec![0xffu8; 4 * 7 * 5]);
}

#[test]
fn set_cells_revives_the_cells_named() {
    let mut universe = Universe::new(4, 3);
    universe.clear();
    universe.set_cells(&[(0, 0), (1, 2), (2, 3)]);
    for row in 0..3u32 {
        for col in 0..4u32 {
            let expected = [(0, 0), (1, 2), (2, 3)].contains(&(row, col));
            assert_eq!(alive_at(&universe, row, col), expected, "({}, {})", row, col);
        }
    }
}

#[test]
fn set_cells_takes_row_first_and_column_second() {
    let mut universe = Universe::new(5, 2);
    universe.clear();
    universe.set_cells(&[(1, 3)]);
    let frame = frame_of(&universe);
    // Flat position 1 * 5 + 3.
    assert_eq!(&frame[32..36], &[0, 0, 0, 0xff][..]);
    assert_eq!(frame.iter().filter(|byte| **byte == 0).count(), 3);
}

#[test]
fn set_cells_never_kills_a_cell() {
    let mut universe = Universe::new(6, 6);
    let before = frame_of(&universe);
    universe.set_cells(&[(0, 1), (0, 2), (3, 3), (5, 5)]);
    let after = frame_of(&universe);
    for i in 0..36 {
        if before[4 * i] == 0 {
            assert_eq!(after[4 * i], 0, "cell {} was alive", i);
        }
    }
    assert!(alive_at(&universe, 0, 1));
    assert!(alive_at(&universe, 3, 3));
    assert!(alive_at(&universe, 5, 5));
}

#[test]
fn set_cells_changes_no_cell_that_is_not_named() {
    let mut universe = Universe::new(6, 6);
    let before = frame_of(&universe);
    universe.set_cells(&[(0, 1), (3, 3)]);
    let after = frame_of(&universe);
    for i in 0..36usize {
        if i != 1 && i != 21 {
            assert_eq!(&before[4 * i..4 * i + 4], &after[4 * i..4 * i + 4], "cell {}", i);
        }
    }
}

#[test]
fn set_cells_with_no_cells_changes_nothing() {
    let mut universe = Universe::new(5, 4);
    universe.tick();
    let before = universe.clone();
    universe.set_cells(&[]);
    assert_eq!(universe, before);
}

#[test]
fn set_cells_accepts_a_pair_twice() {
    let mut universe = Universe::new(3, 3);
    universe.clear();
    universe.set_cells(&[(1, 1), (1, 1)]);
    let mut single = Universe::new(3, 3);
    single.clear();
    single.set_cells(&[(1, 1)]);
    assert_eq!(universe, single);
}

#[test]
fn set_cells_in_two_calls_is_set_cells_in_one() {
    let mut split = Universe::new(4, 4);
    split.clear();
    split.set_cells(&[(0, 3), (2, 2)]);
    split.set_cells(&[(3, 0)]);
    let mut whole = Universe::new(4, 4);
    whole.clear();
    whole.set_cells(&[(0, 3), (2, 2), (3, 0)]);
    assert_eq!(split, whole);
}

#[test]
fn set_cells_reaches_the_corners() {
    let mut universe = Universe::new(4, 3);
    universe.clear();
    universe.set_cells(&[(0, 0), (0, 3), (2, 0), (2, 3)]);
    assert!(alive_at(&universe, 0, 0));
    assert!(alive_at(&universe, 0, 3));
    assert!(alive_at(&universe, 2, 0));
    assert!(alive_at(&universe, 2, 3));
    assert_eq!(frame_of(&universe).iter().filter(|byte| **byte == 0).count(), 12);
}

#[test]
fn set_cells_leaves_the_generation_read_from() {
    let mut universe = Universe::new(3, 3);
    universe.set_cells(&[(0, 1), (1, 0), (1, 2)]);
    assert_eq!(universe.live_neighbor_count(1, 1), 5);
}

#[test]
fn clone_is_equal_and_independent() {
    let mut universe = Universe::new(5, 5);
    universe.tick();
    let copy = universe.clone();
    assert_eq!(copy, universe);
    assert_eq!(frame_of(&copy), frame_of(&universe));
    universe.clear();
    assert_ne!(copy, universe);
    assert_eq!(copy.width(), 5);
    assert_eq!(copy.height(), 5);
}
