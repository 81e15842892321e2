use wcbe::befunge98::{Direction, FungeSpace};
use wcbe::outside::PositionMap;

#[test]
fn empty_space_reads_spaces() {
    let m = FungeSpace::new();
    assert_eq!(m.get((0, 0)), 32);
    assert_eq!(m.get((500, 7)), 32);
    assert_eq!(m.program_size(), (11, 11));
}

#[test]
fn negative_positions_read_zero() {
    let m = FungeSpace::new();
    assert_eq!(m.get((-1, 0)), 0);
    assert_eq!(m.get((3, -4)), 0);
}

#[test]
fn read_after_write_on_zero_page() {
    let mut m = FungeSpace::new();
    m.set((3, 4), 65);
    assert_eq!(m.get((3, 4)), 65);
    assert_eq!(m.get((4, 3)), 32);
    assert_eq!(m.program_size(), (11, 11));
}

#[test]
fn read_after_write_far_away() {
    let mut m = FungeSpace::new();
    m.set((50, 60), -9);
    assert_eq!(m.get((50, 60)), -9);
    assert_eq!(m.get((60, 50)), 32);
    assert_eq!(m.program_size(), (50, 60));
}

#[test]
fn writing_a_space_far_away_clears_the_cell() {
    let mut m = FungeSpace::new();
    m.set((100, 1), 7);
    m.set((100, 1), 32);
    assert_eq!(m.get((100, 1)), 32);
    assert_eq!(m.get_nullable((100, 1)), None);
    assert_eq!(m.program_size(), (100, 11));
}

#[test]
fn negative_write_is_dropped() {
    let mut m = FungeSpace::new();
    m.set((-5, 2), 99);
    assert_eq!(m.get((-5, 2)), 0);
    assert_eq!(m.program_size(), (11, 11));
    assert_eq!(m.entries().len(), 100);
}

#[test]
fn write_leaves_other_cells() {
    let mut m = FungeSpace::new();
    m.set((1, 1), 10);
    m.set((20, 20), 11);
    m.set((1, 2), 12);
    assert_eq!(m.get((1, 1)), 10);
    assert_eq!(m.get((20, 20)), 11);
    assert_eq!(m.get((1, 2)), 12);
}

#[test]
fn nullable_reads() {
    let mut m = FungeSpace::new();
    assert_eq!(m.get_nullable((2, 2)), Some(32));
    assert_eq!(m.get_nullable((30, 2)), None);
    m.set((30, 2), 5);
    assert_eq!(m.get_nullable((30, 2)), Some(5));
    assert_eq!(m.get_nullable((-3, 5)), Some(32));
}

#[test]
fn entries_list_every_stored_cell_and_the_zero_page() {
    let mut m = FungeSpace::new();
    m.set((40, 41), 1);
    m.set((2, 0), 2);
    let e = m.entries();
    assert_eq!(e.len(), 101);
    assert_eq!(e[0], ((40, 41), 1));
    assert_eq!(e[1], ((0, 0), 32));
    assert_eq!(e[3], ((2, 0), 2));
    assert_eq!(e[100], ((9, 9), 32));
}

#[test]
fn loading_a_program_moves_the_zero_page_into_the_array() {
    let mut map: PositionMap<i64> = PositionMap::default();
    map.insert((0, 0), 64);
    map.insert((9, 9), 65);
    map.insert((12, 3), 66);
    let m = FungeSpace::new_from_fungespace(map, (13, 10));
    assert_eq!(m.get((0, 0)), 64);
    assert_eq!(m.get((9, 9)), 65);
    assert_eq!(m.get((12, 3)), 66);
    assert_eq!(m.get((1, 0)), 32);
    assert_eq!(m.program_size(), (13, 10));
    assert_eq!(m.entries().len(), 101);
}

#[test]
fn clone_keeps_cells() {
    let mut m = FungeSpace::new();
    m.set((70, 3), 8);
    let c = m.clone();
    assert_eq!(c.get((70, 3)), 8);
    assert_eq!(c.program_size(), (70, 11));
}

#[test]
fn directions_turn() {
    let e = Direction::east();
    assert_eq!(e.turn_right(), Direction::south());
    assert_eq!(e.turn_left(), Direction::north());
    assert_eq!(e.reverse(), Direction::west());
    assert_eq!(Direction::north().turn_right(), Direction::east());
    assert_eq!(Direction::west().turn_right(), Direction::north());
}

#[test]
fn turns_undo_each_other() {
    let d = Direction(3, -7);
    assert_eq!(d.turn_right().turn_left(), d);
    assert_eq!(d.turn_left().turn_right(), d);
    assert_eq!(d.turn_right().turn_right(), d.reverse());
    assert_eq!(d.reverse().reverse(), d);
    assert_eq!(d.turn_right(), Direction(7, 3));
}

#[test]
fn reversing_the_most_negative_delta_wraps() {
    let d = Direction(i64::MIN, 1);
    assert_eq!(d.reverse(), Direction(i64::MIN, -1));
    assert_eq!(d.reverse().reverse(), d);
}
