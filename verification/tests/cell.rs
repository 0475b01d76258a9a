use game_of_life::cell::Cell;

#[test]
fn toggle_flips_a_cell() {
    let mut cell = Cell::Dead;
    cell.toggle();
    assert_eq!(cell, Cell::Alive);
    cell.toggle();
    assert_eq!(cell, Cell::Dead);
}

#[test]
fn a_live_cell_counts_one_and_a_dead_cell_zero() {
    assert_eq!(Cell::Alive.as_u8(), 1);
    assert_eq!(Cell::Dead.as_u8(), 0);
}

#[test]
fn a_live_cell_with_fewer_than_two_neighbours_dies() {
    assert_eq!(Cell::Alive.next(0), Cell::Dead);
    assert_eq!(Cell::Alive.next(1), Cell::Dead);
}

#[test]
fn a_live_cell_with_two_or_three_neighbours_lives_on() {
    assert_eq!(Cell::Alive.next(2), Cell::Alive);
    assert_eq!(Cell::Alive.next(3), Cell::Alive);
}

#[test]
fn a_live_cell_with_more_than_three_neighbours_dies() {
    for live_neighbors in 4..=8u8 {
        assert_eq!(Cell::Alive.next(live_neighbors), Cell::Dead);
    }
}

#[test]
fn a_dead_cell_with_exactly_three_neighbours_comes_alive() {
    assert_eq!(Cell::Dead.next(3), Cell::Alive);
}

#[test]
fn a_dead_cell_with_any_other_count_stays_dead() {
    for live_neighbors in [0u8, 1, 2, 4, 5, 6, 7, 8] {
        assert_eq!(Cell::Dead.next(live_neighbors), Cell::Dead);
    }
}
