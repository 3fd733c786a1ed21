use game_of_life::cell::Cell;

#[test]
fn cell_is_one_byte_zero_or_one() {
    assert_eq!(Cell::Dead.as_byte(), 0);
    assert_eq!(Cell::Alive.as_byte(), 1);
}

#[test]
fn toggled_gives_the_other_state() {
    assert_eq!(Cell::Dead.toggled(), Cell::Alive);
    assert_eq!(Cell::Alive.toggled(), Cell::Dead);
    assert_eq!(Cell::Alive.toggled().toggled(), Cell::Alive);
}

#[test]
fn living_cell_with_fewer_than_two_neighbours_dies() {
    assert_eq!(Cell::Alive.next_state(0), Cell::Dead);
    assert_eq!(Cell::Alive.next_state(1), Cell::Dead);
}

#[test]
fn living_cell_with_two_or_three_neighbours_lives_on() {
    assert_eq!(Cell::Alive.next_state(2), Cell::Alive);
    assert_eq!(Cell::Alive.next_state(3), Cell::Alive);
}

#[test]
fn living_cell_with_more_than_three_neighbours_dies() {
    for live in 4..=8u8 {
        assert_eq!(Cell::Alive.next_state(live), Cell::Dead);
    }
}

#[test]
fn dead_cell_is_born_with_exactly_three_neighbours() {
    for live in 0..=8u8 {
        let expected = if live == 3 { Cell::Alive } else { Cell::Dead };
        assert_eq!(Cell::Dead.next_state(live), expected);
    }
}

#[test]
fn draw_below_one_half_is_alive() {
    assert_eq!(Cell::from_draw(true), Cell::Alive);
    assert_eq!(Cell::from_draw(false), Cell::Dead);
}
