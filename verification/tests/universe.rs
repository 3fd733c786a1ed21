use game_of_life::cell::Cell;
use game_of_life::universe::{default_pattern, FillPolicy, GridError, Universe};

type Rule = fn(usize) -> bool;

fn blank(width: u32, height: u32) -> Universe {
    Universe::new(width, height, FillPolicy::<Rule>::AllDead)
}

fn alive_places(universe: &Universe) -> Vec<usize> {
    let mut places = Vec::new();
    for (i, cell) in universe.cells().iter().enumerate() {
        if *cell == Cell::Alive {
            places.push(i);
        }
    }
    places
}

#[test]
fn new_all_dead_has_one_dead_cell_for_each_place() {
    let u = blank(7, 5);
    assert_eq!(u.width(), 7);
    assert_eq!(u.height(), 5);
    assert_eq!(u.cells().len(), 35);
    assert!(u.cells().iter().all(|c| *c == Cell::Dead));
}

#[test]
fn new_with_a_zero_dimension_is_empty() {
    let a = blank(0, 0);
    assert_eq!(a.cells().len(), 0);
    assert_eq!((a.width(), a.height()), (0, 0));
    let b = blank(0, 9);
    assert_eq!(b.cells().len(), 0);
    assert_eq!((b.width(), b.height()), (0, 9));
    let c = blank(4, 0);
    assert_eq!(c.cells().len(), 0);
    assert_eq!((c.width(), c.height()), (4, 0));
}

#[test]
fn new_random_follows_the_draws() {
    let draws = vec![true, false, false, true, true, false];
    let u = Universe::new(3, 2, FillPolicy::<Rule>::Random(draws));
    assert_eq!(
        u.cells().to_vec(),
        vec![Cell::Alive, Cell::Dead, Cell::Dead, Cell::Alive, Cell::Alive, Cell::Dead]
    );
}

#[test]
fn new_deterministic_pattern_follows_the_rule() {
    let u = Universe::new(64, 64, FillPolicy::DeterministicPattern(default_pattern));
    assert_eq!(u.width(), 64);
    assert_eq!(u.height(), 64);
    assert_eq!(u.cells().len(), 4096);
    for (i, cell) in u.cells().iter().enumerate() {
        let expected = if i % 2 == 0 || i % 7 == 0 { Cell::Alive } else { Cell::Dead };
        assert_eq!(*cell, expected, "place {}", i);
    }
}

#[test]
fn new_deterministic_pattern_takes_a_closure() {
    let u = Universe::new(5, 2, FillPolicy::DeterministicPattern(|i: usize| i % 3 == 1));
    assert_eq!(alive_places(&u), vec![1, 4, 7]);
}

#[test]
fn default_pattern_marks_multiples_of_two_and_seven() {
    assert!(default_pattern(0));
    assert!(!default_pattern(1));
    assert!(default_pattern(2));
    assert!(!default_pattern(5));
    assert!(default_pattern(7));
    assert!(default_pattern(21));
    assert!(!default_pattern(23));
}

#[test]
fn cells_are_stored_row_by_row() {
    let mut u = blank(4, 3);
    assert_eq!(u.toggle_cell(1, 2), Ok(()));
    assert_eq!(alive_places(&u), vec![1 * 4 + 2]);
    assert_eq!(u.toggle_cell(2, 3), Ok(()));
    assert_eq!(alive_places(&u), vec![6, 11]);
}

#[test]
fn set_width_discards_content() {
    let mut u = Universe::new(6, 4, FillPolicy::DeterministicPattern(default_pattern));
    assert!(!alive_places(&u).is_empty());
    u.set_width(9);
    assert_eq!(u.width(), 9);
    assert_eq!(u.height(), 4);
    assert_eq!(u.cells().len(), 36);
    assert!(u.cells().iter().all(|c| *c == Cell::Dead));
}

#[test]
fn set_height_discards_content() {
    let mut u = Universe::new(6, 4, FillPolicy::DeterministicPattern(default_pattern));
    u.set_height(2);
    assert_eq!(u.width(), 6);
    assert_eq!(u.height(), 2);
    assert_eq!(u.cells().len(), 12);
    assert!(u.cells().iter().all(|c| *c == Cell::Dead));
}

#[test]
fn set_width_to_the_same_value_still_clears() {
    let mut u = Universe::new(6, 4, FillPolicy::DeterministicPattern(default_pattern));
    u.set_width(6);
    assert_eq!(u.cells().len(), 24);
    assert!(alive_places(&u).is_empty());
}

#[test]
fn set_width_to_zero_empties_the_grid() {
    let mut u = Universe::new(6, 4, FillPolicy::DeterministicPattern(default_pattern));
    u.set_width(0);
    assert_eq!(u.cells().len(), 0);
    assert_eq!(u.render(), "\n\n\n\n");
}

#[test]
fn reset_kills_every_cell_and_keeps_the_size() {
    let mut u = Universe::new(6, 4, FillPolicy::DeterministicPattern(default_pattern));
    u.reset();
    assert_eq!((u.width(), u.height()), (6, 4));
    assert_eq!(u.cells().len(), 24);
    assert!(alive_places(&u).is_empty());
}

#[test]
fn randomize_sets_each_cell_from_its_draw() {
    let mut u = Universe::new(2, 3, FillPolicy::DeterministicPattern(default_pattern));
    let draws = [false, true, true, true, false, false];
    u.randomize(&draws);
    assert_eq!((u.width(), u.height()), (2, 3));
    assert_eq!(alive_places(&u), vec![1, 2, 3]);
    let other = [true, false, false, false, true, true];
    u.randomize(&other);
    assert_eq!(alive_places(&u), vec![0, 4, 5]);
}

#[test]
fn toggle_cell_twice_returns_the_grid() {
    let mut u = Universe::new(5, 5, FillPolicy::DeterministicPattern(default_pattern));
    let before = u.cells().to_vec();
    assert_eq!(u.toggle_cell(3, 1), Ok(()));
    let between = u.cells().to_vec();
    for i in 0..25 {
        if i == 3 * 5 + 1 {
            assert_ne!(between[i], before[i]);
        } else {
            assert_eq!(between[i], before[i]);
        }
    }
    assert_eq!(u.toggle_cell(3, 1), Ok(()));
    assert_eq!(u.cells().to_vec(), before);
}

#[test]
fn toggle_cell_out_of_range_is_refused() {
    let mut u = Universe::new(5, 4, FillPolicy::DeterministicPattern(default_pattern));
    let before = u.cells().to_vec();
    assert_eq!(u.toggle_cell(4, 0), Err(GridError::OutOfRange));
    assert_eq!(u.toggle_cell(0, 5), Err(GridError::OutOfRange));
    assert_eq!(u.toggle_cell(u32::MAX, u32::MAX), Err(GridError::OutOfRange));
    assert_eq!(u.cells().to_vec(), before);
    assert_eq!(u.toggle_cell(3, 4), Ok(()));
}

#[test]
fn toggle_cell_on_an_empty_grid_is_refused() {
    let mut u = blank(0, 0);
    assert_eq!(u.toggle_cell(0, 0), Err(GridError::OutOfRange));
}

#[test]
fn set_cells_sets_exactly_the_named_cells() {
    let mut u = blank(4, 4);
    assert_eq!(u.toggle_cell(0, 0), Ok(()));
    assert_eq!(u.set_cells(&[(1, 2), (3, 3), (2, 0)]), Ok(()));
    assert_eq!(alive_places(&u), vec![0, 6, 8, 15]);
}

#[test]
fn set_cells_twice_is_the_same_as_once() {
    let coords = [(1, 2), (3, 3), (2, 0), (1, 2)];
    let mut u = Universe::new(4, 4, FillPolicy::DeterministicPattern(|i: usize| i == 5));
    assert_eq!(u.set_cells(&coords), Ok(()));
    let once = u.cells().to_vec();
    assert_eq!(alive_places(&u), vec![5, 6, 8, 15]);
    assert_eq!(u.set_cells(&coords), Ok(()));
    assert_eq!(u.cells().to_vec(), once);
}

#[test]
fn set_cells_with_no_pair_changes_nothing() {
    let mut u = Universe::new(4, 4, FillPolicy::DeterministicPattern(default_pattern));
    let before = u.cells().to_vec();
    assert_eq!(u.set_cells(&[]), Ok(()));
    assert_eq!(u.cells().to_vec(), before);
}

#[test]
fn set_cells_out_of_range_changes_nothing() {
    let mut u = blank(4, 3);
    assert_eq!(u.set_cells(&[(0, 0), (1, 1), (3, 0)]), Err(GridError::OutOfRange));
    assert!(alive_places(&u).is_empty());
    assert_eq!(u.set_cells(&[(0, 0), (0, 4)]), Err(GridError::OutOfRange));
    assert!(alive_places(&u).is_empty());
    assert_eq!(u.set_cells(&[(2, 3)]), Ok(()));
    assert_eq!(alive_places(&u), vec![11]);
}

#[test]
fn render_draws_one_line_for_each_row() {
    let mut u = blank(3, 2);
    assert_eq!(u.set_cells(&[(0, 1), (1, 0), (1, 2)]), Ok(()));
    let text = u.render();
    assert_eq!(text, "\u{25FB}\u{25FC}\u{25FB}\n\u{25FC}\u{25FB}\u{25FC}\n");
    let lines: Vec<&str> = text.lines().collect();
    assert_eq!(lines.len(), 2);
    for (row, line) in lines.iter().enumerate() {
        let glyphs: Vec<char> = line.chars().collect();
        assert_eq!(glyphs.len(), 3);
        for (column, glyph) in glyphs.iter().enumerate() {
            let alive = u.cells()[row * 3 + column] == Cell::Alive;
            assert_eq!(*glyph == '\u{25FC}', alive);
            assert_eq!(*glyph == '\u{25FB}', !alive);
        }
    }
}

#[test]
fn render_of_an_empty_grid_is_empty() {
    assert_eq!(blank(0, 0).render(), "");
    assert_eq!(blank(5, 0).render(), "");
    assert_eq!(blank(0, 3).render(), "\n\n\n");
}

#[test]
fn render_does_not_change_the_grid() {
    let u = Universe::new(6, 4, FillPolicy::DeterministicPattern(default_pattern));
    let before = u.cells().to_vec();
    let first = u.render();
    let second = u.render();
    assert_eq!(first, second);
    assert_eq!(u.cells().to_vec(), before);
}
