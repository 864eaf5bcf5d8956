use game_of_life::GridError;
use game_of_life::Universe;

fn is_alive(u: &Universe, row: u32, col: u32) -> bool {
    u.get_cells().contains((row * u.width() + col) as usize)
}

fn sized_empty(width: u32, height: u32) -> Universe {
    let mut u = Universe::empty();
    u.set_width(width).unwrap();
    u.set_height(height).unwrap();
    u
}

#[test]
fn new_has_fixed_pattern() {
    let u = Universe::new();
    assert_eq!(u.width(), 64);
    assert_eq!(u.height(), 64);
    for i in 0..64 * 64usize {
        assert_eq!(u.get_cells().contains(i), i % 2 == 0 || i % 7 == 0);
    }
}

#[test]
fn empty_is_all_dead() {
    let u = Universe::empty();
    assert_eq!(u.width(), 64);
    assert_eq!(u.height(), 64);
    for i in 0..64 * 64usize {
        assert!(!u.get_cells().contains(i));
    }
}

#[test]
fn new_random_copies_draws() {
    let draws = vec![true, false, false, true, true, false];
    let u = Universe::new_random(3, 2, draws.clone()).unwrap();
    assert_eq!(u.width(), 3);
    assert_eq!(u.height(), 2);
    for (i, &alive) in draws.iter().enumerate() {
        assert_eq!(u.get_cells().contains(i), alive);
    }
}

#[test]
fn new_random_rejects_zero_dimension() {
    assert!(matches!(
        Universe::new_random(0, 5, Vec::new()),
        Err(GridError::ZeroDimension)
    ));
    assert!(matches!(
        Universe::new_random(5, 0, Vec::new()),
        Err(GridError::ZeroDimension)
    ));
}

#[test]
fn set_width_clears() {
    let mut u = Universe::new();
    u.set_width(10).unwrap();
    assert_eq!(u.width(), 10);
    assert_eq!(u.height(), 64);
    for i in 0..10 * 64usize {
        assert!(!u.get_cells().contains(i));
    }
}

#[test]
fn set_height_clears() {
    let mut u = Universe::new();
    u.set_height(7).unwrap();
    assert_eq!(u.width(), 64);
    assert_eq!(u.height(), 7);
    for i in 0..64 * 7usize {
        assert!(!u.get_cells().contains(i));
    }
}

#[test]
fn resize_to_zero_rejected() {
    let mut u = Universe::new();
    assert_eq!(u.set_width(0).unwrap_err(), GridError::ZeroDimension);
    assert_eq!(u.set_height(0).unwrap_err(), GridError::ZeroDimension);
    assert_eq!(u.width(), 64);
    assert_eq!(u.height(), 64);
    assert!(u.get_cells().contains(0));
}

#[test]
fn cells_length_matches_dimensions() {
    let mut u = Universe::new();
    assert_eq!(u.get_cells().len(), 64 * 64);
    u.set_width(5).unwrap();
    assert_eq!(u.get_cells().len(), 5 * 64);
    u.set_height(3).unwrap();
    assert_eq!(u.get_cells().len(), 5 * 3);
}

#[test]
fn toggle_cell_flips_and_restores() {
    let mut u = Universe::empty();
    u.toggle_cell(3, 4);
    assert!(is_alive(&u, 3, 4));
    u.toggle_cell(3, 4);
    assert!(!is_alive(&u, 3, 4));
}

#[test]
fn set_cells_marks_alive() {
    let mut u = sized_empty(6, 6);
    u.set_cells(&[(0, 0), (2, 3), (5, 5)]);
    let mut live = Vec::new();
    for row in 0..6 {
        for col in 0..6 {
            if is_alive(&u, row, col) {
                live.push((row, col));
            }
        }
    }
    assert_eq!(live, vec![(0, 0), (2, 3), (5, 5)]);
}

#[test]
fn neighbor_count_stays_in_range() {
    let u = Universe::new();
    for row in 0..64 {
        for col in 0..64 {
            assert!(u.live_neighbor_count(row, col) <= 8);
        }
    }
}

#[test]
fn toroidal_wrap_counts_opposite_corner() {
    let mut u = sized_empty(4, 4);
    u.set_cells(&[(0, 0)]);
    assert_eq!(u.live_neighbor_count(3, 3), 1);
}

#[test]
fn lonely_cell_dies() {
    let mut u = sized_empty(3, 3);
    u.toggle_cell(1, 1);
    u.tick();
    for i in 0..9usize {
        assert!(!u.get_cells().contains(i));
    }
}

#[test]
fn blinker_oscillates_with_period_two() {
    let mut u = sized_empty(5, 5);
    u.set_cells(&[(2, 1), (2, 2), (2, 3)]);
    u.tick();
    let mut vertical = Vec::new();
    for row in 0..5 {
        for col in 0..5 {
            if is_alive(&u, row, col) {
                vertical.push((row, col));
            }
        }
    }
    assert_eq!(vertical, vec![(1, 2), (2, 2), (3, 2)]);
    u.tick();
    let mut back = Vec::new();
    for row in 0..5 {
        for col in 0..5 {
            if is_alive(&u, row, col) {
                back.push((row, col));
            }
        }
    }
    assert_eq!(back, vec![(2, 1), (2, 2), (2, 3)]);
}

#[test]
fn block_is_a_still_life() {
    let mut u = sized_empty(4, 4);
    u.set_cells(&[(1, 1), (1, 2), (2, 1), (2, 2)]);
    u.tick();
    for row in 0..4 {
        for col in 0..4 {
            let expected = (1..=2).contains(&row) && (1..=2).contains(&col);
            assert_eq!(is_alive(&u, row, col), expected);
        }
    }
}

#[test]
fn tick_is_deterministic() {
    let mut a = Universe::new();
    let mut b = Universe::new();
    a.tick();
    b.tick();
    assert_eq!(a.width(), b.width());
    assert_eq!(a.height(), b.height());
    for i in 0..64 * 64usize {
        assert_eq!(a.get_cells().contains(i), b.get_cells().contains(i));
    }
}

#[test]
fn tick_keeps_dimensions() {
    let mut u = sized_empty(9, 5);
    u.tick();
    assert_eq!(u.width(), 9);
    assert_eq!(u.height(), 5);
    assert_eq!(u.get_cells().len(), 45);
}
