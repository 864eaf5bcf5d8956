use game_of_life::Universe;

const PULSAR_OFFSETS: [(u32, u32); 48] = [
    (0, 2), (0, 3), (0, 4), (0, 8), (0, 9), (0, 10),
    (2, 0), (2, 5), (2, 7), (2, 12),
    (3, 0), (3, 5), (3, 7), (3, 12),
    (4, 0), (4, 5), (4, 7), (4, 12),
    (5, 2), (5, 3), (5, 4), (5, 8), (5, 9), (5, 10),
    (7, 2), (7, 3), (7, 4), (7, 8), (7, 9), (7, 10),
    (8, 0), (8, 5), (8, 7), (8, 12),
    (9, 0), (9, 5), (9, 7), (9, 12),
    (10, 0), (10, 5), (10, 7), (10, 12),
    (12, 2), (12, 3), (12, 4), (12, 8), (12, 9), (12, 10),
];

fn is_alive(u: &Universe, row: u32, col: u32) -> bool {
    u.get_cells().contains((row * u.width() + col) as usize)
}

fn sized_empty(width: u32, height: u32) -> Universe {
    let mut u = Universe::empty();
    u.set_width(width).unwrap();
    u.set_height(height).unwrap();
    u
}

fn live_cells(u: &Universe) -> Vec<(u32, u32)> {
    let mut live = Vec::new();
    for row in 0..u.height() {
        for col in 0..u.width() {
            if is_alive(u, row, col) {
                live.push((row, col));
            }
        }
    }
    live
}

#[test]
fn glider_stamp_placement() {
    let mut u = sized_empty(10, 10);
    u.draw_glider(5, 5);
    assert_eq!(
        live_cells(&u),
        vec![(4, 5), (5, 6), (6, 4), (6, 5), (6, 6)]
    );
}

#[test]
fn glider_wraps_around_origin() {
    let mut u = sized_empty(10, 10);
    u.draw_glider(0, 0);
    assert_eq!(
        live_cells(&u),
        vec![(0, 1), (1, 0), (1, 1), (1, 9), (9, 0)]
    );
}

#[test]
fn glider_stamp_is_idempotent() {
    let mut once = sized_empty(10, 10);
    once.draw_glider(5, 5);
    let mut twice = sized_empty(10, 10);
    twice.draw_glider(5, 5);
    twice.draw_glider(5, 5);
    assert_eq!(live_cells(&once), live_cells(&twice));
}

#[test]
fn pulsar_stamp_is_idempotent() {
    let mut once = sized_empty(17, 17);
    once.draw_pulsar(8, 8);
    let mut twice = sized_empty(17, 17);
    twice.draw_pulsar(8, 8);
    twice.draw_pulsar(8, 8);
    assert_eq!(live_cells(&once), live_cells(&twice));
}

#[test]
fn stamping_only_adds_cells() {
    let mut u = sized_empty(10, 10);
    u.toggle_cell(0, 0);
    u.draw_glider(5, 5);
    assert!(is_alive(&u, 0, 0));
    assert_eq!(live_cells(&u).len(), 6);
}

#[test]
fn pulsar_stamp_placement() {
    let mut u = sized_empty(13, 13);
    u.draw_pulsar(6, 6);
    let mut expected: Vec<(u32, u32)> = PULSAR_OFFSETS.to_vec();
    expected.sort();
    let mut live = live_cells(&u);
    live.sort();
    assert_eq!(live, expected);
}

#[test]
fn pulsar_wraps_at_origin_anchor() {
    let mut u = sized_empty(20, 20);
    u.draw_pulsar(0, 0);
    let live = live_cells(&u);
    assert_eq!(live.len(), 48);
    for (dr, dc) in PULSAR_OFFSETS {
        let row = (14 + dr) % 20;
        let col = (14 + dc) % 20;
        assert!(is_alive(&u, row, col));
    }
}

#[test]
fn pulsar_oscillates_with_period_three() {
    let mut u = sized_empty(21, 21);
    u.draw_pulsar(10, 10);
    let start = live_cells(&u);
    u.tick();
    assert_ne!(live_cells(&u), start);
    u.tick();
    u.tick();
    assert_eq!(live_cells(&u), start);
}

#[test]
fn render_matches_cells_row_major() {
    let mut u = sized_empty(10, 10);
    u.draw_glider(5, 5);
    let text = u.render();
    let lines: Vec<&str> = text.split_terminator('\n').collect();
    assert_eq!(lines.len(), 10);
    for (row, line) in lines.iter().enumerate() {
        let glyphs: Vec<char> = line.chars().collect();
        assert_eq!(glyphs.len(), 10);
        for (col, &g) in glyphs.iter().enumerate() {
            let expected = if is_alive(&u, row as u32, col as u32) {
                '\u{25fc}'
            } else {
                '\u{25fb}'
            };
            assert_eq!(g, expected);
        }
    }
}

#[test]
fn render_small_grid_exact() {
    let mut u = sized_empty(2, 2);
    u.toggle_cell(0, 1);
    assert_eq!(u.render(), "\u{25fb}\u{25fc}\n\u{25fb}\u{25fb}\n");
}
