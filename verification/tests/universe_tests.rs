use life_game_core::Universe;

fn dead_grid(rows: usize, cols: usize) -> Vec<Vec<u8>> {
    vec![vec![0u8; cols]; rows]
}

#[test]
fn new_default_is_25_by_25_all_dead() {
    let u = Universe::new(None, None);
    assert_eq!(u.get_grid(), dead_grid(25, 25));
    assert!(!u.has_history());
}

#[test]
fn default_matches_new_without_dimensions() {
    let u = Universe::default();
    assert_eq!(u.get_grid(), dead_grid(25, 25));
    assert!(!u.has_history());
}

#[test]
fn new_explicit_dimensions() {
    let u = Universe::new(Some(3), Some(7));
    assert_eq!(u.get_grid(), dead_grid(3, 7));
}

#[test]
fn clear_resets_every_cell() {
    let mut u = Universe::new(Some(4), Some(4));
    u.toggle_cell(0, 0);
    u.toggle_cell(1, 2);
    u.toggle_cell(3, 3);
    u.next_generation();
    u.clear();
    assert_eq!(u.get_grid(), dead_grid(4, 4));
    // clear does not touch the history
    assert!(u.has_history());
}

#[test]
fn clear_history_keeps_grid() {
    let mut u = Universe::new(Some(3), Some(3));
    u.toggle_cell(1, 1);
    u.next_generation();
    u.next_generation();
    assert!(u.has_history());
    let before = u.get_grid();
    u.clear_history();
    assert!(!u.has_history());
    assert_eq!(u.get_grid(), before);
    assert!(!u.prev_generation());
}

#[test]
fn toggle_twice_restores_grid() {
    let mut u = Universe::new(Some(3), Some(4));
    u.toggle_cell(0, 1);
    u.toggle_cell(2, 3);
    let original = u.get_grid();

    u.toggle_cell(1, 2);
    let once = u.get_grid();
    assert_eq!(once[1][2], 1);
    // every other cell is unchanged
    for r in 0..3 {
        for c in 0..4 {
            if (r, c) != (1, 2) {
                assert_eq!(once[r][c], original[r][c]);
            }
        }
    }

    u.toggle_cell(1, 2);
    assert_eq!(u.get_grid(), original);
}

#[test]
fn toggle_out_of_bounds_is_silent_noop() {
    let mut u = Universe::new(Some(3), Some(5));
    u.toggle_cell(1, 1);
    u.toggle_cell(2, 4);
    let before = u.get_grid();
    u.toggle_cell(3, 0); // row == rows
    u.toggle_cell(0, 5); // col == cols
    u.toggle_cell(usize::MAX, 0); // negative-equivalent
    u.toggle_cell(0, usize::MAX);
    u.toggle_cell(usize::MAX, usize::MAX);
    assert_eq!(u.get_grid(), before);
}

#[test]
fn next_generation_is_deterministic() {
    let mut a = Universe::new(Some(5), Some(5));
    let mut b = Universe::new(Some(5), Some(5));
    for &(r, c) in &[(0usize, 0usize), (1, 2), (2, 2), (3, 2), (4, 4), (2, 1)] {
        a.toggle_cell(r, c);
        b.toggle_cell(r, c);
    }
    assert_eq!(a.get_grid(), b.get_grid());
    a.next_generation();
    b.next_generation();
    assert_eq!(a.get_grid(), b.get_grid());
}

#[test]
fn block_is_stable() {
    let mut u = Universe::new(Some(4), Some(4));
    for &(r, c) in &[(1usize, 1usize), (1, 2), (2, 1), (2, 2)] {
        u.toggle_cell(r, c);
    }
    let block = u.get_grid();
    u.next_generation();
    assert_eq!(u.get_grid(), block);
    u.next_generation();
    assert_eq!(u.get_grid(), block);
}

#[test]
fn blinker_oscillates_with_period_two() {
    let mut u = Universe::new(Some(5), Some(5));
    for &(r, c) in &[(2usize, 1usize), (2, 2), (2, 3)] {
        u.toggle_cell(r, c);
    }
    let horizontal = u.get_grid();

    u.next_generation();
    let mut vertical = dead_grid(5, 5);
    vertical[1][2] = 1;
    vertical[2][2] = 1;
    vertical[3][2] = 1;
    assert_eq!(u.get_grid(), vertical);

    u.next_generation();
    assert_eq!(u.get_grid(), horizontal);
}

#[test]
fn history_rewind_restores_fresh_universe() {
    let mut u = Universe::new(Some(4), Some(6));
    let origin = u.get_grid();
    let k: usize = 5;
    for _ in 0..k {
        u.next_generation();
    }
    assert!(u.has_history());
    for _ in 0..k {
        assert!(u.prev_generation());
    }
    assert_eq!(u.get_grid(), origin);
    assert!(!u.has_history());
    // with no history left, a further rewind reports false and changes nothing
    assert!(!u.prev_generation());
    assert_eq!(u.get_grid(), origin);
}

#[test]
fn history_rewind_restores_pattern_step_by_step() {
    let mut u = Universe::new(Some(5), Some(5));
    for &(r, c) in &[(2usize, 1usize), (2, 2), (2, 3)] {
        u.toggle_cell(r, c);
    }
    let start = u.get_grid();
    u.next_generation();
    let middle = u.get_grid();
    u.next_generation();
    assert!(u.prev_generation());
    assert_eq!(u.get_grid(), middle);
    assert!(u.prev_generation());
    assert_eq!(u.get_grid(), start);
    assert!(!u.prev_generation());
}

#[test]
fn history_capped_at_100_oldest_dropped_first() {
    let mut u = Universe::new(Some(3), Some(3));
    // a blinker, so successive generations differ
    for &(r, c) in &[(1usize, 0usize), (1, 1), (1, 2)] {
        u.toggle_cell(r, c);
    }
    for _ in 0..5 {
        u.next_generation();
    }
    let after_five = u.get_grid();
    for _ in 0..100 {
        u.next_generation();
    }
    // 105 snapshots were pushed; only the most recent 100 remain
    for _ in 0..100 {
        assert!(u.prev_generation());
    }
    // the oldest surviving snapshot is the grid as it stood after 5 steps
    assert_eq!(u.get_grid(), after_five);
    assert!(!u.has_history());
    assert!(!u.prev_generation());
}

#[test]
fn live_cell_with_zero_or_one_neighbor_dies() {
    // lone live cell: 0 neighbors
    let mut u = Universe::new(Some(3), Some(3));
    u.toggle_cell(1, 1);
    u.next_generation();
    assert_eq!(u.get_grid(), dead_grid(3, 3));

    // pair: each live cell has exactly 1 neighbor
    let mut u = Universe::new(Some(3), Some(3));
    u.toggle_cell(1, 0);
    u.toggle_cell(1, 1);
    u.next_generation();
    assert_eq!(u.get_grid(), dead_grid(3, 3));
}

#[test]
fn live_cell_with_two_or_three_neighbors_survives() {
    // center of a blinker has 2 neighbors
    let mut u = Universe::new(Some(3), Some(3));
    u.toggle_cell(1, 0);
    u.toggle_cell(1, 1);
    u.toggle_cell(1, 2);
    u.next_generation();
    assert_eq!(u.get_grid()[1][1], 1);

    // every cell of a block has 3 neighbors
    let mut u = Universe::new(Some(4), Some(4));
    for &(r, c) in &[(1usize, 1usize), (1, 2), (2, 1), (2, 2)] {
        u.toggle_cell(r, c);
    }
    u.next_generation();
    assert_eq!(u.get_grid()[1][1], 1);
    assert_eq!(u.get_grid()[2][2], 1);
}

#[test]
fn live_cell_with_four_or_more_neighbors_dies() {
    // center cell with 4 live neighbors (plus shape)
    let mut u = Universe::new(Some(3), Some(3));
    for &(r, c) in &[(1usize, 1usize), (0, 1), (2, 1), (1, 0), (1, 2)] {
        u.toggle_cell(r, c);
    }
    u.next_generation();
    assert_eq!(u.get_grid()[1][1], 0);

    // center cell with all 8 neighbors alive
    let mut u = Universe::new(Some(3), Some(3));
    for r in 0..3 {
        for c in 0..3 {
            u.toggle_cell(r, c);
        }
    }
    u.next_generation();
    assert_eq!(u.get_grid()[1][1], 0);
}

#[test]
fn dead_cell_with_exactly_three_neighbors_becomes_alive() {
    let mut u = Universe::new(Some(3), Some(3));
    u.toggle_cell(0, 1);
    u.toggle_cell(1, 0);
    u.toggle_cell(1, 2);
    assert_eq!(u.get_grid()[1][1], 0);
    u.next_generation();
    assert_eq!(u.get_grid()[1][1], 1);
}

#[test]
fn dead_cell_with_other_neighbor_counts_stays_dead() {
    // 2 neighbors: corner (0,0) next to a vertical pair stays dead
    let mut u = Universe::new(Some(3), Some(3));
    u.toggle_cell(0, 1);
    u.toggle_cell(1, 1);
    assert_eq!(u.get_grid()[0][0], 0);
    u.next_generation();
    assert_eq!(u.get_grid()[0][0], 0);

    // 4 neighbors: center of a plus shape with a dead middle stays dead
    let mut u = Universe::new(Some(3), Some(3));
    for &(r, c) in &[(0usize, 1usize), (2, 1), (1, 0), (1, 2)] {
        u.toggle_cell(r, c);
    }
    u.next_generation();
    assert_eq!(u.get_grid()[1][1], 0);
}

#[test]
fn random_fills_grid_from_draws() {
    let mut u = Universe::new(Some(2), Some(3));
    u.next_generation(); // give it some history first
    let draws: Vec<u8> = vec![0, 1, 0, 2, 0, 255];
    u.random(&draws);
    assert_eq!(u.get_grid(), vec![vec![0, 1, 0], vec![1, 0, 1]]);
    // history is untouched by random
    assert!(u.has_history());

    let all_zero: Vec<u8> = vec![0; 6];
    u.random(&all_zero);
    assert_eq!(u.get_grid(), dead_grid(2, 3));
}

#[test]
fn get_grid_returns_an_owned_copy() {
    let mut u = Universe::new(Some(2), Some(2));
    u.toggle_cell(0, 0);
    let mut copy = u.get_grid();
    copy[0][0] = 0;
    copy[1][1] = 1;
    assert_eq!(u.get_grid(), vec![vec![1, 0], vec![0, 0]]);
}
