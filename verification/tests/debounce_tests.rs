use keycore::debounce::Debouncer;
use keycore::event::Event;
use keycore::grid::{grid_from_readings, Grid, COLS, NKEYS, ROWS};

fn grid_with(pressed: &[(usize, usize)]) -> Grid {
    let mut g = Grid::new_released();
    for &(r, c) in pressed {
        g.set(r, c, true);
    }
    g
}

#[test]
fn no_event_before_threshold() {
    let mut d = Debouncer::new(5);
    let raw = grid_with(&[(1, 1)]);
    for _ in 0..4 {
        let evs = d.events(&raw);
        assert_eq!(evs.len(), 0);
    }
    assert!(!d.settled_at(1, 1));
}

#[test]
fn one_event_at_threshold() {
    let mut d = Debouncer::new(5);
    let raw = grid_with(&[(1, 1)]);
    for _ in 0..4 {
        assert_eq!(d.events(&raw).len(), 0);
    }
    let evs = d.events(&raw);
    assert_eq!(evs.len(), 1);
    assert_eq!(evs[0], Event::Press(1, 1));
    assert!(d.settled_at(1, 1));
    // the transition settled: no further events while the sample persists
    assert_eq!(d.events(&raw).len(), 0);
}

#[test]
fn matching_sample_resets_counter() {
    let mut d = Debouncer::new(5);
    let pressed = grid_with(&[(2, 3)]);
    let released = Grid::new_released();
    for _ in 0..4 {
        assert_eq!(d.events(&pressed).len(), 0);
    }
    // one matching sample wipes the four differing ones
    assert_eq!(d.events(&released).len(), 0);
    for _ in 0..4 {
        assert_eq!(d.events(&pressed).len(), 0);
    }
    let evs = d.events(&pressed);
    assert_eq!(evs.len(), 1);
    assert_eq!(evs[0], Event::Press(2, 3));
}

#[test]
fn release_needs_threshold_too() {
    let mut d = Debouncer::new(5);
    let pressed = grid_with(&[(0, 0)]);
    let released = Grid::new_released();
    for _ in 0..5 {
        d.events(&pressed);
    }
    assert!(d.settled_at(0, 0));
    for _ in 0..4 {
        assert_eq!(d.events(&released).len(), 0);
        assert!(d.settled_at(0, 0));
    }
    let evs = d.events(&released);
    assert_eq!(evs.len(), 1);
    assert_eq!(evs[0], Event::Release(0, 0));
    assert!(!d.settled_at(0, 0));
}

#[test]
fn two_cells_emit_in_row_major_order() {
    let mut d = Debouncer::new(5);
    let raw = grid_with(&[(3, 2), (0, 5)]);
    for _ in 0..4 {
        assert_eq!(d.events(&raw).len(), 0);
    }
    let evs = d.events(&raw);
    assert_eq!(evs.len(), 2);
    assert_eq!(evs[0], Event::Press(0, 5));
    assert_eq!(evs[1], Event::Press(3, 2));
}

#[test]
fn threshold_one_settles_immediately() {
    let mut d = Debouncer::new(1);
    let raw = grid_with(&[(1, 7)]);
    let evs = d.events(&raw);
    assert_eq!(evs.len(), 1);
    assert_eq!(evs[0], Event::Press(1, 7));
}

#[test]
fn unreadable_pin_fails_open() {
    let mut readings: Vec<Option<bool>> = vec![Some(false); NKEYS];
    readings[1 * COLS + 1] = None;
    readings[2 * COLS + 2] = Some(true);
    let g = grid_from_readings(&readings);
    assert!(!g.get(1, 1));
    assert!(g.get(2, 2));
    assert!(!g.get(0, 0));
    assert_eq!(ROWS * COLS, NKEYS);
}
