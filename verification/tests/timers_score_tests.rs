use snake_game::geometry::Position;
use snake_game::score::PlayerScore;
use snake_game::timers::{CounterSetting, IntervalSetting};

#[test]
fn interval_gates_on_elapsed_time() {
    let mut iv = IntervalSetting::new(100);
    assert!(!iv.check(100, 60));
    assert!(!iv.check(159, 60));
    assert!(iv.check(160, 60));
    iv.update(160);
    assert!(!iv.check(200, 60));
    iv.reset(500);
    assert!(!iv.check(550, 60));
    assert!(iv.check(560, 60));
}

#[test]
fn counter_basics() {
    let mut c = CounterSetting::default();
    assert!(c.less_than(1));
    assert!(c.is_even());
    c.increment();
    assert!(!c.less_than(1));
    assert!(!c.is_even());
    c.increment();
    assert!(c.is_even());
    c.decrement();
    c.decrement();
    assert_eq!(c.count, 0);
    // Decrementing an empty counter stays at zero.
    c.decrement();
    assert_eq!(c.count, 0);
    c.increment();
    c.reset();
    assert_eq!(c.count, 0);
}

#[test]
fn score_heat_map_cells() {
    let mut s = PlayerScore::new();
    assert_eq!(s.get_food_count(), 0);
    // Column 30 lands in the second half: half 1, column 2, row 5.
    s.add(Position::new(30, 5));
    assert_eq!(s.get_cell(784 + 2 * 28 + 5), 1);
    s.add(Position::new(30, 5));
    assert_eq!(s.get_cell(784 + 2 * 28 + 5), 2);
    // Column 0 lands in the first half at the flat origin.
    s.add(Position::new(0, 0));
    assert_eq!(s.get_cell(0), 1);
    assert_eq!(s.get_cell(1), 0);
}

#[test]
fn score_food_count() {
    let mut s = PlayerScore::new();
    s.increment();
    s.increment();
    assert_eq!(s.get_food_count(), 2);
}
