use snake_game::geometry::{Direction, Position};
use snake_game::steering::choose_direction;

const ALL_DIRS: [Direction; 4] = [
    Direction::UP,
    Direction::RIGHT,
    Direction::DOWN,
    Direction::LEFT,
];

#[test]
fn steering_never_reverses() {
    let head = Position::new(10, 10);
    let centers = [
        Position::new(30, 10),
        Position::new(-5, -5),
        Position::new(10, 25),
        Position::new(0, 10),
    ];
    for &dir in ALL_DIRS.iter() {
        for &center in centers.iter() {
            for _ in 0..50 {
                let d = choose_direction(head, center, dir);
                assert_ne!(d, dir.opposite());
            }
        }
    }
}

#[test]
fn steering_succeeds_with_centroid_on_head() {
    // All pulls vanish; only the base weights remain, and they still sample.
    let head = Position::new(7, 7);
    for &dir in ALL_DIRS.iter() {
        for _ in 0..50 {
            let d = choose_direction(head, head, dir);
            assert_ne!(d, dir.opposite());
        }
    }
}

#[test]
fn steering_draws_vary_with_the_pull() {
    // A centroid far to the right of an up-heading enemy gives the right turn
    // most of the weight: 60 + 0 straight, 20 + 1000 right, 0 reverse,
    // 20 + 0 left. A draw must still never be the reversal, and with these
    // weights a right turn must show up within a few hundred draws.
    let head = Position::new(0, 0);
    let center = Position::new(1000, 0);
    let mut saw_right = false;
    for _ in 0..300 {
        let d = choose_direction(head, center, Direction::UP);
        assert_ne!(d, Direction::DOWN);
        if d == Direction::RIGHT {
            saw_right = true;
        }
    }
    assert!(saw_right);
}
