use snake_game::geometry::{Direction, Position};
use snake_game::snake::{Enemy, Snake};

#[test]
fn snake_growth_and_accessors() {
    let mut s = Snake::default();
    assert_eq!(s.len(), 0);
    assert_eq!(s.get_dir(), Direction::UP);
    s.add(Position::new(5, 5));
    s.add(Position::new(5, 4));
    s.add(Position::new(5, 3));
    assert_eq!(s.len(), 3);
    assert_eq!(*s.get_head(), Position::new(5, 5));
    assert_eq!(*s.get_tail(), Position::new(5, 3));
    assert_eq!(s.get(1), Position::new(5, 4));
}

#[test]
fn snake_heading_and_tail_cache() {
    let mut s = Snake::default();
    s.add(Position::new(0, 0));
    s.set_dir(Direction::RIGHT);
    assert_eq!(s.get_dir(), Direction::RIGHT);
    assert_eq!(s.get_tail_pos(), Position::new(0, 0));
    s.set_tail_pos(Position::new(9, 9));
    assert_eq!(s.get_tail_pos(), Position::new(9, 9));
    assert_eq!(s.tail_pos, Position::new(9, 9));
}

#[test]
fn enemy_counter() {
    let mut e = Enemy::default();
    assert_eq!(e.get(), 0);
    e.increment();
    e.increment();
    assert_eq!(e.get(), 2);
    e.reset();
    assert_eq!(e.get(), 0);
}
