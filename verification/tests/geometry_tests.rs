use snake_game::arena::{in_arena, in_enemy_arena, ArenaConfig};
use snake_game::geometry::{Direction, Position};

#[test]
fn position_accessors_and_arithmetic() {
    let p = Position::new(3, -7);
    assert_eq!(p.x(), 3);
    assert_eq!(p.y(), -7);
    let q = p.add(Position::new(-1, 2));
    assert_eq!(q, Position::new(2, -5));
    let r = q.sub(Position::new(2, -5));
    assert_eq!(r, Position::new(0, 0));
    let s = Position::new(5, -4).mul(3);
    assert_eq!(s, Position::new(15, -12));
}

#[test]
fn position_division_truncates_toward_zero() {
    assert_eq!(Position::new(7, -7).div(2), Position::new(3, -3));
    assert_eq!(Position::new(1, -1).div(3), Position::new(0, 0));
    assert_eq!(Position::new(110, -110).div(4), Position::new(27, -27));
}

#[test]
fn direction_opposites() {
    assert_eq!(Direction::UP.opposite(), Direction::DOWN);
    assert_eq!(Direction::DOWN.opposite(), Direction::UP);
    assert_eq!(Direction::LEFT.opposite(), Direction::RIGHT);
    assert_eq!(Direction::RIGHT.opposite(), Direction::LEFT);
}

#[test]
fn direction_unit_vectors() {
    assert_eq!(Direction::UP.to_pos(1), Position::new(0, 1));
    assert_eq!(Direction::DOWN.to_pos(1), Position::new(0, -1));
    assert_eq!(Direction::RIGHT.to_pos(1), Position::new(1, 0));
    assert_eq!(Direction::LEFT.to_pos(2), Position::new(-2, 0));
}

#[test]
fn direction_numbering_round_trip() {
    for n in 0u8..4 {
        let d = Direction::num2dir(n);
        assert_eq!(Direction::dir2num(&d), n);
        assert_eq!(d.get_num(), n);
    }
    assert_eq!(Direction::num2dir(5), Direction::RIGHT);
    assert_eq!(Direction::num2dir(255), Direction::LEFT);
}

#[test]
fn arena_bounds() {
    assert!(in_arena(0, 0));
    assert!(in_arena(55, 27));
    assert!(!in_arena(56, 0));
    assert!(!in_arena(0, 28));
    assert!(!in_arena(-1, 5));
}

#[test]
fn extended_arena_bounds() {
    assert!(in_enemy_arena(-28, -14));
    assert!(in_enemy_arena(83, 41));
    assert!(!in_enemy_arena(84, 0));
    assert!(!in_enemy_arena(0, 42));
    assert!(!in_enemy_arena(-29, 0));
}

#[test]
fn arena_config_matches_free_functions() {
    let cfg = ArenaConfig::standard();
    assert_eq!(cfg.width, 56);
    assert_eq!(cfg.height, 28);
    for &(x, y) in &[(0, 0), (55, 27), (56, 0), (-1, -1), (83, 41), (84, 42)] {
        assert_eq!(cfg.contains(x, y), in_arena(x, y));
        assert_eq!(cfg.contains_extended(x, y), in_enemy_arena(x, y));
    }
}
