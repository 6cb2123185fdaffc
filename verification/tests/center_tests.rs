use snake_game::center::FoodCenter;
use snake_game::geometry::Position;

#[test]
fn add_then_remove_restores_centroid_exactly() {
    let mut c = FoodCenter::default();
    c.add(&Position::new(0, 0));
    assert_eq!(c.cnt, 1);
    assert_eq!(c.get_pos(), Position::new(0, 0));
    c.add(&Position::new(4, 4));
    assert_eq!(c.cnt, 2);
    assert_eq!(c.get_pos(), Position::new(2, 2));
    c.remove(&Position::new(0, 0));
    assert_eq!(c.cnt, 1);
    assert_eq!(c.get_pos(), Position::new(4, 4));
}

#[test]
fn centroid_uses_truncating_division() {
    let mut c = FoodCenter::default();
    c.add(&Position::new(0, 0));
    c.add(&Position::new(5, 5));
    // (0 * 1 + 5) / 2 truncates to 2.
    assert_eq!(c.get_pos(), Position::new(2, 2));
    c.add(&Position::new(0, 0));
    // (2 * 2 + 0) / 3 truncates to 1.
    assert_eq!(c.get_pos(), Position::new(1, 1));
}

#[test]
fn centroid_stale_on_empty() {
    let mut c = FoodCenter::default();
    c.add(&Position::new(10, 20));
    assert_eq!(c.get_pos(), Position::new(10, 20));
    c.remove(&Position::new(10, 20));
    assert_eq!(c.cnt, 0);
    // The last centroid value is kept rather than reset.
    assert_eq!(c.get_pos(), Position::new(10, 20));
    c.remove(&Position::new(10, 20));
    assert_eq!(c.cnt, 0);
    assert_eq!(c.get_pos(), Position::new(10, 20));
}

#[test]
fn centroid_reset_by_first_add_after_empty() {
    let mut c = FoodCenter::default();
    c.add(&Position::new(50, 8));
    c.remove(&Position::new(50, 8));
    assert_eq!(c.get_pos(), Position::new(50, 8));
    // With the count back at zero, the next add overwrites the stale value.
    c.add(&Position::new(3, 4));
    assert_eq!(c.cnt, 1);
    assert_eq!(c.get_pos(), Position::new(3, 4));
}
