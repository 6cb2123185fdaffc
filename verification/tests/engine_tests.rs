use snake_game::arena::ArenaConfig;
use snake_game::center::FoodCenter;
use snake_game::engine::{spawn_position, Food, Game, GameState};
use snake_game::geometry::{Direction, Position};
use snake_game::snake::{Enemy, Snake};

const TICK: u64 = 60;

fn square_game() -> Game {
    let cfg = ArenaConfig { width: 56, height: 56 };
    let mut g = Game::new(cfg, 0);
    g.spawn_player();
    g
}

fn standard_game() -> Game {
    let mut g = Game::new(ArenaConfig::standard(), 0);
    g.spawn_player();
    g
}

fn player_bodies(g: &Game) -> Vec<Position> {
    g.player.as_ref().unwrap().bodies.clone()
}

#[test]
fn player_moves_up_one_cell_per_tick() {
    let mut g = square_game();
    assert_eq!(player_bodies(&g), vec![Position::new(28, 28), Position::new(28, 27)]);
    g.snake_movement(TICK);
    assert_eq!(g.state, GameState::Playing);
    assert_eq!(player_bodies(&g), vec![Position::new(28, 29), Position::new(28, 28)]);
}

#[test]
fn movement_skipped_before_cooldown() {
    let mut g = square_game();
    let before = player_bodies(&g);
    g.snake_movement(TICK - 1);
    assert_eq!(player_bodies(&g), before);
    assert_eq!(g.state, GameState::Playing);
}

#[test]
fn game_over_on_exact_boundary_tick() {
    // From (28, 28) heading up in a 56-cell-high arena: 27 more ticks stay in
    // bounds (y reaches 55); the 28th targets y = 56 and must end the game.
    let mut g = square_game();
    let mut now: u64 = 0;
    for t in 1..=27u64 {
        now += TICK;
        g.snake_movement(now);
        assert_eq!(g.state, GameState::Playing);
        assert_eq!(player_bodies(&g)[0], Position::new(28, 28 + t as i32));
    }
    now += TICK;
    g.snake_movement(now);
    assert_eq!(g.state, GameState::GameOver);
    // The failed tick commits nothing: the head stays at y = 55.
    assert_eq!(player_bodies(&g)[0], Position::new(28, 55));
}

#[test]
fn movement_preserves_segment_counts() {
    let mut g = standard_game();
    g.enemies.push(snake_game::engine::EnemyEntry {
        id: 7,
        snake: Snake {
            direction: Direction::RIGHT,
            bodies: vec![Position::new(2, 20), Position::new(1, 20), Position::new(0, 20)],
            tail_pos: Position::default(),
        },
        enemy: Enemy(0),
    });
    g.enemy_counter.count = 1;
    g.snake_movement(TICK);
    assert_eq!(g.state, GameState::Playing);
    assert_eq!(player_bodies(&g).len(), 2);
    assert_eq!(g.enemies.len(), 1);
    assert_eq!(g.enemies[0].snake.bodies.len(), 3);
    assert_eq!(
        g.enemies[0].snake.bodies,
        vec![Position::new(3, 20), Position::new(2, 20), Position::new(1, 20)]
    );
}

#[test]
fn growth_adds_one_segment_at_pre_tick_tail() {
    let mut g = standard_game();
    // Player head (28, 14) heading up eats the food at (28, 15).
    g.foods.push(Food { id: 0, pos: Position::new(28, 15) });
    g.center = FoodCenter { cnt: 1, pos: Position::new(28, 15) };
    g.next_food_id = 1;
    g.snake_movement(TICK);
    assert_eq!(g.growth_events.len(), 1);
    let tail_before_tick = Position::new(28, 13);
    assert_eq!(g.player.as_ref().unwrap().get_tail_pos(), tail_before_tick);
    g.snake_growth();
    let bodies = player_bodies(&g);
    assert_eq!(bodies.len(), 3);
    assert_eq!(*bodies.last().unwrap(), tail_before_tick);
    assert_eq!(g.foods.len(), 0);
    assert_eq!(g.score.get_food_count(), 1);
    assert_eq!(g.growth_events.len(), 0);
}

#[test]
fn player_collision_with_frozen_body_ends_game() {
    let mut g = standard_game();
    // An enemy body part sits exactly on the player's candidate cell.
    g.enemies.push(snake_game::engine::EnemyEntry {
        id: 1,
        snake: Snake {
            direction: Direction::RIGHT,
            bodies: vec![Position::new(28, 15)],
            tail_pos: Position::default(),
        },
        enemy: Enemy(0),
    });
    g.enemy_counter.count = 1;
    g.snake_movement(TICK);
    assert_eq!(g.state, GameState::GameOver);
}

#[test]
fn enemy_dies_leaving_extended_arena() {
    let mut g = standard_game();
    g.enemies.push(snake_game::engine::EnemyEntry {
        id: 42,
        snake: Snake {
            direction: Direction::RIGHT,
            bodies: vec![Position::new(83, 10), Position::new(82, 10)],
            tail_pos: Position::default(),
        },
        enemy: Enemy(0),
    });
    g.enemy_counter.count = 1;
    g.snake_movement(TICK);
    assert_eq!(g.death_events.len(), 1);
    assert_eq!(g.death_events[0].enemy, 42);
    // The dying enemy is not moved.
    assert_eq!(g.enemies[0].snake.bodies[0], Position::new(83, 10));
    g.enemy_die();
    assert_eq!(g.enemies.len(), 0);
    assert_eq!(g.enemy_counter.count, 0);
    assert_eq!(g.death_events.len(), 0);
}

#[test]
fn player_heading_never_reverses() {
    let mut g = standard_game();
    assert_eq!(g.player.as_ref().unwrap().get_dir(), Direction::UP);
    g.snake_movement_input(Some(Direction::DOWN));
    assert_eq!(g.player.as_ref().unwrap().get_dir(), Direction::UP);
    g.snake_movement_input(Some(Direction::LEFT));
    assert_eq!(g.player.as_ref().unwrap().get_dir(), Direction::LEFT);
    g.snake_movement_input(Some(Direction::RIGHT));
    assert_eq!(g.player.as_ref().unwrap().get_dir(), Direction::LEFT);
    g.snake_movement_input(None);
    assert_eq!(g.player.as_ref().unwrap().get_dir(), Direction::LEFT);
}

#[test]
fn enemy_resteers_after_outrunning_its_length() {
    let mut g = standard_game();
    g.center = FoodCenter { cnt: 1, pos: Position::new(40, 10) };
    g.enemies.push(snake_game::engine::EnemyEntry {
        id: 3,
        snake: Snake {
            direction: Direction::UP,
            bodies: vec![Position::new(10, 10), Position::new(10, 9)],
            tail_pos: Position::default(),
        },
        enemy: Enemy(3),
    });
    g.enemy_counter.count = 1;
    g.snake_movement_input(None);
    // Counter 3 exceeds length 2: the enemy re-steers and resets its counter.
    assert_eq!(g.enemies[0].enemy.get(), 0);
    assert_ne!(g.enemies[0].snake.get_dir(), Direction::DOWN);
    // An enemy that has not outrun its length keeps heading and counter.
    let mut h = standard_game();
    h.enemies.push(snake_game::engine::EnemyEntry {
        id: 4,
        snake: Snake {
            direction: Direction::RIGHT,
            bodies: vec![Position::new(10, 10), Position::new(9, 10)],
            tail_pos: Position::default(),
        },
        enemy: Enemy(2),
    });
    h.enemy_counter.count = 1;
    h.snake_movement_input(None);
    assert_eq!(h.enemies[0].snake.get_dir(), Direction::RIGHT);
    assert_eq!(h.enemies[0].enemy.get(), 2);
}

#[test]
fn population_cap_makes_extra_spawns_no_ops() {
    let mut g = standard_game();
    for _ in 0..35 {
        g.spawn_enemy();
        assert!(g.enemies.len() <= 30);
    }
    assert_eq!(g.enemies.len(), 30);
    assert_eq!(g.enemy_counter.count, 30);
    let ids: Vec<u64> = g.enemies.iter().map(|e| e.id).collect();
    g.spawn_enemy();
    assert_eq!(g.enemies.len(), 30);
    assert_eq!(g.enemies.iter().map(|e| e.id).collect::<Vec<u64>>(), ids);
}

#[test]
fn spawned_enemies_have_four_segments_heading_up() {
    let mut g = standard_game();
    g.spawn_enemy();
    let e = &g.enemies[0];
    assert_eq!(e.snake.bodies.len(), 4);
    assert_eq!(e.snake.get_dir(), Direction::UP);
    assert_eq!(e.enemy.get(), 0);
    let head = e.snake.bodies[0];
    for (i, b) in e.snake.bodies.iter().enumerate() {
        assert_eq!(*b, Position::new(head.x, head.y - i as i32));
    }
}

#[test]
fn spawn_positions_avoid_player_quadrant() {
    // The player's home quadrant of the standard arena is x in 28..56,
    // y in 14..28. Draws with a row offset under two stay out of it.
    let cfg = ArenaConfig::standard();
    let p = spawn_position(&cfg, -1, 0, 55, 20);
    assert_eq!(p, Position::new(27, 20));
    assert!(!(28 <= p.x && p.x < 56 && 14 <= p.y && p.y < 28));
    let p = spawn_position(&cfg, 2, 1, 0, 0);
    assert_eq!(p, Position::new(56, 14));
    assert!(!(28 <= p.x && p.x < 56 && 14 <= p.y && p.y < 28));
    let p = spawn_position(&cfg, 0, -1, 30, 27);
    assert_eq!(p, Position::new(30, 13));
    assert!(!(28 <= p.x && p.x < 56 && 14 <= p.y && p.y < 28));
    // The one exception: the bottom row offset clamps to four cells under
    // the top, which can land inside the quadrant.
    let p = spawn_position(&cfg, 0, 2, 30, 0);
    assert_eq!(p, Position::new(30, 24));
}

#[test]
fn food_spawner_places_food_in_arena() {
    let mut g = standard_game();
    g.food_spawner(999);
    assert_eq!(g.foods.len(), 0);
    g.food_spawner(1000);
    assert_eq!(g.foods.len(), 1);
    let f = g.foods[0];
    assert!(0 <= f.pos.x && f.pos.x < 56);
    assert!(0 <= f.pos.y && f.pos.y < 28);
    assert_eq!(g.center.cnt, 1);
    assert_eq!(g.center.get_pos(), f.pos);
}

#[test]
fn flash_sequence_then_score_then_menu() {
    let mut g = standard_game();
    g.state = GameState::GameOver;
    let mut now: u64 = 0;
    for i in 0..10 {
        now += 50;
        let r = g.flash_mask(now);
        assert_eq!(r, Some(i % 2 == 0));
        assert_eq!(g.state, GameState::GameOver);
    }
    for _ in 0..3 {
        now += 50;
        assert_eq!(g.flash_mask(now), None);
        assert_eq!(g.state, GameState::GameOver);
    }
    now += 50;
    assert_eq!(g.flash_mask(now), None);
    assert_eq!(g.state, GameState::ShowScore);
    g.score.increment();
    let shown = g.show_score();
    assert_eq!(shown, 1);
    assert_eq!(g.state, GameState::Menu);
}

#[test]
fn game_over_cleanup_resets_counters_but_keeps_centroid() {
    let mut g = standard_game();
    g.foods.push(Food { id: 0, pos: Position::new(5, 5) });
    g.center = FoodCenter { cnt: 1, pos: Position::new(5, 5) };
    g.next_food_id = 1;
    g.spawn_enemy();
    g.game_over(5000);
    assert!(g.player.is_none());
    assert_eq!(g.enemies.len(), 0);
    assert_eq!(g.foods.len(), 0);
    assert_eq!(g.enemy_counter.count, 0);
    assert_eq!(g.flash_counter.count, 0);
    assert_eq!(g.player_interval.last_update, 5000);
    // The centroid tracker deliberately keeps its stale value.
    assert_eq!(g.center.cnt, 1);
    assert_eq!(g.center.get_pos(), Position::new(5, 5));
}

#[test]
fn two_snakes_eating_the_same_food_both_grow() {
    let mut g = standard_game();
    // Player at (28, 14) heading up; an enemy approaching (28, 15) from the
    // right. Both candidate heads land on the food cell.
    g.enemies.push(snake_game::engine::EnemyEntry {
        id: 9,
        snake: Snake {
            direction: Direction::LEFT,
            bodies: vec![Position::new(29, 15), Position::new(30, 15)],
            tail_pos: Position::default(),
        },
        enemy: Enemy(0),
    });
    g.enemy_counter.count = 1;
    g.foods.push(Food { id: 0, pos: Position::new(28, 15) });
    g.center = FoodCenter { cnt: 1, pos: Position::new(28, 15) };
    g.next_food_id = 1;
    g.snake_movement(TICK);
    assert_eq!(g.state, GameState::Playing);
    assert_eq!(g.growth_events.len(), 2);
    g.snake_growth();
    assert_eq!(player_bodies(&g).len(), 3);
    assert_eq!(g.enemies[0].snake.bodies.len(), 3);
    assert_eq!(g.foods.len(), 0);
    // Only the player's meal counts toward the score.
    assert_eq!(g.score.get_food_count(), 1);
}

#[test]
fn spawned_food_positions_vary() {
    let mut g = standard_game();
    let mut now: u64 = 0;
    for _ in 0..10 {
        now += 1000;
        g.food_spawner(now);
    }
    assert_eq!(g.foods.len(), 10);
    let first = g.foods[0].pos;
    assert!(g.foods.iter().any(|f| f.pos != first));
    for f in g.foods.iter() {
        assert!(0 <= f.pos.x && f.pos.x < 56);
        assert!(0 <= f.pos.y && f.pos.y < 28);
    }
}
