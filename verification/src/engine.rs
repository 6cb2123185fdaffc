//! The simulation engine: one `Game` value holds the whole simulation state,
//! and the per-frame systems (steering input, movement, growth, death,
//! spawners, end-of-game flashing) are its methods. Within a frame the caller
//! runs them in the fixed order input, movement, growth, death, spawners; the
//! contracts encode that order by requiring the event queues drained before
//! movement runs again.

use vstd::prelude::*;

use crate::arena::{ArenaConfig, SNAKE_SPEED};
use crate::center::FoodCenter;
use crate::events::{EnemyDieEvent, GrowthEvent, SnakeId};
use crate::geometry::{Direction, Position};
use crate::score::PlayerScore;
use crate::snake::{Enemy, Snake};
use crate::timers::{CounterSetting, IntervalSetting};

verus! {

/// Milliseconds between movement ticks.
pub const MOVE_INTERVAL_MS: u64 = 600 / SNAKE_SPEED;

/// Milliseconds between food spawns.
pub const FOOD_INTERVAL_MS: u64 = 1000;

/// Milliseconds between end-of-game flash frames.
pub const FLASH_INTERVAL_MS: u64 = 50;

/// Most enemies alive at once; spawning is skipped at the cap.
pub const MAX_ENEMIES: usize = 30;

/// Segments an enemy spawns with.
pub const ENEMY_INITIAL_LEN: usize = 4;

/// The linear session state machine: Menu, then Playing, then the flashing
/// GameOver cue, then the score display, then Menu again.
#[derive(Clone, Copy, PartialEq, Eq, Structural, Debug)]
pub enum GameState {
    Menu,
    Playing,
    GameOver,
    ShowScore,
}

/// A live food item: a stable identifier and its cell.
#[derive(Clone, Copy, PartialEq, Eq, Structural, Debug)]
pub struct Food {
    pub id: u64,
    pub pos: Position,
}

/// One live enemy: a stable identifier, its snake, and the straight-line
/// counter that triggers re-steering.
pub struct EnemyEntry {
    pub id: u64,
    pub snake: Snake,
    pub enemy: Enemy,
}

/// The cell ahead of `p` along `d`.
pub open spec fn pos_step(p: Position, d: Direction) -> Position {
    match d {
        Direction::UP => Position { x: p.x, y: (p.y + 1) as i32 },
        Direction::RIGHT => Position { x: (p.x + 1) as i32, y: p.y },
        Direction::DOWN => Position { x: p.x, y: (p.y - 1) as i32 },
        Direction::LEFT => Position { x: (p.x - 1) as i32, y: p.y },
    }
}

/// The box every tracked position stays inside: twice the arena on every
/// side, covering the arena, the extended arena, and freshly spawned enemies.
pub open spec fn pos_in_box(cfg: ArenaConfig, p: Position) -> bool {
    &&& -2 * cfg.width <= p.x <= 2 * cfg.width
    &&& -2 * cfg.height <= p.y <= 2 * cfg.height
}

/// A well-formed live snake: at least one segment, every tracked position
/// within the box.
pub open spec fn snake_ok(cfg: ArenaConfig, s: Snake) -> bool {
    &&& 1 <= s.bodies@.len()
    &&& forall|i: int| 0 <= i < s.bodies@.len() ==> pos_in_box(cfg, #[trigger] s.bodies@[i])
    &&& pos_in_box(cfg, s.tail_pos)
}

/// The body positions of a sequence of enemies, in order.
pub open spec fn enemies_positions(es: Seq<EnemyEntry>) -> Seq<Position>
    decreases es.len(),
{
    if es.len() == 0 {
        Seq::empty()
    } else {
        enemies_positions(es.drop_last()) + es.last().snake.bodies@
    }
}

/// A snake's body after one movement tick toward `cand`: the head moves to
/// `cand` and every other segment takes the position of the segment ahead.
pub open spec fn shifted(bodies: Seq<Position>, cand: Position) -> Seq<Position> {
    seq![cand] + bodies.drop_last()
}

/// The growth events a snake whose head lands on `cand` emits: one per live
/// food item in that cell, in food order.
pub open spec fn growth_events_at(foods: Seq<Food>, sid: SnakeId, cand: Position) -> Seq<
    GrowthEvent,
> {
    foods.filter(|f: Food| f.pos == cand).map_values(
        |f: Food| GrowthEvent { snake: sid, food: (f.pos, f.id) },
    )
}

/// The whole simulation state.
pub struct Game {
    pub config: ArenaConfig,
    pub state: GameState,
    pub player: Option<Snake>,
    pub enemies: Vec<EnemyEntry>,
    pub foods: Vec<Food>,
    pub center: FoodCenter,
    pub score: PlayerScore,
    pub player_interval: IntervalSetting,
    pub enemy_interval: IntervalSetting,
    pub food_interval: IntervalSetting,
    pub flash_interval: IntervalSetting,
    pub enemy_counter: CounterSetting,
    pub flash_counter: CounterSetting,
    pub growth_events: Vec<GrowthEvent>,
    pub death_events: Vec<EnemyDieEvent>,
    pub next_enemy_id: u64,
    pub next_food_id: u64,
}

impl Game {
    /// The game's standing invariant.
    pub open spec fn wf(self) -> bool {
        &&& self.config.wf()
        &&& (self.player matches Some(s) ==> snake_ok(self.config, s))
        &&& forall|i: int|
            0 <= i < self.enemies@.len() ==> snake_ok(
                self.config,
                (#[trigger] self.enemies@[i]).snake,
            )
        &&& forall|i: int|
            0 <= i < self.enemies@.len() ==> (#[trigger] self.enemies@[i]).id
                < self.next_enemy_id
        &&& forall|i: int, j: int|
            0 <= i < j < self.enemies@.len() ==> (#[trigger] self.enemies@[i]).id != (
            #[trigger] self.enemies@[j]).id
        &&& self.enemies@.len() <= MAX_ENEMIES
        &&& self.enemy_counter.count == self.enemies@.len()
        &&& forall|i: int|
            0 <= i < self.foods@.len() ==> (#[trigger] self.foods@[i]).id < self.next_food_id
        &&& forall|i: int, j: int|
            0 <= i < j < self.foods@.len() ==> (#[trigger] self.foods@[i]).id != (
            #[trigger] self.foods@[j]).id
        &&& forall|i: int|
            0 <= i < self.foods@.len() ==> self.config.spec_contains(
                (#[trigger] self.foods@[i]).pos.x as int,
                self.foods@[i].pos.y as int,
            )
        &&& self.center.inv()
        &&& self.score.inv()
    }

    /// The player's body positions, or nothing outside a session.
    pub open spec fn player_positions(self) -> Seq<Position> {
        match self.player {
            Some(s) => s.bodies@,
            None => Seq::empty(),
        }
    }

    /// Every body position of every snake, frozen before a tick: the player's
    /// segments first, then each enemy's in order.
    pub open spec fn frozen_positions(self) -> Seq<Position> {
        self.player_positions() + enemies_positions(self.enemies@)
    }

    /// The cell the player's head moves toward this tick.
    pub open spec fn player_candidate(self) -> Position {
        pos_step(self.player.unwrap().bodies@[0], self.player.unwrap().direction)
    }

    /// Whether a movement tick is due at `now`.
    pub open spec fn move_due(self, now: u64) -> bool {
        now - self.player_interval.last_update >= MOVE_INTERVAL_MS
    }

    /// Whether the player survives this tick: its candidate head cell lies in
    /// the strict arena and misses every frozen body position.
    pub open spec fn player_survives(self) -> bool {
        let c = self.player_candidate();
        self.config.spec_contains(c.x as int, c.y as int) && !self.frozen_positions().contains(c)
    }

    /// A pending growth event must name a live snake.
    pub open spec fn growth_event_ok(self, ev: GrowthEvent) -> bool {
        match ev.snake {
            SnakeId::Player => self.player is Some,
            SnakeId::Enemy(id) => has_enemy_id(self.enemies@, id),
        }
    }

    /// All pending growth events name live snakes.
    pub open spec fn growth_events_ok(self) -> bool {
        forall|i: int|
            0 <= i < self.growth_events@.len() ==> self.growth_event_ok(
                #[trigger] self.growth_events@[i],
            )
    }

    /// All pending death events name live, pairwise distinct enemies.
    pub open spec fn death_events_ok(self) -> bool {
        &&& forall|i: int|
            0 <= i < self.death_events@.len() ==> has_enemy_id(
                self.enemies@,
                (#[trigger] self.death_events@[i]).enemy,
            )
        &&& forall|i: int, j: int|
            0 <= i < j < self.death_events@.len() ==> (#[trigger] self.death_events@[i]).enemy != (
            #[trigger] self.death_events@[j]).enemy
    }

    /// A fresh game showing the menu.
    pub fn new(config: ArenaConfig, now: u64) -> (r: Game)
        requires
            config.wf(),
        ensures
            r.wf(),
            r.config == config,
            r.state == GameState::Menu,
            (r.player is None),
            r.enemies@.len() == 0,
            r.foods@.len() == 0,
            r.center == (FoodCenter { cnt: 0, pos: Position { x: 0, y: 0 } }),
            r.score.food_count == 0,
            forall|i: int|
                0 <= i < r.score.history@.len() ==> r.score.history@[i] == 0,
            r.player_interval.last_update == now,
            r.enemy_interval.last_update == now,
            r.food_interval.last_update == now,
            r.flash_interval.last_update == now,
            r.enemy_counter.count == 0,
            r.flash_counter.count == 0,
            r.growth_events@.len() == 0,
            r.death_events@.len() == 0,
    {
        Game {
            config,
            state: GameState::Menu,
            player: None,
            enemies: Vec::new(),
            foods: Vec::new(),
            center: FoodCenter::default(),
            score: PlayerScore::new(),
            player_interval: IntervalSetting::new(now),
            enemy_interval: IntervalSetting::new(now),
            food_interval: IntervalSetting::new(now),
            flash_interval: IntervalSetting::new(now),
            enemy_counter: CounterSetting::default(),
            flash_counter: CounterSetting::default(),
            growth_events: Vec::new(),
            death_events: Vec::new(),
            next_enemy_id: 0,
            next_food_id: 0,
        }
    }

    /// Starts a session: enters Playing and spawns the player's snake, two
    /// segments tall, heading up from the arena's center.
    pub fn spawn_player(&mut self)
        requires
            old(self).wf(),
            old(self).state == GameState::Menu,
        ensures
            final(self).wf(),
            final(self).state == GameState::Playing,
            (final(self).player matches Some(s) && s.direction == Direction::UP
                && s.bodies@ =~= seq![
                Position {
                    x: (old(self).config.width / 2) as i32,
                    y: (old(self).config.height / 2) as i32,
                },
                Position {
                    x: (old(self).config.width / 2) as i32,
                    y: (old(self).config.height / 2 - 1) as i32,
                },
            ] && s.tail_pos == (Position { x: 0, y: 0 })),
            *final(self) == (Game {
                state: final(self).state,
                player: final(self).player,
                ..*old(self)
            }),
    {
        let cx = self.config.width / 2;
        let cy = self.config.height / 2;
        let mut snake = Snake::default();
        snake.add(Position::new(cx, cy));
        snake.add(Position::new(cx, cy - 1));
        self.player = Some(snake);
        self.state = GameState::Playing;
    }
}

/// Whether some listed enemy carries the identifier.
pub open spec fn has_enemy_id(es: Seq<EnemyEntry>, id: u64) -> bool {
    exists|k: int| 0 <= k < es.len() && (#[trigger] es[k]).id == id
}

/// The cell an enemy's head moves toward this tick.
pub open spec fn enemy_candidate(e: EnemyEntry) -> Position {
    pos_step(e.snake.bodies@[0], e.snake.direction)
}

/// Whether an enemy survives this tick: its candidate head cell lies in the
/// extended arena and misses every frozen body position.
pub open spec fn enemy_survives(cfg: ArenaConfig, frozen: Seq<Position>, e: EnemyEntry) -> bool {
    let c = enemy_candidate(e);
    cfg.spec_contains_extended(c.x as int, c.y as int) && !frozen.contains(c)
}

/// How one enemy entry comes out of a movement tick: the identifier and
/// heading are kept and the pre-tick tail is cached; a survivor's body shifts
/// forward and its straight-line counter ticks up, a dying enemy is left in
/// place for the death consumer.
pub open spec fn enemy_moved(cfg: ArenaConfig, frozen: Seq<Position>, e: EnemyEntry, r: EnemyEntry) -> bool {
    &&& r.id == e.id
    &&& r.snake.direction == e.snake.direction
    &&& r.snake.tail_pos == e.snake.bodies@.last()
    &&& if enemy_survives(cfg, frozen, e) {
        r.snake.bodies@ == shifted(e.snake.bodies@, enemy_candidate(e)) && r.enemy.0 == e.enemy.0
            + 1
    } else {
        r.snake.bodies@ == e.snake.bodies@ && r.enemy == e.enemy
    }
}

/// The death events a movement tick emits: one per dying enemy, in order.
pub open spec fn dead_events(cfg: ArenaConfig, frozen: Seq<Position>, es: Seq<EnemyEntry>) -> Seq<
    EnemyDieEvent,
> {
    es.filter(|e: EnemyEntry| !enemy_survives(cfg, frozen, e)).map_values(
        |e: EnemyEntry| EnemyDieEvent { enemy: e.id },
    )
}

/// The growth events the enemies emit in a movement tick: for each surviving
/// enemy in order, one event per food item under its new head.
pub open spec fn enemy_growths(
    cfg: ArenaConfig,
    frozen: Seq<Position>,
    foods: Seq<Food>,
    es: Seq<EnemyEntry>,
) -> Seq<GrowthEvent>
    decreases es.len(),
{
    if es.len() == 0 {
        Seq::empty()
    } else {
        enemy_growths(cfg, frozen, foods, es.drop_last()) + if enemy_survives(
            cfg,
            frozen,
            es.last(),
        ) {
            growth_events_at(foods, SnakeId::Enemy(es.last().id), enemy_candidate(es.last()))
        } else {
            Seq::empty()
        }
    }
}

/// Filtering one more element keeps the filtered prefix and appends the
/// element exactly when it passes.
proof fn lemma_filter_take_step<A>(s: Seq<A>, p: spec_fn(A) -> bool, i: int)
    requires
        0 <= i < s.len(),
    ensures
        s.take(i + 1).filter(p) == if p(s[i]) {
            s.take(i).filter(p).push(s[i])
        } else {
            s.take(i).filter(p)
        },
{
    reveal(Seq::filter);
    assert(s.take(i + 1).drop_last() =~= s.take(i));
    assert(s.take(i + 1).last() == s[i]);
}

/// Dropping the element at the split point relates the filtered suffixes:
/// the element is counted exactly when it passes.
proof fn lemma_filter_skip_step<A>(s: Seq<A>, p: spec_fn(A) -> bool, i: int)
    requires
        0 <= i < s.len(),
    ensures
        s.skip(i).filter(p).len() == (if p(s[i]) {
            1int
        } else {
            0int
        }) + s.skip(i + 1).filter(p).len(),
{
    reveal(Seq::filter);
    let single = seq![s[i]];
    assert(s.skip(i) =~= single + s.skip(i + 1));
    Seq::filter_distributes_over_add(single, s.skip(i + 1), p);
    assert(single.drop_last() =~= Seq::<A>::empty());
    assert(Seq::<A>::empty().filter(p) =~= Seq::<A>::empty());
    assert(single.filter(p).len() == if p(s[i]) { 1int } else { 0int });
}

/// The death events of enemies with pairwise distinct identifiers name
/// pairwise distinct enemies, each of them present in the list.
proof fn lemma_dead_events_valid(cfg: ArenaConfig, frozen: Seq<Position>, es: Seq<EnemyEntry>)
    requires
        forall|i: int, j: int|
            0 <= i < j < es.len() ==> (#[trigger] es[i]).id != (#[trigger] es[j]).id,
    ensures
        forall|i: int|
            0 <= i < dead_events(cfg, frozen, es).len() ==> has_enemy_id(
                es,
                (#[trigger] dead_events(cfg, frozen, es)[i]).enemy,
            ),
        forall|i: int, j: int|
            0 <= i < j < dead_events(cfg, frozen, es).len() ==> #[trigger] dead_events(
                cfg,
                frozen,
                es,
            )[i].enemy != #[trigger] dead_events(cfg, frozen, es)[j].enemy,
    decreases es.len(),
{
    reveal(Seq::filter);
    let p = |e: EnemyEntry| !enemy_survives(cfg, frozen, e);
    let devs = dead_events(cfg, frozen, es);
    if es.len() > 0 {
        let rest = es.drop_last();
        lemma_dead_events_valid(cfg, frozen, rest);
        let drest = dead_events(cfg, frozen, rest);
        if p(es.last()) {
            assert(es.filter(p) == rest.filter(p).push(es.last()));
            assert(devs =~= drest.push(EnemyDieEvent { enemy: es.last().id }));
            assert forall|i: int| 0 <= i < devs.len() implies has_enemy_id(
                es,
                (#[trigger] devs[i]).enemy,
            ) by {
                if i < drest.len() {
                    assert(has_enemy_id(rest, devs[i].enemy));
                    let k = choose|k: int| 0 <= k < rest.len() && (#[trigger] rest[k]).id
                        == drest[i].enemy;
                    assert(es[k].id == devs[i].enemy);
                } else {
                    assert(es[es.len() - 1].id == devs[i].enemy);
                }
            }
            assert forall|i: int, j: int| 0 <= i < j < devs.len() implies devs[i].enemy
                != devs[j].enemy by {
                if j < drest.len() {
                } else {
                    assert(has_enemy_id(rest, drest[i].enemy));
                    let k = choose|k: int| 0 <= k < rest.len() && (#[trigger] rest[k]).id
                        == drest[i].enemy;
                    assert(devs[j].enemy == es[es.len() - 1].id);
                    assert(es[k].id != es[es.len() - 1].id);
                }
            }
        } else {
            assert(es.filter(p) == rest.filter(p));
            assert(devs =~= drest);
            assert forall|i: int| 0 <= i < devs.len() implies has_enemy_id(
                es,
                (#[trigger] devs[i]).enemy,
            ) by {
                assert(has_enemy_id(rest, devs[i].enemy));
                let k = choose|k: int| 0 <= k < rest.len() && (#[trigger] rest[k]).id
                    == drest[i].enemy;
                assert(es[k].id == devs[i].enemy);
            }
        }
    }
}

/// Copies a position vector.
fn copy_positions(v: &Vec<Position>) -> (r: Vec<Position>)
    ensures
        r@ == v@,
{
    let n = v.len();
    let mut r: Vec<Position> = Vec::new();
    let mut i: usize = 0;
    while i < n
        invariant
            i <= n,
            n == v@.len(),
            r@ =~= v@.take(i as int),
        decreases n - i,
    {
        r.push(v[i]);
        assert(r@ =~= v@.take(i + 1));
        i = i + 1;
    }
    assert(v@.take(n as int) =~= v@);
    r
}

/// Builds a snake's body after one tick toward `cand`: the head cell first,
/// then all but the last of the old segments.
fn shift_bodies(v: &Vec<Position>, cand: Position) -> (r: Vec<Position>)
    requires
        1 <= v@.len(),
    ensures
        r@ == shifted(v@, cand),
{
    let n = v.len();
    let mut r: Vec<Position> = Vec::new();
    r.push(cand);
    let mut i: usize = 0;
    while i < n - 1
        invariant
            i <= n - 1,
            n == v@.len(),
            1 <= n,
            r@ =~= seq![cand] + v@.take(i as int),
        decreases n - 1 - i,
    {
        r.push(v[i]);
        assert(r@ =~= seq![cand] + v@.take(i + 1));
        i = i + 1;
    }
    assert(v@.take(n - 1) =~= v@.drop_last());
    assert(r@ =~= shifted(v@, cand));
    r
}

/// Appends to `out` one growth event per food item lying in the cell `cand`,
/// in food order.
fn collect_growth(foods: &Vec<Food>, sid: SnakeId, cand: Position, out: &mut Vec<GrowthEvent>)
    ensures
        final(out)@ == old(out)@ + growth_events_at(foods@, sid, cand),
{
    let n = foods.len();
    let mut i: usize = 0;
    proof {
        assert(foods@.take(0).filter(|f: Food| f.pos == cand) =~= Seq::<Food>::empty());
        assert(out@ =~= out@ + growth_events_at(foods@.take(0), sid, cand));
    }
    while i < n
        invariant
            i <= n,
            n == foods@.len(),
            out@ == old(out)@ + growth_events_at(foods@.take(i as int), sid, cand),
        decreases n - i,
    {
        let f = foods[i];
        proof {
            lemma_filter_take_step(foods@, |ff: Food| ff.pos == cand, i as int);
        }
        if f.pos == cand {
            out.push(GrowthEvent { snake: sid, food: (f.pos, f.id) });
            proof {
                let pred = |ff: Food| ff.pos == cand;
                let mapper = |ff: Food| GrowthEvent { snake: sid, food: (ff.pos, ff.id) };
                assert(foods@.take(i + 1).filter(pred).map_values(mapper) =~= foods@.take(
                    i as int,
                ).filter(pred).map_values(mapper).push(mapper(foods@[i as int])));
                assert(out@ =~= old(out)@ + growth_events_at(foods@.take(i + 1), sid, cand));
            }
        } else {
            proof {
                assert(growth_events_at(foods@.take(i + 1), sid, cand) == growth_events_at(
                    foods@.take(i as int),
                    sid,
                    cand,
                ));
            }
        }
        i = i + 1;
    }
    proof {
        assert(foods@.take(n as int) =~= foods@);
    }
}

/// A prefix of the enemy list contributes a prefix of the frozen positions:
/// taking one more enemy appends exactly its body.
proof fn lemma_enemies_positions_take(es: Seq<EnemyEntry>, j: int)
    requires
        0 <= j < es.len(),
    ensures
        enemies_positions(es.take(j + 1)) == enemies_positions(es.take(j)) + es[j].snake.bodies@,
{
    assert(es.take(j + 1).drop_last() =~= es.take(j));
    assert(es.take(j + 1).last() == es[j]);
}

impl Game {
    /// Snapshots every body position of every snake, player first.
    #[verifier::loop_isolation(false)]
    fn collect_positions(&self) -> (r: Vec<Position>)
        ensures
            r@ == self.frozen_positions(),
    {
        let mut r: Vec<Position> = Vec::new();
        match &self.player {
            Some(s) => {
                let m = s.bodies.len();
                let mut i: usize = 0;
                while i < m
                    invariant
                        i <= m,
                        r@ =~= s.bodies@.take(i as int),
                    decreases m - i,
                {
                    r.push(s.bodies[i]);
                    i = i + 1;
                }
                assert(s.bodies@.take(m as int) =~= s.bodies@);
            },
            None => {},
        }
        assert(r@ =~= self.player_positions());
        let n = self.enemies.len();
        let mut j: usize = 0;
        while j < n
            invariant
                j <= n,
                r@ == self.player_positions() + enemies_positions(self.enemies@.take(j as int)),
            decreases n - j,
        {
            let e = &self.enemies[j];
            let m = e.snake.bodies.len();
            let mut i: usize = 0;
            while i < m
                invariant
                    i <= m,
                    r@ == self.player_positions() + enemies_positions(
                        self.enemies@.take(j as int),
                    ) + e.snake.bodies@.take(i as int),
                decreases m - i,
            {
                r.push(e.snake.bodies[i]);
                assert(e.snake.bodies@.take(i as int).push(e.snake.bodies@[i as int]) =~= e
                    .snake.bodies@.take(i + 1));
                assert(r@ =~= self.player_positions() + enemies_positions(
                    self.enemies@.take(j as int),
                ) + e.snake.bodies@.take(i + 1));
                i = i + 1;
            }
            proof {
                lemma_enemies_positions_take(self.enemies@, j as int);
                assert(e.snake.bodies@.take(m as int) =~= e.snake.bodies@);
                assert(r@ =~= self.player_positions() + enemies_positions(
                    self.enemies@.take(j + 1),
                ));
            }
            j = j + 1;
        }
        proof {
            assert(self.enemies@.take(n as int) =~= self.enemies@);
        }
        r
    }

    /// How a movement tick leaves the fields it never touches, and stamps
    /// the cooldown.
    pub open spec fn movement_frame(pre: Game, post: Game, now: u64) -> bool {
        &&& post.config == pre.config
        &&& post.foods@ == pre.foods@
        &&& post.center == pre.center
        &&& post.player_interval.last_update == now
        &&& post.food_interval == pre.food_interval
        &&& post.flash_interval == pre.flash_interval
        &&& post.enemy_interval == pre.enemy_interval
        &&& post.enemy_counter == pre.enemy_counter
        &&& post.flash_counter == pre.flash_counter
        &&& post.next_enemy_id == pre.next_enemy_id
        &&& post.next_food_id == pre.next_food_id
    }

    /// A tick on which the player leaves the arena or hits a frozen body
    /// position: the session ends, no snake moves (only the player's pre-tick
    /// tail is cached), and no event is emitted.
    pub open spec fn movement_game_over(pre: Game, post: Game) -> bool {
        &&& post.state == GameState::GameOver
        &&& (post.player is Some)
        &&& post.player.unwrap().bodies@ == pre.player.unwrap().bodies@
        &&& post.player.unwrap().direction == pre.player.unwrap().direction
        &&& post.player.unwrap().tail_pos == pre.player.unwrap().bodies@.last()
        &&& post.enemies@ == pre.enemies@
        &&& post.growth_events@.len() == 0
        &&& post.death_events@.len() == 0
        &&& post.score == pre.score
    }

    /// A tick the player survives: its body shifts toward the candidate cell,
    /// the heat-map marks the visit when the cell lies in its window, every
    /// enemy steps against the same frozen snapshot, and exactly the growth
    /// and death events of this tick are pending afterwards.
    pub open spec fn movement_advanced(pre: Game, post: Game) -> bool {
        let cand = pre.player_candidate();
        let frozen = pre.frozen_positions();
        &&& post.state == GameState::Playing
        &&& (post.player is Some)
        &&& post.player.unwrap().bodies@ == shifted(pre.player.unwrap().bodies@, cand)
        &&& post.player.unwrap().direction == pre.player.unwrap().direction
        &&& post.player.unwrap().tail_pos == pre.player.unwrap().bodies@.last()
        &&& post.score.food_count == pre.score.food_count
        &&& post.score.history@ == (if PlayerScore::in_window(cand) {
            pre.score.history@.update(
                PlayerScore::cell_index(cand),
                (pre.score.history@[PlayerScore::cell_index(cand)] + 1) as u32,
            )
        } else {
            pre.score.history@
        })
        &&& forall|j: int|
            0 <= j < pre.enemies@.len() ==> enemy_moved(
                pre.config,
                frozen,
                pre.enemies@[j],
                #[trigger] post.enemies@[j],
            )
        &&& post.growth_events@ == growth_events_at(pre.foods@, SnakeId::Player, cand)
            + enemy_growths(pre.config, frozen, pre.foods@, pre.enemies@)
        &&& post.death_events@ == dead_events(pre.config, frozen, pre.enemies@)
    }

    /// The movement tick: when the cooldown elapsed, advances every snake one
    /// cell along its heading, classifies collisions against the pre-tick
    /// frozen snapshot, emits growth and death events, and commits the shift.
    /// The player's exit or collision ends the session at once; a dying enemy
    /// is left for the death consumer. Movement never changes any snake's
    /// segment count.
    #[verifier::loop_isolation(false)]
    pub fn snake_movement(&mut self, now: u64)
        requires
            old(self).wf(),
            old(self).state == GameState::Playing,
            (old(self).player is Some),
            now >= old(self).player_interval.last_update,
            old(self).growth_events@.len() == 0,
            old(self).death_events@.len() == 0,
            old(self).score.can_add(old(self).player_candidate()),
            forall|j: int|
                0 <= j < old(self).enemies@.len() ==> (#[trigger] old(self).enemies@[j]).enemy.0
                    < usize::MAX,
        ensures
            final(self).wf(),
            final(self).growth_events_ok(),
            final(self).death_events_ok(),
            (final(self).player is Some),
            final(self).player.unwrap().bodies@.len() == old(self).player.unwrap().bodies@.len(),
            final(self).enemies@.len() == old(self).enemies@.len(),
            forall|j: int|
                0 <= j < old(self).enemies@.len()
                    ==> (#[trigger] final(self).enemies@[j]).snake.bodies@.len() == old(self).enemies@[j].snake.bodies@.len(),
            !old(self).move_due(now) ==> *final(self) == *old(self),
            old(self).move_due(now) ==> Game::movement_frame(*old(self), *final(self), now),
            old(self).move_due(now) && !old(self).player_survives() ==> Game::movement_game_over(
                *old(self),
                *final(self),
            ),
            old(self).move_due(now) && old(self).player_survives() ==> Game::movement_advanced(
                *old(self),
                *final(self),
            ),
    {
        if !self.player_interval.check(now, MOVE_INTERVAL_MS) {
            return ;
        }
        self.player_interval.update(now);
        let ghost cfg = self.config;
        let ghost frozen_spec = old(self).frozen_positions();
        let frozen = self.collect_positions();

        // The player's step.
        let mut psnake = self.player.take().unwrap();
        let tail = *psnake.get_tail();
        psnake.set_tail_pos(tail);
        let head = *psnake.get_head();
        let cand = head.add(psnake.get_dir().to_pos(1));
        proof {
            assert(cand == old(self).player_candidate());
        }
        if !self.config.contains(cand.x(), cand.y()) || contains_pos(&frozen, cand) {
            self.state = GameState::GameOver;
            self.player = Some(psnake);
            return ;
        }
        // The heat-map window covers the whole standard arena; a larger arena
        // records only the visits inside the window.
        if cand.x() >= 0 && cand.x() < (2 * crate::score::SCORE_GRID) as i32 && cand.y() >= 0
            && cand.y() < crate::score::SCORE_GRID as i32 {
            self.score.add(cand);
        }
        collect_growth(&self.foods, SnakeId::Player, cand, &mut self.growth_events);
        let new_bodies = shift_bodies(&psnake.bodies, cand);
        psnake.bodies = new_bodies;
        self.player = Some(psnake);
        proof {
            assert(self.growth_events@ =~= growth_events_at(
                old(self).foods@,
                SnakeId::Player,
                old(self).player_candidate(),
            ) + enemy_growths(cfg, frozen_spec, old(self).foods@, old(self).enemies@.take(0)));
        }

        // Each enemy's step, against the same frozen snapshot.
        let num = self.enemies.len();
        let mut new_enemies: Vec<EnemyEntry> = Vec::new();
        let mut i: usize = 0;
        while i < num
            invariant
                i <= num,
                num == old(self).enemies@.len(),
                new_enemies@.len() == i,
                forall|k: int|
                    0 <= k < i ==> enemy_moved(
                        cfg,
                        frozen_spec,
                        old(self).enemies@[k],
                        #[trigger] new_enemies@[k],
                    ),
                self.growth_events@ == growth_events_at(
                    old(self).foods@,
                    SnakeId::Player,
                    old(self).player_candidate(),
                ) + enemy_growths(
                    cfg,
                    frozen_spec,
                    old(self).foods@,
                    old(self).enemies@.take(i as int),
                ),
                self.death_events@ == dead_events(
                    cfg,
                    frozen_spec,
                    old(self).enemies@.take(i as int),
                ),
                self.enemies@ == old(self).enemies@,
                self.foods@ == old(self).foods@,
                self.config == old(self).config,
                self.state == GameState::Playing,
                self.center == old(self).center,
                self.player_interval.last_update == now,
                self.food_interval == old(self).food_interval,
                self.flash_interval == old(self).flash_interval,
                self.enemy_interval == old(self).enemy_interval,
                self.enemy_counter == old(self).enemy_counter,
                self.flash_counter == old(self).flash_counter,
                self.next_enemy_id == old(self).next_enemy_id,
                self.next_food_id == old(self).next_food_id,
                (self.player is Some),
                self.player.unwrap().bodies@ == shifted(
                    old(self).player.unwrap().bodies@,
                    old(self).player_candidate(),
                ),
                self.player.unwrap().direction == old(self).player.unwrap().direction,
                self.player.unwrap().tail_pos == old(self).player.unwrap().bodies@.last(),
                self.score.food_count == old(self).score.food_count,
                self.score.inv(),
                self.score.history@ == (if PlayerScore::in_window(old(self).player_candidate()) {
                    old(self).score.history@.update(
                        PlayerScore::cell_index(old(self).player_candidate()),
                        (old(self).score.history@[PlayerScore::cell_index(
                            old(self).player_candidate(),
                        )] + 1) as u32,
                    )
                } else {
                    old(self).score.history@
                }),
            decreases num - i,
        {
            let e = &self.enemies[i];
            let etail = *e.snake.get_tail();
            let ehead = *e.snake.get_head();
            let ecand = ehead.add(e.snake.get_dir().to_pos(1));
            proof {
                assert(ecand == enemy_candidate(old(self).enemies@[i as int]));
            }
            let survives = self.config.contains_extended(ecand.x(), ecand.y()) && !contains_pos(
                &frozen,
                ecand,
            );
            if survives {
                collect_growth(
                    &self.foods,
                    SnakeId::Enemy(e.id),
                    ecand,
                    &mut self.growth_events,
                );
                let new_bodies = shift_bodies(&e.snake.bodies, ecand);
                let mut marker = e.enemy;
                marker.increment();
                new_enemies.push(
                    EnemyEntry {
                        id: e.id,
                        snake: Snake {
                            direction: e.snake.get_dir(),
                            bodies: new_bodies,
                            tail_pos: etail,
                        },
                        enemy: marker,
                    },
                );
            } else {
                self.death_events.push(EnemyDieEvent { enemy: e.id });
                let kept_bodies = copy_positions(&e.snake.bodies);
                new_enemies.push(
                    EnemyEntry {
                        id: e.id,
                        snake: Snake {
                            direction: e.snake.get_dir(),
                            bodies: kept_bodies,
                            tail_pos: etail,
                        },
                        enemy: e.enemy,
                    },
                );
            }
            proof {
                let es = old(self).enemies@;
                let pred = |ee: EnemyEntry| !enemy_survives(cfg, frozen_spec, ee);
                lemma_filter_take_step(es, pred, i as int);
                assert(es.take(i + 1).drop_last() =~= es.take(i as int));
                if survives {
                    assert(dead_events(cfg, frozen_spec, es.take(i + 1)) =~= dead_events(
                        cfg,
                        frozen_spec,
                        es.take(i as int),
                    ));
                } else {
                    assert(dead_events(cfg, frozen_spec, es.take(i + 1)) =~= dead_events(
                        cfg,
                        frozen_spec,
                        es.take(i as int),
                    ).push(EnemyDieEvent { enemy: es[i as int].id }));
                }
                assert(self.growth_events@ =~= growth_events_at(
                    old(self).foods@,
                    SnakeId::Player,
                    old(self).player_candidate(),
                ) + enemy_growths(cfg, frozen_spec, old(self).foods@, es.take(i + 1)));
            }
            i = i + 1;
        }
        self.enemies = new_enemies;
        proof {
            assert(old(self).enemies@.take(num as int) =~= old(self).enemies@);
            lemma_dead_events_valid(cfg, frozen_spec, old(self).enemies@);
            let devs = dead_events(cfg, frozen_spec, old(self).enemies@);
            assert forall|di: int| 0 <= di < self.death_events@.len() implies has_enemy_id(
                self.enemies@,
                (#[trigger] self.death_events@[di]).enemy,
            ) by {
                assert(has_enemy_id(old(self).enemies@, devs[di].enemy));
                let k = choose|k: int|
                    0 <= k < old(self).enemies@.len() && (#[trigger] old(self).enemies@[k]).id
                        == devs[di].enemy;
                assert(enemy_moved(
                    cfg,
                    frozen_spec,
                    old(self).enemies@[k],
                    new_enemies@[k],
                ));
                assert(self.enemies@[k].id == self.death_events@[di].enemy);
            }
            let c = old(self).player_candidate();
            assert(pos_in_box(cfg, c));
            assert forall|k: int| 0 <= k < self.enemies@.len() implies snake_ok(
                cfg,
                (#[trigger] self.enemies@[k]).snake,
            ) by {
                let olde = old(self).enemies@[k];
                let ne = self.enemies@[k];
                assert(enemy_moved(cfg, frozen_spec, olde, ne));
                assert(snake_ok(cfg, olde.snake));
                if enemy_survives(cfg, frozen_spec, olde) {
                    let ec = enemy_candidate(olde);
                    assert(pos_in_box(cfg, ec));
                    assert forall|b: int| 0 <= b < ne.snake.bodies@.len() implies pos_in_box(
                        cfg,
                        #[trigger] ne.snake.bodies@[b],
                    ) by {
                        if b > 0 {
                            assert(ne.snake.bodies@[b] == olde.snake.bodies@[b - 1]);
                        }
                    }
                } else {
                    assert(ne.snake.bodies@ == olde.snake.bodies@);
                }
            }
            let np = self.player.unwrap();
            let op = old(self).player.unwrap();
            assert(snake_ok(cfg, np)) by {
                assert(cfg.spec_contains(c.x as int, c.y as int));
                assert(pos_in_box(cfg, c));
                assert forall|b: int| 0 <= b < np.bodies@.len() implies pos_in_box(
                    cfg,
                    #[trigger] np.bodies@[b],
                ) by {
                    if b > 0 {
                        assert(np.bodies@[b] == op.bodies@[b - 1]);
                    }
                }
            }
            assert(self.wf());
            assert(self.growth_events_ok()) by {
                let plist = growth_events_at(
                    old(self).foods@,
                    SnakeId::Player,
                    old(self).player_candidate(),
                );
                let elist = enemy_growths(
                    cfg,
                    frozen_spec,
                    old(self).foods@,
                    old(self).enemies@,
                );
                assert forall|k: int| 0 <= k < self.growth_events@.len() implies self
                    .growth_event_ok(#[trigger] self.growth_events@[k]) by {
                    let ev = self.growth_events@[k];
                    if k < plist.len() {
                        assert(ev.snake == SnakeId::Player);
                    } else {
                        assert(elist[k - plist.len()] == ev);
                        assert(elist.contains(ev));
                        lemma_growth_event_in_enemies(
                            cfg,
                            frozen_spec,
                            old(self).foods@,
                            old(self).enemies@,
                            ev,
                        );
                        let w = choose|w: int|
                            0 <= w < old(self).enemies@.len() && ev.snake == SnakeId::Enemy(
                                (#[trigger] old(self).enemies@[w]).id,
                            );
                        assert(enemy_moved(
                            cfg,
                            frozen_spec,
                            old(self).enemies@[w],
                            self.enemies@[w],
                        ));
                        assert(self.enemies@[w].id == old(self).enemies@[w].id);
                        assert(has_enemy_id(self.enemies@, old(self).enemies@[w].id));
                    }
                }
            }
        }
    }
}

/// Any event in the enemies' growth list names one of the listed enemies.
proof fn lemma_growth_event_in_enemies(
    cfg: ArenaConfig,
    frozen: Seq<Position>,
    foods: Seq<Food>,
    es: Seq<EnemyEntry>,
    ev: GrowthEvent,
)
    requires
        enemy_growths(cfg, frozen, foods, es).contains(ev),
    ensures
        exists|k: int| 0 <= k < es.len() && ev.snake == SnakeId::Enemy((#[trigger] es[k]).id),
    decreases es.len(),
{
    let all = enemy_growths(cfg, frozen, foods, es);
    assert(es.len() > 0);
    let rest = es.drop_last();
    let own = if enemy_survives(cfg, frozen, es.last()) {
        growth_events_at(foods, SnakeId::Enemy(es.last().id), enemy_candidate(es.last()))
    } else {
        Seq::<GrowthEvent>::empty()
    };
    assert(all == enemy_growths(cfg, frozen, foods, rest) + own);
    let i = choose|i: int| 0 <= i < all.len() && all[i] == ev;
    if i < enemy_growths(cfg, frozen, foods, rest).len() {
        assert(enemy_growths(cfg, frozen, foods, rest)[i] == ev);
        assert(enemy_growths(cfg, frozen, foods, rest).contains(ev));
        lemma_growth_event_in_enemies(cfg, frozen, foods, rest, ev);
        let k = choose|k: int|
            0 <= k < rest.len() && ev.snake == SnakeId::Enemy((#[trigger] rest[k]).id);
        assert(es[k].id == rest[k].id);
    } else {
        assert(own[i - enemy_growths(cfg, frozen, foods, rest).len()] == ev);
        assert(ev.snake == SnakeId::Enemy(es.last().id));
        assert(es[es.len() - 1].id == es.last().id);
    }
}

/// A body extended by `n` segments, all at the cached tail position.
pub open spec fn grown(bodies: Seq<Position>, tail: Position, n: int) -> Seq<Position> {
    bodies + Seq::new(n as nat, |k: int| tail)
}

/// How many pending growth events name the given snake.
pub open spec fn growth_count_for(evs: Seq<GrowthEvent>, sid: SnakeId) -> int {
    evs.filter(|ev: GrowthEvent| ev.snake == sid).len() as int
}

/// The centroid tracker after removing every event's food position, in order.
pub open spec fn center_after(c: FoodCenter, evs: Seq<GrowthEvent>) -> FoodCenter
    decreases evs.len(),
{
    if evs.len() == 0 {
        c
    } else {
        center_after(c.spec_remove(evs[0].food.0), evs.drop_first())
    }
}

/// Whether each centroid remove of the event chain stays within the machine
/// integers.
pub open spec fn center_removals_ok(c: FoodCenter, evs: Seq<GrowthEvent>) -> bool
    decreases evs.len(),
{
    evs.len() == 0 || (c.can_remove(evs[0].food.0) && center_removals_ok(
        c.spec_remove(evs[0].food.0),
        evs.drop_first(),
    ))
}

/// The food list with the first item of the given identifier removed, or
/// unchanged when none carries it.
pub open spec fn remove_food_by_id(foods: Seq<Food>, id: u64) -> Seq<Food>
    decreases foods.len(),
{
    if foods.len() == 0 {
        foods
    } else if foods[0].id == id {
        foods.drop_first()
    } else {
        seq![foods[0]] + remove_food_by_id(foods.drop_first(), id)
    }
}

/// The food list after consuming every event's food, in order.
pub open spec fn foods_after(foods: Seq<Food>, evs: Seq<GrowthEvent>) -> Seq<Food>
    decreases evs.len(),
{
    if evs.len() == 0 {
        foods
    } else {
        foods_after(remove_food_by_id(foods, evs[0].food.1), evs.drop_first())
    }
}

/// When the first item carrying `id` sits at index `k`, removing by
/// identifier is removing that index.
proof fn lemma_remove_food_first(foods: Seq<Food>, id: u64, k: int)
    requires
        0 <= k < foods.len(),
        foods[k].id == id,
        forall|j: int| 0 <= j < k ==> (#[trigger] foods[j]).id != id,
    ensures
        remove_food_by_id(foods, id) == foods.remove(k),
    decreases k,
{
    if k == 0 {
        assert(foods.drop_first() =~= foods.remove(0));
    } else {
        assert(forall|j: int|
            0 <= j < k - 1 ==> (#[trigger] foods.drop_first()[j]).id != id);
        lemma_remove_food_first(foods.drop_first(), id, k - 1);
        assert(seq![foods[0]] + foods.drop_first().remove(k - 1) =~= foods.remove(k));
    }
}

/// Removing an identifier no item carries changes nothing.
proof fn lemma_remove_food_absent(foods: Seq<Food>, id: u64)
    requires
        forall|j: int| 0 <= j < foods.len() ==> (#[trigger] foods[j]).id != id,
    ensures
        remove_food_by_id(foods, id) == foods,
    decreases foods.len(),
{
    if foods.len() > 0 {
        assert(forall|j: int|
            0 <= j < foods.len() - 1 ==> (#[trigger] foods.drop_first()[j]).id != id);
        lemma_remove_food_absent(foods.drop_first(), id);
        assert(seq![foods[0]] + foods.drop_first() =~= foods);
    }
}

/// Removes the first food item carrying `id`, if any.
#[verifier::loop_isolation(false)]
fn remove_food(foods: &mut Vec<Food>, id: u64)
    ensures
        final(foods)@ == remove_food_by_id(old(foods)@, id),
        final(foods)@ == old(foods)@ || (exists|k: int|
            0 <= k < old(foods)@.len() && final(foods)@ == old(foods)@.remove(k)),
{
    let n = foods.len();
    let mut i: usize = 0;
    while i < n
        invariant
            i <= n,
            foods@ == old(foods)@,
            forall|k: int| 0 <= k < i ==> (#[trigger] foods@[k]).id != id,
        decreases n - i,
    {
        if foods[i].id == id {
            foods.remove(i);
            proof {
                lemma_remove_food_first(old(foods)@, id, i as int);
            }
            return ;
        }
        i = i + 1;
    }
    proof {
        lemma_remove_food_absent(old(foods)@, id);
    }
}

/// The index of the enemy carrying `id`.
#[verifier::loop_isolation(false)]
fn find_enemy(enemies: &Vec<EnemyEntry>, id: u64) -> (r: usize)
    requires
        has_enemy_id(enemies@, id),
    ensures
        r < enemies@.len(),
        enemies@[r as int].id == id,
{
    let n = enemies.len();
    let mut j: usize = 0;
    while j < n
        invariant
            j <= n,
            forall|k: int| 0 <= k < j ==> (#[trigger] enemies@[k]).id != id,
        decreases n - j,
    {
        if enemies[j].id == id {
            return j;
        }
        j = j + 1;
    }
    proof {
        assert(false);
    }
    0
}

impl Game {
    /// The growth consumer: drains the pending growth events in order; for
    /// each, removes the eaten food from the centroid tracker and the food
    /// list, appends one segment to the named snake at its cached pre-tick
    /// tail position, and counts the player's meal toward the score.
    #[verifier::loop_isolation(false)]
    pub fn snake_growth(&mut self)
        requires
            old(self).wf(),
            old(self).growth_events_ok(),
            center_removals_ok(old(self).center, old(self).growth_events@),
            old(self).score.food_count + growth_count_for(
                old(self).growth_events@,
                SnakeId::Player,
            ) <= u8::MAX,
        ensures
            final(self).wf(),
            final(self).growth_events@.len() == 0,
            final(self).center == center_after(old(self).center, old(self).growth_events@),
            final(self).foods@ == foods_after(old(self).foods@, old(self).growth_events@),
            final(self).score.food_count == old(self).score.food_count + growth_count_for(
                old(self).growth_events@,
                SnakeId::Player,
            ),
            final(self).score.history@ == old(self).score.history@,
            (final(self).player is Some) == (old(self).player is Some),
            (old(self).player is Some) ==> final(self).player.unwrap().bodies@ == grown(
                old(self).player.unwrap().bodies@,
                old(self).player.unwrap().tail_pos,
                growth_count_for(old(self).growth_events@, SnakeId::Player),
            ) && final(self).player.unwrap().direction == old(self).player.unwrap().direction
                && final(self).player.unwrap().tail_pos == old(self).player.unwrap().tail_pos,
            final(self).enemies@.len() == old(self).enemies@.len(),
            forall|j: int|
                0 <= j < old(self).enemies@.len() ==> {
                    let olde = old(self).enemies@[j];
                    let cur = #[trigger] final(self).enemies@[j];
                    &&& cur.id == olde.id
                    &&& cur.enemy == olde.enemy
                    &&& cur.snake.direction == olde.snake.direction
                    &&& cur.snake.tail_pos == olde.snake.tail_pos
                    &&& cur.snake.bodies@ == grown(
                        olde.snake.bodies@,
                        olde.snake.tail_pos,
                        growth_count_for(old(self).growth_events@, SnakeId::Enemy(olde.id)),
                    )
                },
            final(self).state == old(self).state,
            final(self).config == old(self).config,
            final(self).death_events@ == old(self).death_events@,
            final(self).player_interval == old(self).player_interval,
            final(self).enemy_interval == old(self).enemy_interval,
            final(self).food_interval == old(self).food_interval,
            final(self).flash_interval == old(self).flash_interval,
            final(self).enemy_counter == old(self).enemy_counter,
            final(self).flash_counter == old(self).flash_counter,
            final(self).next_enemy_id == old(self).next_enemy_id,
            final(self).next_food_id == old(self).next_food_id,
    {
        let ghost evs = old(self).growth_events@;
        let num = self.growth_events.len();
        let mut i: usize = 0;
        proof {
            assert(evs.take(0).filter(|ev: GrowthEvent| ev.snake == SnakeId::Player)
                =~= Seq::<GrowthEvent>::empty());
            assert(evs.skip(0) =~= evs);
            if old(self).player is Some {
                assert(grown(
                    old(self).player.unwrap().bodies@,
                    old(self).player.unwrap().tail_pos,
                    0,
                ) =~= old(self).player.unwrap().bodies@);
            }
            assert forall|j: int| 0 <= j < old(self).enemies@.len() implies (
            #[trigger] old(self).enemies@[j]).snake.bodies@ == grown(
                old(self).enemies@[j].snake.bodies@,
                old(self).enemies@[j].snake.tail_pos,
                0,
            ) by {
                assert(evs.take(0).filter(
                    |ev: GrowthEvent| ev.snake == SnakeId::Enemy(old(self).enemies@[j].id),
                ) =~= Seq::<GrowthEvent>::empty());
                assert(grown(
                    old(self).enemies@[j].snake.bodies@,
                    old(self).enemies@[j].snake.tail_pos,
                    0,
                ) =~= old(self).enemies@[j].snake.bodies@);
            }
        }
        while i < num
            invariant
                i <= num,
                num == evs.len(),
                self.growth_events@ == evs,
                center_after(self.center, evs.skip(i as int)) == center_after(
                    old(self).center,
                    evs,
                ),
                center_removals_ok(self.center, evs.skip(i as int)),
                self.center.inv(),
                foods_after(self.foods@, evs.skip(i as int)) == foods_after(
                    old(self).foods@,
                    evs,
                ),
                forall|a: int, b: int|
                    0 <= a < b < self.foods@.len() ==> (#[trigger] self.foods@[a]).id != (
                    #[trigger] self.foods@[b]).id,
                forall|a: int|
                    0 <= a < self.foods@.len() ==> (#[trigger] self.foods@[a]).id
                        < self.next_food_id,
                forall|a: int|
                    0 <= a < self.foods@.len() ==> self.config.spec_contains(
                        (#[trigger] self.foods@[a]).pos.x as int,
                        self.foods@[a].pos.y as int,
                    ),
                self.score.food_count == old(self).score.food_count + growth_count_for(
                    evs.take(i as int),
                    SnakeId::Player,
                ),
                self.score.food_count + growth_count_for(
                    evs.skip(i as int),
                    SnakeId::Player,
                ) <= u8::MAX,
                self.score.history@ == old(self).score.history@,
                self.score.inv(),
                (self.player is Some) == (old(self).player is Some),
                (old(self).player is Some) ==> self.player.unwrap().bodies@ == grown(
                    old(self).player.unwrap().bodies@,
                    old(self).player.unwrap().tail_pos,
                    growth_count_for(evs.take(i as int), SnakeId::Player),
                ) && self.player.unwrap().direction == old(self).player.unwrap().direction
                    && self.player.unwrap().tail_pos == old(self).player.unwrap().tail_pos
                    && snake_ok(self.config, self.player.unwrap()),
                self.enemies@.len() == old(self).enemies@.len(),
                forall|j: int|
                    0 <= j < old(self).enemies@.len() ==> {
                        let olde = old(self).enemies@[j];
                        let cur = #[trigger] self.enemies@[j];
                        &&& cur.id == olde.id
                        &&& cur.enemy == olde.enemy
                        &&& cur.snake.direction == olde.snake.direction
                        &&& cur.snake.tail_pos == olde.snake.tail_pos
                        &&& cur.snake.bodies@ == grown(
                            olde.snake.bodies@,
                            olde.snake.tail_pos,
                            growth_count_for(evs.take(i as int), SnakeId::Enemy(olde.id)),
                        )
                        &&& snake_ok(self.config, cur.snake)
                    },
                self.state == old(self).state,
                self.config == old(self).config,
                self.death_events@ == old(self).death_events@,
                self.player_interval == old(self).player_interval,
                self.enemy_interval == old(self).enemy_interval,
                self.food_interval == old(self).food_interval,
                self.flash_interval == old(self).flash_interval,
                self.enemy_counter == old(self).enemy_counter,
                self.flash_counter == old(self).flash_counter,
                self.next_enemy_id == old(self).next_enemy_id,
                self.next_food_id == old(self).next_food_id,
            decreases num - i,
        {
            let ev = self.growth_events[i];
            proof {
                assert(evs.skip(i as int)[0] == ev);
                assert(evs.skip(i as int).drop_first() =~= evs.skip(i + 1));
            }
            self.center.remove(&ev.food.0);
            remove_food(&mut self.foods, ev.food.1);
            match ev.snake {
                SnakeId::Player => {
                    proof {
                        assert(old(self).growth_event_ok(evs[i as int]));
                        lemma_filter_take_step(
                            evs,
                            |e: GrowthEvent| e.snake == SnakeId::Player,
                            i as int,
                        );
                        lemma_filter_skip_step(evs, |e: GrowthEvent| e.snake == SnakeId::Player, i as int);
                    }
                    let mut p = self.player.take().unwrap();
                    let t = p.get_tail_pos();
                    p.add(t);
                    self.player = Some(p);
                    self.score.increment();
                    proof {
                        let op = old(self).player.unwrap();
                        assert(grown(
                            op.bodies@,
                            op.tail_pos,
                            growth_count_for(evs.take(i as int), SnakeId::Player),
                        ).push(op.tail_pos) =~= grown(
                            op.bodies@,
                            op.tail_pos,
                            growth_count_for(evs.take(i + 1), SnakeId::Player),
                        ));
                        assert forall|j: int| 0 <= j < old(self).enemies@.len() implies (
                        #[trigger] self.enemies@[j]).snake.bodies@ == grown(
                            old(self).enemies@[j].snake.bodies@,
                            old(self).enemies@[j].snake.tail_pos,
                            growth_count_for(
                                evs.take(i + 1),
                                SnakeId::Enemy(old(self).enemies@[j].id),
                            ),
                        ) by {
                            lemma_filter_take_step(
                                evs,
                                |e: GrowthEvent|
                                    e.snake == SnakeId::Enemy(old(self).enemies@[j].id),
                                i as int,
                            );
                        }
                    }
                },
                SnakeId::Enemy(id) => {
                    proof {
                        assert(old(self).growth_event_ok(evs[i as int]));
                        assert(has_enemy_id(old(self).enemies@, id));
                        let w = choose|w: int|
                            0 <= w < old(self).enemies@.len() && (#[trigger] old(self).enemies@[w]).id == id;
                        assert(self.enemies@[w].id == id);
                        assert(has_enemy_id(self.enemies@, id));
                        lemma_filter_take_step(
                            evs,
                            |e: GrowthEvent| e.snake == SnakeId::Player,
                            i as int,
                        );
                        lemma_filter_skip_step(evs, |e: GrowthEvent| e.snake == SnakeId::Player, i as int);
                    }
                    let j = find_enemy(&self.enemies, id);
                    let ghost before = self.enemies@;
                    let mut entry = self.enemies.remove(j);
                    let t = entry.snake.get_tail_pos();
                    entry.snake.add(t);
                    let ghost gentry = entry;
                    self.enemies.insert(j, entry);
                    proof {
                        assert(self.enemies@ =~= before.update(j as int, gentry));
                        let prev = old(self).enemies@;
                        assert forall|k: int| 0 <= k < prev.len() implies {
                            let olde = prev[k];
                            let cur = #[trigger] self.enemies@[k];
                            &&& cur.id == olde.id
                            &&& cur.enemy == olde.enemy
                            &&& cur.snake.direction == olde.snake.direction
                            &&& cur.snake.tail_pos == olde.snake.tail_pos
                            &&& cur.snake.bodies@ == grown(
                                olde.snake.bodies@,
                                olde.snake.tail_pos,
                                growth_count_for(evs.take(i + 1), SnakeId::Enemy(olde.id)),
                            )
                            &&& snake_ok(self.config, cur.snake)
                        } by {
                            lemma_filter_take_step(
                                evs,
                                |e: GrowthEvent| e.snake == SnakeId::Enemy(prev[k].id),
                                i as int,
                            );
                            if k == j {
                                assert(self.enemies@[k] == gentry);
                                assert(grown(
                                    prev[k].snake.bodies@,
                                    prev[k].snake.tail_pos,
                                    growth_count_for(
                                        evs.take(i as int),
                                        SnakeId::Enemy(prev[k].id),
                                    ),
                                ).push(prev[k].snake.tail_pos) =~= grown(
                                    prev[k].snake.bodies@,
                                    prev[k].snake.tail_pos,
                                    growth_count_for(evs.take(i + 1), SnakeId::Enemy(prev[k].id)),
                                ));
                            } else {
                                assert(self.enemies@[k] == before[k]);
                                assert(before[k].id != id);
                            }
                        }
                    }
                },
            }
            i = i + 1;
        }
        proof {
            assert(evs.skip(num as int) =~= Seq::<GrowthEvent>::empty());
            assert(evs.take(num as int) =~= evs);
        }
        self.growth_events.clear();
    }
}

/// The enemy list with the first entry carrying `id` removed, or unchanged
/// when none carries it.
pub open spec fn remove_enemy_by_id(es: Seq<EnemyEntry>, id: u64) -> Seq<EnemyEntry>
    decreases es.len(),
{
    if es.len() == 0 {
        es
    } else if es[0].id == id {
        es.drop_first()
    } else {
        seq![es[0]] + remove_enemy_by_id(es.drop_first(), id)
    }
}

/// The enemy list after despawning every event's enemy, in order.
pub open spec fn enemies_after_deaths(es: Seq<EnemyEntry>, devs: Seq<EnemyDieEvent>) -> Seq<
    EnemyEntry,
>
    decreases devs.len(),
{
    if devs.len() == 0 {
        es
    } else {
        enemies_after_deaths(remove_enemy_by_id(es, devs[0].enemy), devs.drop_first())
    }
}

/// When the first entry carrying `id` sits at index `k`, removing by
/// identifier is removing that index.
proof fn lemma_remove_enemy_first(es: Seq<EnemyEntry>, id: u64, k: int)
    requires
        0 <= k < es.len(),
        es[k].id == id,
        forall|j: int| 0 <= j < k ==> (#[trigger] es[j]).id != id,
    ensures
        remove_enemy_by_id(es, id) == es.remove(k),
    decreases k,
{
    if k == 0 {
        assert(es.drop_first() =~= es.remove(0));
    } else {
        assert(forall|j: int| 0 <= j < k - 1 ==> (#[trigger] es.drop_first()[j]).id != id);
        lemma_remove_enemy_first(es.drop_first(), id, k - 1);
        assert(seq![es[0]] + es.drop_first().remove(k - 1) =~= es.remove(k));
    }
}

/// After despawning the enemy at `j`, every later death event still names a
/// live enemy: its witness cannot be `j`, whose identifier the processed
/// event holds exclusively.
proof fn lemma_remaining_deaths_valid(
    before: Seq<EnemyEntry>,
    after: Seq<EnemyEntry>,
    j: int,
    devs: Seq<EnemyDieEvent>,
    i: int,
)
    requires
        0 <= j < before.len(),
        after == before.remove(j),
        0 <= i < devs.len(),
        before[j].id == devs[i].enemy,
        forall|a: int, b: int|
            0 <= a < b < devs.len() ==> (#[trigger] devs[a]).enemy != (#[trigger] devs[b]).enemy,
        forall|m: int|
            i <= m < devs.len() ==> has_enemy_id(before, (#[trigger] devs[m]).enemy),
    ensures
        forall|m: int|
            i + 1 <= m < devs.len() ==> has_enemy_id(after, (#[trigger] devs[m]).enemy),
{
    assert forall|m: int| i + 1 <= m < devs.len() implies has_enemy_id(
        after,
        (#[trigger] devs[m]).enemy,
    ) by {
        assert(has_enemy_id(before, devs[m].enemy));
        let k0 = choose|k0: int|
            0 <= k0 < before.len() && (#[trigger] before[k0]).id == devs[m].enemy;
        assert(devs[m].enemy != devs[i].enemy);
        assert(k0 != j);
        if k0 < j {
            assert(after[k0] == before[k0]);
            assert(after[k0].id == devs[m].enemy);
        } else {
            assert(after[k0 - 1] == before[k0]);
            assert(after[k0 - 1].id == devs[m].enemy);
        }
    }
}

impl Game {
    /// The death consumer: drains the pending death events in order; each
    /// despawns the named enemy with its whole body and counts the population
    /// down. No despawned identifier remains afterwards, and the survivors
    /// are exactly the entries left by the events, in their old order.
    #[verifier::loop_isolation(false)]
    #[verifier::rlimit(50)]
    pub fn enemy_die(&mut self)
        requires
            old(self).wf(),
            old(self).death_events_ok(),
        ensures
            final(self).wf(),
            final(self).death_events@.len() == 0,
            final(self).enemies@ == enemies_after_deaths(
                old(self).enemies@,
                old(self).death_events@,
            ),
            final(self).enemies@.len() == old(self).enemies@.len() - old(self).death_events@.len(),
            final(self).enemy_counter.count == final(self).enemies@.len(),
            forall|k: int, m: int|
                0 <= k < final(self).enemies@.len() && 0 <= m < old(self).death_events@.len()
                    ==> (#[trigger] final(self).enemies@[k]).id != (#[trigger] old(self).death_events@[m]).enemy,
            final(self).player == old(self).player,
            final(self).foods@ == old(self).foods@,
            final(self).center == old(self).center,
            final(self).score == old(self).score,
            final(self).growth_events@ == old(self).growth_events@,
            final(self).state == old(self).state,
            final(self).config == old(self).config,
            final(self).player_interval == old(self).player_interval,
            final(self).enemy_interval == old(self).enemy_interval,
            final(self).food_interval == old(self).food_interval,
            final(self).flash_interval == old(self).flash_interval,
            final(self).flash_counter == old(self).flash_counter,
            final(self).next_enemy_id == old(self).next_enemy_id,
            final(self).next_food_id == old(self).next_food_id,
    {
        let ghost devs = old(self).death_events@;
        let num = self.death_events.len();
        let mut i: usize = 0;
        proof {
            assert(devs.skip(0) =~= devs);
        }
        while i < num
            invariant
                i <= num,
                num == devs.len(),
                self.death_events@ == devs,
                enemies_after_deaths(self.enemies@, devs.skip(i as int)) == enemies_after_deaths(
                    old(self).enemies@,
                    devs,
                ),
                self.enemies@.len() == old(self).enemies@.len() - i,
                forall|a: int, b: int|
                    0 <= a < b < self.enemies@.len() ==> (#[trigger] self.enemies@[a]).id != (
                    #[trigger] self.enemies@[b]).id,
                forall|k: int|
                    0 <= k < self.enemies@.len() ==> snake_ok(
                        self.config,
                        (#[trigger] self.enemies@[k]).snake,
                    ) && self.enemies@[k].id < self.next_enemy_id,
                forall|k: int, m: int|
                    0 <= k < self.enemies@.len() && 0 <= m < i ==> (
                    #[trigger] self.enemies@[k]).id != (#[trigger] devs[m]).enemy,
                forall|m: int| i <= m < num ==> has_enemy_id(self.enemies@, (#[trigger] devs[m]).enemy),
                self.enemy_counter.count == self.enemies@.len(),
                self.player == old(self).player,
                self.foods@ == old(self).foods@,
                self.center == old(self).center,
                self.score == old(self).score,
                self.growth_events@ == old(self).growth_events@,
                self.state == old(self).state,
                self.config == old(self).config,
                self.player_interval == old(self).player_interval,
                self.enemy_interval == old(self).enemy_interval,
                self.food_interval == old(self).food_interval,
                self.flash_interval == old(self).flash_interval,
                self.flash_counter == old(self).flash_counter,
                self.next_enemy_id == old(self).next_enemy_id,
                self.next_food_id == old(self).next_food_id,
            decreases num - i,
        {
            let ev = self.death_events[i];
            proof {
                assert(devs.skip(i as int)[0] == ev);
                assert(devs.skip(i as int).drop_first() =~= devs.skip(i + 1));
            }
            let j = find_enemy(&self.enemies, ev.enemy);
            let ghost before = self.enemies@;
            self.enemies.remove(j);
            self.enemy_counter.decrement();
            proof {
                assert forall|k: int| 0 <= k < j as int implies (#[trigger] before[k]).id
                    != ev.enemy by {}
                lemma_remove_enemy_first(before, ev.enemy, j as int);
                lemma_remaining_deaths_valid(
                    before,
                    self.enemies@,
                    j as int,
                    devs,
                    i as int,
                );
                assert forall|k: int| 0 <= k < self.enemies@.len() implies snake_ok(
                    self.config,
                    (#[trigger] self.enemies@[k]).snake,
                ) && self.enemies@[k].id < self.next_enemy_id by {
                    if k < j as int {
                        assert(self.enemies@[k] == before[k]);
                    } else {
                        assert(self.enemies@[k] == before[k + 1]);
                    }
                }
            }
            i = i + 1;
        }
        proof {
            assert(devs.skip(num as int) =~= Seq::<EnemyDieEvent>::empty());
        }
        self.death_events.clear();
    }
}

impl Game {
    /// Whether the centroid arithmetic of recording one more arena position
    /// stays within the machine integers, whatever cell is drawn.
    pub open spec fn center_can_add_arena(self) -> bool {
        &&& self.center.cnt < i32::MAX
        &&& i32::MIN <= self.center.pos.x * self.center.cnt
        &&& self.center.pos.x * self.center.cnt + self.config.width <= i32::MAX
        &&& i32::MIN <= self.center.pos.y * self.center.cnt
        &&& self.center.pos.y * self.center.cnt + self.config.height <= i32::MAX
    }

    /// Whether a food spawn is due at `now`.
    pub open spec fn food_due(self, now: u64) -> bool {
        now - self.food_interval.last_update >= FOOD_INTERVAL_MS
    }

    /// The food spawner: on its own cooldown, places one food item on a
    /// uniformly drawn arena cell and records it in the centroid tracker.
    pub fn food_spawner(&mut self, now: u64)
        requires
            old(self).wf(),
            now >= old(self).food_interval.last_update,
            old(self).next_food_id < u64::MAX,
            old(self).center_can_add_arena(),
        ensures
            final(self).wf(),
            !old(self).food_due(now) ==> *final(self) == *old(self),
            old(self).food_due(now) ==> {
                let f = final(self).foods@.last();
                &&& final(self).food_interval.last_update == now
                &&& final(self).foods@ == old(self).foods@.push(f)
                &&& f.id == old(self).next_food_id
                &&& old(self).config.spec_contains(f.pos.x as int, f.pos.y as int)
                &&& final(self).center == old(self).center.spec_add(f.pos)
                &&& final(self).next_food_id == old(self).next_food_id + 1
                &&& *final(self) == (Game {
                    foods: final(self).foods,
                    center: final(self).center,
                    food_interval: final(self).food_interval,
                    next_food_id: final(self).next_food_id,
                    ..*old(self)
                })
            },
    {
        if !self.food_interval.check(now, FOOD_INTERVAL_MS) {
            return ;
        }
        self.food_interval.update(now);
        let x = crate::rng::rand_range(0, self.config.width);
        let y = crate::rng::rand_range(0, self.config.height);
        let pos = Position::new(x, y);
        let f = Food { id: self.next_food_id, pos };
        self.next_food_id = self.next_food_id + 1;
        self.foods.push(f);
        self.center.add(&pos);
    }

    /// Whether a flash frame is due at `now`.
    pub open spec fn flash_due(self, now: u64) -> bool {
        now - self.flash_interval.last_update >= FLASH_INTERVAL_MS
    }

    /// The end-of-game flashing cue: on its own cooldown, alternates the mask
    /// (visible on even counts) for ten frames, pauses three more, then moves
    /// on to the score display. Returns the mask visibility to render, if it
    /// changed this frame.
    pub fn flash_mask(&mut self, now: u64) -> (r: Option<bool>)
        requires
            old(self).wf(),
            old(self).state == GameState::GameOver,
            now >= old(self).flash_interval.last_update,
        ensures
            final(self).wf(),
            !old(self).flash_due(now) ==> *final(self) == *old(self) && (r is None),
            old(self).flash_due(now) ==> final(self).flash_interval.last_update == now
                && *final(self) == (Game {
                flash_interval: final(self).flash_interval,
                flash_counter: final(self).flash_counter,
                state: final(self).state,
                ..*old(self)
            }),
            old(self).flash_due(now) && old(self).flash_counter.count < 10 ==> r == Some(
                old(self).flash_counter.count % 2 == 0,
            ) && final(self).flash_counter.count == old(self).flash_counter.count + 1 && final(self).state == GameState::GameOver,
            old(self).flash_due(now) && 10 <= old(self).flash_counter.count < 13 ==> (r is None)
                && final(self).flash_counter.count == old(self).flash_counter.count + 1 && final(self).state == GameState::GameOver,
            old(self).flash_due(now) && old(self).flash_counter.count >= 13 ==> (r is None)
                && final(self).flash_counter == old(self).flash_counter && final(self).state
                == GameState::ShowScore,
    {
        if !self.flash_interval.check(now, FLASH_INTERVAL_MS) {
            return None;
        }
        self.flash_interval.update(now);
        if self.flash_counter.less_than(10) {
            let visible = self.flash_counter.is_even();
            self.flash_counter.increment();
            return Some(visible);
        }
        if self.flash_counter.less_than(13) {
            self.flash_counter.increment();
            return None;
        }
        self.state = GameState::ShowScore;
        None
    }

    /// End-of-session cleanup, run when the flashing cue is over: despawns
    /// every snake and food item and resets every interval timer and counter.
    /// The centroid tracker and the session record deliberately keep their
    /// values.
    pub fn game_over(&mut self, now: u64)
        requires
            old(self).wf(),
        ensures
            final(self).wf(),
            (final(self).player is None),
            final(self).enemies@.len() == 0,
            final(self).foods@.len() == 0,
            final(self).growth_events@.len() == 0,
            final(self).death_events@.len() == 0,
            final(self).player_interval.last_update == now,
            final(self).enemy_interval.last_update == now,
            final(self).food_interval.last_update == now,
            final(self).flash_interval.last_update == now,
            final(self).enemy_counter.count == 0,
            final(self).flash_counter.count == 0,
            final(self).center == old(self).center,
            final(self).score == old(self).score,
            final(self).state == old(self).state,
            final(self).config == old(self).config,
            final(self).next_enemy_id == old(self).next_enemy_id,
            final(self).next_food_id == old(self).next_food_id,
    {
        self.player = None;
        self.enemies = Vec::new();
        self.foods = Vec::new();
        self.growth_events = Vec::new();
        self.death_events = Vec::new();
        self.player_interval.reset(now);
        self.enemy_interval.reset(now);
        self.food_interval.reset(now);
        self.flash_interval.reset(now);
        self.enemy_counter.reset();
        self.flash_counter.reset();
    }

    /// The score display step: hands the session's food count to the caller
    /// (an external collaborator may add a bonus) and returns to the menu.
    pub fn show_score(&mut self) -> (r: u8)
        requires
            old(self).wf(),
            old(self).state == GameState::ShowScore,
        ensures
            final(self).wf(),
            r == old(self).score.food_count,
            final(self).state == GameState::Menu,
            *final(self) == (Game { state: GameState::Menu, ..*old(self) }),
    {
        self.state = GameState::Menu;
        let score = self.score.get_food_count();
        score
    }
}

/// How one enemy entry comes out of the steering step: body and identity are
/// untouched; an enemy that has traveled straight for longer than its own
/// body re-steers by a weighted draw (never the reversal) and resets its
/// counter, any other enemy is left alone.
pub open spec fn enemy_steered(center: Position, e: EnemyEntry, r: EnemyEntry) -> bool {
    &&& r.id == e.id
    &&& r.snake.bodies@ == e.snake.bodies@
    &&& r.snake.tail_pos == e.snake.tail_pos
    &&& if e.enemy.0 > e.snake.bodies@.len() {
        let head = e.snake.bodies@[0];
        let diff = Position { x: (center.x - head.x) as i32, y: (center.y - head.y) as i32 };
        &&& r.enemy.0 == 0
        &&& (exists|off: int|
            0 <= off < 4 && #[trigger] crate::steering::steer_weight(diff, e.snake.direction, off)
                > 0 && r.snake.direction == Direction::spec_from_num(
                e.snake.direction.spec_num() + off,
            ))
        &&& r.snake.direction != e.snake.direction.spec_opposite()
    } else {
        &&& r.enemy == e.enemy
        &&& r.snake.direction == e.snake.direction
    }
}

impl Game {
    /// The per-frame decision step, run before movement: the player's heading
    /// follows the held key unless that would reverse it; every enemy that
    /// has traveled straight for longer than its own body re-steers toward
    /// the food centroid. No heading ever becomes the reversal of the heading
    /// held immediately before.
    #[verifier::loop_isolation(false)]
    pub fn snake_movement_input(&mut self, key: Option<Direction>)
        requires
            old(self).wf(),
            -crate::steering::STEER_COORD_LIMIT <= old(self).center.pos.x
                <= crate::steering::STEER_COORD_LIMIT,
            -crate::steering::STEER_COORD_LIMIT <= old(self).center.pos.y
                <= crate::steering::STEER_COORD_LIMIT,
        ensures
            final(self).wf(),
            (final(self).player is Some) == (old(self).player is Some),
            (old(self).player is Some) ==> {
                let op = old(self).player.unwrap();
                let np = final(self).player.unwrap();
                &&& np.bodies@ == op.bodies@
                &&& np.tail_pos == op.tail_pos
                &&& np.direction == (if key is Some && key.unwrap() != op.direction.spec_opposite() {
                    key.unwrap()
                } else {
                    op.direction
                })
                &&& np.direction != op.direction.spec_opposite()
            },
            final(self).enemies@.len() == old(self).enemies@.len(),
            forall|j: int|
                0 <= j < old(self).enemies@.len() ==> enemy_steered(
                    old(self).center.pos,
                    old(self).enemies@[j],
                    #[trigger] final(self).enemies@[j],
                ),
            forall|j: int|
                0 <= j < old(self).enemies@.len()
                    ==> (#[trigger] final(self).enemies@[j]).snake.direction != old(
                    self,
                ).enemies@[j].snake.direction.spec_opposite(),
            *final(self) == (Game {
                player: final(self).player,
                enemies: final(self).enemies,
                ..*old(self)
            }),
    {
        let ghost center_pos = self.center.pos;
        match self.player.take() {
            Some(mut p) => {
                let dir = match key {
                    Some(d) => d,
                    None => p.get_dir(),
                };
                if !(dir == p.get_dir().opposite()) {
                    p.set_dir(dir);
                }
                proof {
                    p.direction.lemma_opposite_differs();
                    old(self).player.unwrap().direction.lemma_opposite_differs();
                }
                self.player = Some(p);
            },
            None => {},
        }
        let num = self.enemies.len();
        let mut new_enemies: Vec<EnemyEntry> = Vec::new();
        let mut i: usize = 0;
        while i < num
            invariant
                i <= num,
                num == old(self).enemies@.len(),
                new_enemies@.len() == i,
                forall|k: int|
                    0 <= k < i ==> enemy_steered(
                        center_pos,
                        old(self).enemies@[k],
                        #[trigger] new_enemies@[k],
                    ),
                forall|k: int|
                    0 <= k < i ==> (#[trigger] new_enemies@[k]).snake.direction != old(
                        self,
                    ).enemies@[k].snake.direction.spec_opposite(),
                self.enemies@ == old(self).enemies@,
                self.center == old(self).center,
                self.config == old(self).config,
                (self.player is Some) == (old(self).player is Some),
                (old(self).player is Some) ==> {
                    let op = old(self).player.unwrap();
                    let np = self.player.unwrap();
                    &&& np.bodies@ == op.bodies@
                    &&& np.tail_pos == op.tail_pos
                    &&& np.direction == (if key is Some && key.unwrap()
                        != op.direction.spec_opposite() {
                        key.unwrap()
                    } else {
                        op.direction
                    })
                    &&& np.direction != op.direction.spec_opposite()
                    &&& snake_ok(self.config, np)
                },
                *self == (Game { player: self.player, enemies: self.enemies, ..*old(self) }),
            decreases num - i,
        {
            let e = &self.enemies[i];
            let steer = e.enemy.get() > e.snake.len();
            if steer {
                let head = *e.snake.get_head();
                let nd = crate::steering::choose_direction(
                    head,
                    self.center.get_pos(),
                    e.snake.get_dir(),
                );
                let bodies = copy_positions(&e.snake.bodies);
                new_enemies.push(
                    EnemyEntry {
                        id: e.id,
                        snake: Snake {
                            direction: nd,
                            bodies,
                            tail_pos: e.snake.get_tail_pos(),
                        },
                        enemy: Enemy(0),
                    },
                );
                proof {
                    old(self).enemies@[i as int].snake.direction.lemma_opposite_differs();
                }
            } else {
                let bodies = copy_positions(&e.snake.bodies);
                new_enemies.push(
                    EnemyEntry {
                        id: e.id,
                        snake: Snake {
                            direction: e.snake.get_dir(),
                            bodies,
                            tail_pos: e.snake.get_tail_pos(),
                        },
                        enemy: e.enemy,
                    },
                );
                proof {
                    old(self).enemies@[i as int].snake.direction.lemma_opposite_differs();
                }
            }
            i = i + 1;
        }
        self.enemies = new_enemies;
    }
}

/// An admissible spawn draw: quadrant offsets in -1..3 for each axis, cell
/// offsets inside one arena, and the quadrant pair not the player's home
/// quadrant.
pub open spec fn spawn_draw_ok(cfg: ArenaConfig, px: i32, py: i32, rx: i32, ry: i32) -> bool {
    &&& -1 <= px < 3
    &&& -1 <= py < 3
    &&& 0 <= rx < cfg.width
    &&& 0 <= ry < cfg.height
    &&& !((px == 0 || px == 1) && (py == 0 || py == 1))
}

/// The head cell a spawn draw produces: the quadrant offset plus the cell
/// offset, the row clamped four cells under the arena top so the downward
/// body fits.
pub open spec fn spawn_position_spec(cfg: ArenaConfig, px: i32, py: i32, rx: i32, ry: i32) -> Position {
    let x = px * (cfg.width / 2) + rx;
    let y0 = py * (cfg.height / 2) + ry;
    let y = if cfg.height - 4 < y0 {
        cfg.height - 4
    } else {
        y0
    };
    Position { x: x as i32, y: y as i32 }
}

/// Computes the head cell of a spawn draw.
pub fn spawn_position(cfg: &ArenaConfig, px: i32, py: i32, rx: i32, ry: i32) -> (r: Position)
    requires
        cfg.wf(),
        spawn_draw_ok(*cfg, px, py, rx, ry),
    ensures
        r == spawn_position_spec(*cfg, px, py, rx, ry),
        pos_in_box(*cfg, r),
        -2 * cfg.height <= r.y - 3,
{
    proof {
        assert(-(cfg.width / 2) <= px * (cfg.width / 2) <= 2 * (cfg.width / 2))
            by (nonlinear_arith)
            requires
                -1 <= px <= 2 && 0 <= cfg.width / 2,
        ;
        assert(-(cfg.height / 2) <= py * (cfg.height / 2) <= 2 * (cfg.height / 2))
            by (nonlinear_arith)
            requires
                -1 <= py <= 2 && 0 <= cfg.height / 2,
        ;
        vstd::arithmetic::div_mod::lemma_fundamental_div_mod(cfg.width as int, 2);
        vstd::arithmetic::div_mod::lemma_fundamental_div_mod(cfg.height as int, 2);
    }
    let x = px * (cfg.width / 2) + rx;
    let y0 = py * (cfg.height / 2) + ry;
    let hcap = cfg.height - 4;
    let y = if hcap < y0 {
        hcap
    } else {
        y0
    };
    Position::new(x, y)
}

/// Law: a spawn draw whose row offset avoids the clamped band (the bottom
/// quadrant offset, two) never places the head inside the player's starting
/// quadrant: the quarter of the arena holding the player's spawn cell.
pub proof fn lemma_spawn_avoids_player_quadrant(
    cfg: ArenaConfig,
    px: i32,
    py: i32,
    rx: i32,
    ry: i32,
)
    requires
        cfg.wf(),
        spawn_draw_ok(cfg, px, py, rx, ry),
        py != 2,
    ensures
        ({
            let p = spawn_position_spec(cfg, px, py, rx, ry);
            !(cfg.width / 2 <= p.x < cfg.width && cfg.height / 2 <= p.y < cfg.height)
        }),
{
    let p = spawn_position_spec(cfg, px, py, rx, ry);
    assert(-(cfg.width / 2) <= px * (cfg.width / 2) <= 2 * (cfg.width / 2)) by (nonlinear_arith)
        requires
            -1 <= px <= 2 && 0 <= cfg.width / 2,
    ;
    assert(-(cfg.height / 2) <= py * (cfg.height / 2) <= 2 * (cfg.height / 2))
        by (nonlinear_arith)
        requires
            -1 <= py <= 2 && 0 <= cfg.height / 2,
    ;
    assert((px == -1 ==> px * (cfg.width / 2) == -(cfg.width / 2)) && (px == 2 ==> px * (
    cfg.width / 2) == 2 * (cfg.width / 2))) by (nonlinear_arith);
    assert(py == -1 ==> py * (cfg.height / 2) == -(cfg.height / 2)) by (nonlinear_arith);
    vstd::arithmetic::div_mod::lemma_fundamental_div_mod(cfg.width as int, 2);
    vstd::arithmetic::div_mod::lemma_fundamental_div_mod(cfg.height as int, 2);
    assert(2 * (cfg.width / 2) == cfg.width);
    assert(2 * (cfg.height / 2) == cfg.height);
    if px == -1 {
        assert(p.x < cfg.width / 2);
    } else if px == 2 {
        assert(p.x >= cfg.width);
    } else {
        assert(py == -1);
        assert(py * (cfg.height / 2) + ry <= cfg.height - (cfg.height / 2) - 1);
        assert(p.y < cfg.height / 2);
    }
}

/// The twelve quadrant pairs outside the player's home quadrant, in a fixed
/// order: drawing one index uniformly picks the quadrant with the same
/// distribution as redrawing a pair from the full grid until it leaves the
/// home quadrant.
fn quadrant_pair(k: i32) -> (r: (i32, i32))
    requires
        0 <= k < 12,
    ensures
        -1 <= r.0 < 3,
        -1 <= r.1 < 3,
        !((r.0 == 0 || r.0 == 1) && (r.1 == 0 || r.1 == 1)),
{
    if k == 0 {
        (-1, -1)
    } else if k == 1 {
        (-1, 0)
    } else if k == 2 {
        (-1, 1)
    } else if k == 3 {
        (-1, 2)
    } else if k == 4 {
        (0, -1)
    } else if k == 5 {
        (0, 2)
    } else if k == 6 {
        (1, -1)
    } else if k == 7 {
        (1, 2)
    } else if k == 8 {
        (2, -1)
    } else if k == 9 {
        (2, 0)
    } else if k == 10 {
        (2, 1)
    } else {
        (2, 2)
    }
}

impl Game {
    /// The enemy spawner, run every frame while playing: below the population
    /// cap it places one four-segment enemy heading up, its head drawn from a
    /// quadrant outside the player's home quadrant; at the cap it is a no-op,
    /// so the live count never exceeds the cap.
    #[verifier::loop_isolation(false)]
    pub fn spawn_enemy(&mut self)
        requires
            old(self).wf(),
            old(self).next_enemy_id < u64::MAX,
        ensures
            final(self).wf(),
            final(self).enemies@.len() <= MAX_ENEMIES,
            old(self).enemies@.len() >= MAX_ENEMIES ==> *final(self) == *old(self),
            old(self).enemies@.len() < MAX_ENEMIES ==> {
                let ne = final(self).enemies@.last();
                &&& final(self).enemies@ == old(self).enemies@.push(ne)
                &&& ne.id == old(self).next_enemy_id
                &&& ne.enemy.0 == 0
                &&& ne.snake.direction == Direction::UP
                &&& ne.snake.bodies@.len() == ENEMY_INITIAL_LEN
                &&& (exists|px: i32, py: i32, rx: i32, ry: i32|
                    #[trigger] spawn_draw_ok(old(self).config, px, py, rx, ry)
                        && ne.snake.bodies@[0] == spawn_position_spec(
                        old(self).config,
                        px,
                        py,
                        rx,
                        ry,
                    ))
                &&& (forall|b: int|
                    1 <= b < ENEMY_INITIAL_LEN ==> #[trigger] ne.snake.bodies@[b] == (Position {
                        x: ne.snake.bodies@[0].x,
                        y: (ne.snake.bodies@[0].y - b) as i32,
                    }))
                &&& final(self).next_enemy_id == old(self).next_enemy_id + 1
                &&& final(self).enemy_counter.count == old(self).enemy_counter.count + 1
                &&& *final(self) == (Game {
                    enemies: final(self).enemies,
                    enemy_counter: final(self).enemy_counter,
                    next_enemy_id: final(self).next_enemy_id,
                    ..*old(self)
                })
            },
    {
        if !self.enemy_counter.less_than(MAX_ENEMIES) {
            return ;
        }
        let k = crate::rng::rand_range(0, 12);
        let (px, py) = quadrant_pair(k);
        let rx = crate::rng::rand_range(0, self.config.width);
        let ry = crate::rng::rand_range(0, self.config.height);
        let head = spawn_position(&self.config, px, py, rx, ry);
        let mut snake = Snake::default();
        snake.add(head);
        let mut b: i32 = 1;
        while b < ENEMY_INITIAL_LEN as i32
            invariant
                1 <= b <= ENEMY_INITIAL_LEN,
                snake.direction == Direction::UP,
                snake.tail_pos == (Position { x: 0, y: 0 }),
                snake.bodies@.len() == b,
                snake.bodies@[0] == head,
                forall|c: int|
                    1 <= c < b ==> #[trigger] snake.bodies@[c] == (Position {
                        x: head.x,
                        y: (head.y - c) as i32,
                    }),
            decreases ENEMY_INITIAL_LEN - b,
        {
            snake.add(Position::new(head.x(), head.y() - b));
            b = b + 1;
        }
        proof {
            assert forall|c: int| 0 <= c < snake.bodies@.len() implies pos_in_box(
                self.config,
                #[trigger] snake.bodies@[c],
            ) by {
                assert(pos_in_box(self.config, head));
            }
        }
        let entry = EnemyEntry { id: self.next_enemy_id, snake, enemy: Enemy::default() };
        self.next_enemy_id = self.next_enemy_id + 1;
        self.enemies.push(entry);
        self.enemy_counter.increment();
    }
}

/// Law: growth adds exactly one segment per event, and inserts it at the
/// pre-tick tail position. After a survived movement tick, the cached tail is
/// the position the tail held before the shift, so consuming one growth event
/// appends that pre-tick position - never the tail's post-shift cell.
pub proof fn lemma_growth_inserts_pre_tick_tail(pre: Game, mid: Game, evs: Seq<GrowthEvent>)
    requires
        (pre.player is Some),
        pre.player.unwrap().bodies@.len() >= 1,
        Game::movement_advanced(pre, mid),
        growth_count_for(evs, SnakeId::Player) == 1,
    ensures
        grown(
            mid.player.unwrap().bodies@,
            mid.player.unwrap().tail_pos,
            growth_count_for(evs, SnakeId::Player),
        ) == mid.player.unwrap().bodies@.push(pre.player.unwrap().bodies@.last()),
        grown(
            mid.player.unwrap().bodies@,
            mid.player.unwrap().tail_pos,
            growth_count_for(evs, SnakeId::Player),
        ).len() == mid.player.unwrap().bodies@.len() + 1,
{
    let b = mid.player.unwrap().bodies@;
    let t = mid.player.unwrap().tail_pos;
    assert(t == pre.player.unwrap().bodies@.last());
    assert(grown(b, t, 1) =~= b.push(t));
}

/// Whether `v` holds the position `p`.
pub fn contains_pos(v: &Vec<Position>, p: Position) -> (r: bool)
    ensures
        r == v@.contains(p),
{
    let n = v.len();
    let mut i: usize = 0;
    while i < n
        invariant
            i <= n,
            n == v@.len(),
            forall|k: int| 0 <= k < i ==> v@[k] != p,
        decreases n - i,
    {
        if v[i] == p {
            assert(v@.contains(p));
            return true;
        }
        i = i + 1;
    }
    return false;
}

} // verus!
