//! Arena bounds: the strict arena the player must stay inside, and the larger
//! extended arena enemies may roam before they are culled.

use vstd::prelude::*;

verus! {

/// Width of the standard arena, in grid cells.
pub const ARENA_WIDTH: u32 = 56;

/// Height of the standard arena, in grid cells.
pub const ARENA_HEIGHT: u32 = 28;

/// Cells a snake advances per movement tick times ten; the movement cooldown
/// is `600 / SNAKE_SPEED` milliseconds.
pub const SNAKE_SPEED: u64 = 10;

/// The dimensions of one game's grid. The standard game uses
/// `ARENA_WIDTH` x `ARENA_HEIGHT`; the engine is checked for any dimensions
/// within `wf`'s bounds.
#[derive(Clone, Copy, PartialEq, Eq, Structural, Debug)]
pub struct ArenaConfig {
    pub width: i32,
    pub height: i32,
}

impl ArenaConfig {
    /// Dimensions the engine's arithmetic is checked for: bounded, and even
    /// so the arena splits into quadrants.
    pub open spec fn wf(self) -> bool {
        &&& 8 <= self.width <= 65536
        &&& 8 <= self.height <= 65536
        &&& self.width % 2 == 0
        &&& self.height % 2 == 0
    }

    pub fn standard() -> (r: ArenaConfig)
        ensures
            r.width == ARENA_WIDTH as i32,
            r.height == ARENA_HEIGHT as i32,
            r.wf(),
    {
        ArenaConfig { width: ARENA_WIDTH as i32, height: ARENA_HEIGHT as i32 }
    }

    /// The strict arena: the box the player must stay inside.
    pub open spec fn spec_contains(self, x: int, y: int) -> bool {
        0 <= x < self.width && 0 <= y < self.height
    }

    pub fn contains(&self, x: i32, y: i32) -> (r: bool)
        ensures
            r == self.spec_contains(x as int, y as int),
    {
        0 <= x && x < self.width && 0 <= y && y < self.height
    }

    /// The extended arena: half an arena wider on every side; an enemy that
    /// leaves it dies.
    pub open spec fn spec_contains_extended(self, x: int, y: int) -> bool {
        -(self.width / 2) <= x < 3 * self.width / 2 && -(self.height / 2) <= y < 3 * self.height
            / 2
    }

    pub fn contains_extended(&self, x: i32, y: i32) -> (r: bool)
        requires
            self.wf(),
        ensures
            r == self.spec_contains_extended(x as int, y as int),
    {
        -(self.width / 2) <= x && x < 3 * self.width / 2 && -(self.height / 2) <= y && y < 3
            * self.height / 2
    }
}

/// Whether `(x, y)` lies inside the standard strict arena.
pub fn in_arena(x: i32, y: i32) -> (r: bool)
    ensures
        r == ArenaConfig::standard_spec().spec_contains(x as int, y as int),
{
    let cfg = ArenaConfig::standard();
    cfg.contains(x, y)
}

/// Whether `(x, y)` lies inside the standard extended arena.
pub fn in_enemy_arena(x: i32, y: i32) -> (r: bool)
    ensures
        r == ArenaConfig::standard_spec().spec_contains_extended(x as int, y as int),
{
    let cfg = ArenaConfig::standard();
    cfg.contains_extended(x, y)
}

impl ArenaConfig {
    /// The standard dimensions, as a spec value.
    pub open spec fn standard_spec() -> ArenaConfig {
        ArenaConfig { width: ARENA_WIDTH as i32, height: ARENA_HEIGHT as i32 }
    }
}

} // verus!
