//! Single-frame event messages: collected by the movement step, drained by
//! the growth and death consumers later in the same frame.

use vstd::prelude::*;

use crate::geometry::Position;

verus! {

/// Names a snake: the player's, or an enemy by its stable identifier.
#[derive(Clone, Copy, PartialEq, Eq, Structural, Debug)]
pub enum SnakeId {
    Player,
    Enemy(u64),
}

/// A snake's head reached a food item this tick; the growth consumer removes
/// the food (named by position and identifier) and appends a segment.
#[derive(Clone, Copy, Debug)]
pub struct GrowthEvent {
    pub snake: SnakeId,
    pub food: (Position, u64),
}

/// An enemy left the extended arena or collided this tick; the death consumer
/// despawns it.
#[derive(Clone, Copy, PartialEq, Eq, Structural, Debug)]
pub struct EnemyDieEvent {
    pub enemy: u64,
}

} // verus!
