//! The player's session record: a heat-map of visited head positions (two
//! 28 x 28 halves of the standard arena) and a count of food eaten. An
//! external scoring collaborator reads both; this module only accumulates.

use vstd::prelude::*;

use crate::geometry::Position;

verus! {

/// Side length of one heat-map half.
pub const SCORE_GRID: usize = 28;

/// Flattened length of the heat-map: two SCORE_GRID x SCORE_GRID halves.
pub const SCORE_CELLS: usize = 2 * SCORE_GRID * SCORE_GRID;

/// Heat-map of player head positions plus the number of food items eaten.
pub struct PlayerScore {
    pub history: Vec<u32>,
    pub food_count: u8,
}

impl PlayerScore {
    pub open spec fn inv(self) -> bool {
        self.history@.len() == SCORE_CELLS
    }

    /// Whether `pos` falls inside the fixed window the heat-map records.
    pub open spec fn in_window(pos: Position) -> bool {
        0 <= pos.x < 2 * SCORE_GRID && 0 <= pos.y < SCORE_GRID
    }

    /// The flat heat-map cell of an in-window position: half, then column,
    /// then row.
    pub open spec fn cell_index(pos: Position) -> int {
        let g = SCORE_GRID as int;
        (pos.x as int / g) * (g * g) + (pos.x as int % g) * g + pos.y as int
    }

    /// Whether recording `pos` would stay within the cell's range.
    pub open spec fn can_add(self, pos: Position) -> bool {
        Self::in_window(pos) ==> self.history@[Self::cell_index(pos)] < u32::MAX
    }

    pub fn new() -> (r: PlayerScore)
        ensures
            r.inv(),
            forall|i: int| 0 <= i < SCORE_CELLS ==> r.history@[i] == 0,
            r.food_count == 0,
    {
        let mut history: Vec<u32> = Vec::new();
        let mut i: usize = 0;
        while i < SCORE_CELLS
            invariant
                i <= SCORE_CELLS,
                history@.len() == i,
                forall|j: int| 0 <= j < i ==> history@[j] == 0,
            decreases SCORE_CELLS - i,
        {
            history.push(0);
            i = i + 1;
        }
        PlayerScore { history, food_count: 0 }
    }

    /// Marks one visit of the player's head at `pos`.
    pub fn add(&mut self, pos: Position)
        requires
            old(self).inv(),
            PlayerScore::in_window(pos),
            old(self).can_add(pos),
        ensures
            final(self).inv(),
            final(self).history@ == old(self).history@.update(
                PlayerScore::cell_index(pos),
                (old(self).history@[PlayerScore::cell_index(pos)] + 1) as u32,
            ),
            final(self).food_count == old(self).food_count,
    {
        let x = pos.x as usize;
        let y = pos.y as usize;
        let i = x / SCORE_GRID;
        let col = x % SCORE_GRID;
        let idx = i * (SCORE_GRID * SCORE_GRID) + col * SCORE_GRID + y;
        assert(idx == PlayerScore::cell_index(pos));
        assert(idx < SCORE_CELLS) by {
            assert(i <= 1);
            assert(col < SCORE_GRID);
            assert(y < SCORE_GRID);
        }
        let v = self.history[idx];
        self.history[idx] = v + 1;
    }

    /// Counts one food item eaten by the player.
    pub fn increment(&mut self)
        requires
            old(self).food_count < u8::MAX,
        ensures
            final(self).food_count == old(self).food_count + 1,
            final(self).history@ == old(self).history@,
    {
        self.food_count = self.food_count + 1;
    }

    /// The number of food items eaten, the base of the displayed score.
    pub fn get_food_count(&self) -> (r: u8)
        ensures
            r == self.food_count,
    {
        self.food_count
    }

    /// One heat-map cell, for the scoring collaborator to read.
    pub fn get_cell(&self, idx: usize) -> (r: u32)
        requires
            self.inv(),
            idx < SCORE_CELLS,
        ensures
            r == self.history@[idx as int],
    {
        self.history[idx]
    }
}

} // verus!
