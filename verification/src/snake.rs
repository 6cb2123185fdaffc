//! The snake entity model: an ordered sequence of body-segment positions
//! (head first, tail last), a heading, and the cached pre-tick tail position
//! that growth inserts at.

use vstd::prelude::*;

use crate::geometry::{Direction, Position};

verus! {

/// A snake: its segments' grid positions in order from head to tail, its
/// current heading, and the position its tail held before the current tick's
/// shift (where a segment grown this tick appears).
pub struct Snake {
    pub direction: Direction,
    pub bodies: Vec<Position>,
    pub tail_pos: Position,
}

impl Default for Snake {
    fn default() -> (r: Snake)
        ensures
            r.direction == Direction::UP,
            r.bodies@.len() == 0,
            r.tail_pos == (Position { x: 0, y: 0 }),
    {
        Snake { direction: Direction::UP, bodies: Vec::new(), tail_pos: Position::default() }
    }
}

impl Snake {
    /// Appends one segment at `body`; growth passes the cached `tail_pos`.
    pub fn add(&mut self, body: Position)
        ensures
            final(self).bodies@ == old(self).bodies@.push(body),
            final(self).direction == old(self).direction,
            final(self).tail_pos == old(self).tail_pos,
    {
        self.bodies.push(body);
    }

    pub fn get_dir(&self) -> (r: Direction)
        ensures
            r == self.direction,
    {
        self.direction
    }

    pub fn set_dir(&mut self, dir: Direction)
        ensures
            final(self).direction == dir,
            final(self).bodies@ == old(self).bodies@,
            final(self).tail_pos == old(self).tail_pos,
    {
        self.direction = dir;
    }

    pub fn get_head(&self) -> (r: &Position)
        requires
            self.bodies@.len() >= 1,
        ensures
            *r == self.bodies@[0],
    {
        &self.bodies[0]
    }

    pub fn get_tail(&self) -> (r: &Position)
        requires
            self.bodies@.len() >= 1,
        ensures
            *r == self.bodies@.last(),
    {
        &self.bodies[self.bodies.len() - 1]
    }

    pub fn set_tail_pos(&mut self, pos: Position)
        ensures
            final(self).tail_pos == pos,
            final(self).bodies@ == old(self).bodies@,
            final(self).direction == old(self).direction,
    {
        self.tail_pos = pos;
    }

    pub fn get_tail_pos(&self) -> (r: Position)
        ensures
            r == self.tail_pos,
    {
        self.tail_pos
    }

    /// The position of segment `i` (0 is the head).
    pub fn get(&self, i: usize) -> (r: Position)
        requires
            i < self.bodies@.len(),
        ensures
            r == self.bodies@[i as int],
    {
        self.bodies[i]
    }

    pub fn len(&self) -> (r: usize)
        ensures
            r == self.bodies@.len(),
    {
        self.bodies.len()
    }
}

/// The enemy marker: counts consecutive ticks an enemy has traveled since its
/// heading was last reconsidered.
#[derive(Clone, Copy, PartialEq, Eq, Structural, Debug)]
pub struct Enemy(pub usize);

impl Default for Enemy {
    fn default() -> (r: Enemy)
        ensures
            r.0 == 0,
    {
        Enemy(0)
    }
}

impl Enemy {
    pub fn get(&self) -> (r: usize)
        ensures
            r == self.0,
    {
        self.0
    }

    pub fn increment(&mut self)
        requires
            old(self).0 < usize::MAX,
        ensures
            final(self).0 == old(self).0 + 1,
    {
        self.0 = self.0 + 1;
    }

    pub fn reset(&mut self)
        ensures
            final(self).0 == 0,
    {
        self.0 = 0;
    }
}

} // verus!
