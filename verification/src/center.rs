//! The food centroid tracker: an incrementally maintained running average of
//! the active food positions, kept with truncating integer division because
//! the truncation is observable in enemy steering.

use vstd::prelude::*;

use crate::geometry::{div_trunc, lemma_div_trunc_bounds, lemma_div_trunc_exact, Position};

verus! {

/// Running centroid of the live food items: a count and the current average
/// position. When the count returns to zero the position keeps its last
/// (stale) value rather than being reset.
#[derive(Clone, Copy, PartialEq, Eq, Structural, Debug)]
pub struct FoodCenter {
    pub cnt: i32,
    pub pos: Position,
}

impl Default for FoodCenter {
    fn default() -> (r: FoodCenter)
        ensures
            r.cnt == 0,
            r.pos == (Position { x: 0, y: 0 }),
    {
        FoodCenter { cnt: 0, pos: Position::default() }
    }
}

impl FoodCenter {
    /// The count never goes negative.
    pub open spec fn inv(self) -> bool {
        self.cnt >= 0
    }

    /// The intermediate products of `add`'s update fit in the machine
    /// integers.
    pub open spec fn can_add(self, pos: Position) -> bool {
        &&& self.cnt < i32::MAX
        &&& i32::MIN <= self.pos.x * self.cnt <= i32::MAX
        &&& i32::MIN <= self.pos.y * self.cnt <= i32::MAX
        &&& i32::MIN <= self.pos.x * self.cnt + pos.x <= i32::MAX
        &&& i32::MIN <= self.pos.y * self.cnt + pos.y <= i32::MAX
    }

    /// The tracker after `add(pos)`: count up one, centroid re-averaged with
    /// truncating division by the new count.
    pub open spec fn spec_add(self, pos: Position) -> FoodCenter {
        FoodCenter {
            cnt: (self.cnt + 1) as i32,
            pos: Position {
                x: div_trunc(self.pos.x * self.cnt + pos.x, self.cnt + 1) as i32,
                y: div_trunc(self.pos.y * self.cnt + pos.y, self.cnt + 1) as i32,
            },
        }
    }

    /// The intermediate products of `remove`'s update fit in the machine
    /// integers.
    pub open spec fn can_remove(self, pos: Position) -> bool {
        self.cnt >= 2 ==> {
            &&& i32::MIN <= self.pos.x * self.cnt <= i32::MAX
            &&& i32::MIN <= self.pos.y * self.cnt <= i32::MAX
            &&& i32::MIN <= self.pos.x * self.cnt - pos.x <= i32::MAX
            &&& i32::MIN <= self.pos.y * self.cnt - pos.y <= i32::MAX
        }
    }

    /// The tracker after `remove(pos)`: count down one; at zero the count is
    /// clamped and the centroid left stale, otherwise the add is inverted
    /// with the same truncating division.
    pub open spec fn spec_remove(self, pos: Position) -> FoodCenter {
        if self.cnt <= 1 {
            FoodCenter { cnt: 0, pos: self.pos }
        } else {
            FoodCenter {
                cnt: (self.cnt - 1) as i32,
                pos: Position {
                    x: div_trunc(self.pos.x * self.cnt - pos.x, self.cnt - 1) as i32,
                    y: div_trunc(self.pos.y * self.cnt - pos.y, self.cnt - 1) as i32,
                },
            }
        }
    }

    pub fn get_pos(&self) -> (r: Position)
        ensures
            r == self.pos,
    {
        self.pos
    }

    /// Records one food item at `pos` into the running average.
    pub fn add(&mut self, pos: &Position)
        requires
            old(self).inv(),
            old(self).can_add(*pos),
        ensures
            *final(self) == old(self).spec_add(*pos),
            final(self).inv(),
    {
        proof {
            lemma_div_trunc_bounds(
                self.pos.x * self.cnt + pos.x,
                self.cnt + 1,
            );
            lemma_div_trunc_bounds(
                self.pos.y * self.cnt + pos.y,
                self.cnt + 1,
            );
        }
        let old_cnt = self.cnt;
        self.cnt = self.cnt + 1;
        self.pos = self.pos.mul(old_cnt).add(*pos).div(self.cnt);
    }

    /// Removes one food item at `pos` from the running average; with no item
    /// left, clamps the count and leaves the centroid stale.
    pub fn remove(&mut self, pos: &Position)
        requires
            old(self).inv(),
            old(self).can_remove(*pos),
        ensures
            *final(self) == old(self).spec_remove(*pos),
            final(self).inv(),
    {
        if self.cnt <= 1 {
            self.cnt = 0;
            return ;
        }
        proof {
            lemma_div_trunc_bounds(
                self.pos.x * self.cnt - pos.x,
                self.cnt - 1,
            );
            lemma_div_trunc_bounds(
                self.pos.y * self.cnt - pos.y,
                self.cnt - 1,
            );
        }
        let old_cnt = self.cnt;
        self.cnt = self.cnt - 1;
        self.pos = self.pos.mul(old_cnt).sub(*pos).div(self.cnt);
    }
}

/// Dividing an exact multiple by its factor recovers the other factor, also
/// under truncating division.
proof fn lemma_div_trunc_mul_cancel(b: int, d: int)
    requires
        d >= 1,
    ensures
        div_trunc(b * d, d) == b,
{
    assert((b * d) % d == 0) by (nonlinear_arith)
        requires
            d >= 1,
    ;
    lemma_div_trunc_exact(b * d, d);
    assert(div_trunc(b * d, d) * d == b * d);
    assert(div_trunc(b * d, d) == b) by (nonlinear_arith)
        requires
            d >= 1 && div_trunc(b * d, d) * d == b * d,
    ;
}

/// Law: adding a position and then removing the same position restores the
/// prior centroid exactly, whenever the add's truncating division loses
/// nothing and at least one item was already tracked (from an empty tracker
/// the remove instead clamps to the stale-on-empty state).
pub proof fn lemma_add_remove_exact(c: FoodCenter, pos: Position)
    requires
        c.inv(),
        c.cnt >= 1,
        c.can_add(pos),
        (c.pos.x * c.cnt + pos.x) % (c.cnt + 1) == 0,
        (c.pos.y * c.cnt + pos.y) % (c.cnt + 1) == 0,
    ensures
        c.spec_add(pos).can_remove(pos),
        c.spec_add(pos).spec_remove(pos) == c,
{
    let n = c.cnt as int;
    let sx = c.pos.x * n + pos.x;
    let sy = c.pos.y * n + pos.y;
    let c1 = c.spec_add(pos);
    lemma_div_trunc_bounds(sx, n + 1);
    lemma_div_trunc_bounds(sy, n + 1);
    lemma_div_trunc_exact(sx, n + 1);
    lemma_div_trunc_exact(sy, n + 1);
    assert(c1.pos.x * c1.cnt == sx);
    assert(c1.pos.y * c1.cnt == sy);
    assert(c1.pos.x * c1.cnt - pos.x == c.pos.x * n);
    assert(c1.pos.y * c1.cnt - pos.y == c.pos.y * n);
    lemma_div_trunc_mul_cancel(c.pos.x as int, n);
    lemma_div_trunc_mul_cancel(c.pos.y as int, n);
}

} // verus!
