//! Integer grid positions and the four movement directions.

use vstd::prelude::*;

verus! {

/// A cell of the arena grid. Coordinates may be negative: enemies roam an
/// extended arena that surrounds the player's arena.
#[derive(Clone, Copy, PartialEq, Eq, Structural, Debug)]
pub struct Position {
    pub x: i32,
    pub y: i32,
}

impl Position {
    pub fn new(x: i32, y: i32) -> (r: Position)
        ensures
            r == (Position { x, y }),
    {
        Position { x, y }
    }

    pub fn x(&self) -> (r: i32)
        ensures
            r == self.x,
    {
        self.x
    }

    pub fn y(&self) -> (r: i32)
        ensures
            r == self.y,
    {
        self.y
    }

    /// Componentwise sum.
    pub fn add(self, rhs: Position) -> (r: Position)
        requires
            i32::MIN <= self.x + rhs.x <= i32::MAX,
            i32::MIN <= self.y + rhs.y <= i32::MAX,
        ensures
            r.x == self.x + rhs.x,
            r.y == self.y + rhs.y,
    {
        Position { x: self.x + rhs.x, y: self.y + rhs.y }
    }

    /// Componentwise difference.
    pub fn sub(self, rhs: Position) -> (r: Position)
        requires
            i32::MIN <= self.x - rhs.x <= i32::MAX,
            i32::MIN <= self.y - rhs.y <= i32::MAX,
        ensures
            r.x == self.x - rhs.x,
            r.y == self.y - rhs.y,
    {
        Position { x: self.x - rhs.x, y: self.y - rhs.y }
    }

    /// Componentwise scaling.
    pub fn mul(self, rhs: i32) -> (r: Position)
        requires
            i32::MIN <= self.x * rhs <= i32::MAX,
            i32::MIN <= self.y * rhs <= i32::MAX,
        ensures
            r.x == self.x * rhs,
            r.y == self.y * rhs,
    {
        Position { x: self.x.checked_mul(rhs).unwrap(), y: self.y.checked_mul(rhs).unwrap() }
    }

    /// Componentwise division, truncating toward zero as Rust's `/` does.
    pub fn div(self, rhs: i32) -> (r: Position)
        requires
            rhs >= 1,
        ensures
            r.x == div_trunc(self.x as int, rhs as int),
            r.y == div_trunc(self.y as int, rhs as int),
    {
        proof {
            lemma_div_trunc_bounds(self.x as int, rhs as int);
            lemma_div_trunc_bounds(self.y as int, rhs as int);
        }
        Position { x: self.x.checked_div(rhs).unwrap(), y: self.y.checked_div(rhs).unwrap() }
    }
}

impl Default for Position {
    fn default() -> (r: Position)
        ensures
            r == (Position { x: 0, y: 0 }),
    {
        Position { x: 0, y: 0 }
    }
}

/// Integer division truncating toward zero, for a positive divisor: the
/// meaning of Rust's `/` on the inputs this crate divides.
pub open spec fn div_trunc(a: int, d: int) -> int {
    if a >= 0 {
        a / d
    } else {
        -((-a) / d)
    }
}

/// The magnitude of a truncating quotient never exceeds the dividend's.
pub proof fn lemma_div_trunc_bounds(a: int, d: int)
    requires
        d >= 1,
    ensures
        a >= 0 ==> 0 <= div_trunc(a, d) <= a,
        a < 0 ==> a <= div_trunc(a, d) <= 0,
{
    if a >= 0 {
        assert(0 <= a / d <= a) by (nonlinear_arith)
            requires
                a >= 0 && d >= 1,
        ;
    } else {
        assert(0 <= (-a) / d <= -a) by (nonlinear_arith)
            requires
                a < 0 && d >= 1,
        ;
    }
}

/// Exact division leaves no remainder, so truncation loses nothing:
/// multiplying the quotient back recovers the dividend.
pub proof fn lemma_div_trunc_exact(a: int, d: int)
    requires
        d >= 1,
        a % d == 0,
    ensures
        div_trunc(a, d) * d == a,
{
    let q = a / d;
    vstd::arithmetic::div_mod::lemma_fundamental_div_mod(a, d);
    if a >= 0 {
        assert(div_trunc(a, d) * d == a) by (nonlinear_arith)
            requires
                a >= 0 && a == d * q && div_trunc(a, d) == q,
        ;
    } else {
        assert(-a == (-q) * d) by (nonlinear_arith)
            requires
                a == d * q,
        ;
        assert(0 <= -q) by (nonlinear_arith)
            requires
                a < 0 && d >= 1 && a == d * q,
        ;
        vstd::arithmetic::div_mod::lemma_div_by_multiple(-q, d);
        assert(div_trunc(a, d) * d == a) by (nonlinear_arith)
            requires
                (-a) / d == -q && a == d * q && div_trunc(a, d) == -((-a) / d),
        ;
    }
}

/// One of the four headings a snake can hold, in clockwise order so that a
/// turn is modular arithmetic on the numbering.
#[derive(Clone, Copy, PartialEq, Eq, Structural, Debug)]
pub enum Direction {
    UP,
    RIGHT,
    DOWN,
    LEFT,
}

impl Direction {
    pub open spec fn spec_opposite(self) -> Direction {
        match self {
            Direction::UP => Direction::DOWN,
            Direction::RIGHT => Direction::LEFT,
            Direction::DOWN => Direction::UP,
            Direction::LEFT => Direction::RIGHT,
        }
    }

    #[verifier::when_used_as_spec(spec_opposite)]
    pub fn opposite(self) -> (r: Direction)
        ensures
            r == self.spec_opposite(),
    {
        match self {
            Direction::UP => Direction::DOWN,
            Direction::RIGHT => Direction::LEFT,
            Direction::DOWN => Direction::UP,
            Direction::LEFT => Direction::RIGHT,
        }
    }

    /// The unit vector of this heading, scaled by `step`. The grid's y axis
    /// grows upward: UP adds to y.
    pub open spec fn spec_to_pos(self, step: int) -> Position {
        match self {
            Direction::UP => Position { x: 0, y: step as i32 },
            Direction::RIGHT => Position { x: step as i32, y: 0 },
            Direction::DOWN => Position { x: 0, y: (-step) as i32 },
            Direction::LEFT => Position { x: (-step) as i32, y: 0 },
        }
    }

    pub fn to_pos(&self, step: i32) -> (r: Position)
        requires
            -i32::MAX <= step,
        ensures
            r == self.spec_to_pos(step as int),
    {
        match self {
            Direction::UP => Position { x: 0, y: step },
            Direction::RIGHT => Position { x: step, y: 0 },
            Direction::DOWN => Position { x: 0, y: -step },
            Direction::LEFT => Position { x: -step, y: 0 },
        }
    }

    /// The clockwise numbering of the headings: UP 0, RIGHT 1, DOWN 2, LEFT 3.
    pub open spec fn spec_num(self) -> u8 {
        match self {
            Direction::UP => 0,
            Direction::RIGHT => 1,
            Direction::DOWN => 2,
            Direction::LEFT => 3,
        }
    }

    pub fn dir2num(dir: &Direction) -> (r: u8)
        ensures
            r == dir.spec_num(),
    {
        match dir {
            Direction::UP => 0,
            Direction::RIGHT => 1,
            Direction::DOWN => 2,
            Direction::LEFT => 3,
        }
    }

    /// The heading numbered `num` modulo four.
    pub open spec fn spec_from_num(num: int) -> Direction {
        if num % 4 == 0 {
            Direction::UP
        } else if num % 4 == 1 {
            Direction::RIGHT
        } else if num % 4 == 2 {
            Direction::DOWN
        } else {
            Direction::LEFT
        }
    }

    pub fn num2dir(num: u8) -> (r: Direction)
        ensures
            r == Direction::spec_from_num(num as int),
    {
        match num % 4 {
            0 => Direction::UP,
            1 => Direction::RIGHT,
            2 => Direction::DOWN,
            3 => Direction::LEFT,
            _ => Direction::UP,
        }
    }

    pub fn get_num(&self) -> (r: u8)
        ensures
            r == self.spec_num(),
    {
        Direction::dir2num(self)
    }

    /// No heading is its own opposite, so keeping the old heading never
    /// violates the no-reversal rule.
    pub proof fn lemma_opposite_differs(self)
        ensures
            self.spec_opposite() != self,
    {
    }

    /// Rotating a heading by a relative offset other than two (the reversal
    /// offset) never yields the opposite heading.
    pub proof fn lemma_rotation_avoids_reversal(self, off: int)
        requires
            0 <= off < 4,
            off != 2,
        ensures
            Direction::spec_from_num(self.spec_num() + off) != self.spec_opposite(),
    {
    }
}

} // verus!
