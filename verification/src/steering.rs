//! The enemy steering heuristic: a weighted random choice of the next
//! heading, biased toward the food centroid, with reversal structurally
//! impossible because its base weight is zero.

use vstd::prelude::*;

use crate::geometry::{Direction, Position};
use crate::rng::{index_weights, weight_total, weighted_index_new, weighted_index_sample};

verus! {

/// Largest coordinate magnitude the steering arithmetic is checked for.
pub const STEER_COORD_LIMIT: i32 = 0x1000_0000;

/// The fixed base weight of each relative turn: straight ahead 60, right
/// turn 20, reversal 0, left turn 20.
pub open spec fn base_weight(off: int) -> int {
    if off == 0 {
        60
    } else if off == 1 {
        20
    } else if off == 2 {
        0
    } else {
        20
    }
}

/// The pull of the centroid in the absolute direction numbered `k`
/// (0 up, 1 right, 2 down, 3 left), for `diff` = centroid - head: the
/// matching component of `diff` when it points that way, else zero.
pub open spec fn pull(diff: Position, k: int) -> int {
    if k == 0 {
        if diff.y > 0 {
            diff.y as int
        } else {
            0
        }
    } else if k == 1 {
        if diff.x > 0 {
            diff.x as int
        } else {
            0
        }
    } else if k == 2 {
        if diff.y < 0 {
            -(diff.y as int)
        } else {
            0
        }
    } else {
        if diff.x < 0 {
            -(diff.x as int)
        } else {
            0
        }
    }
}

/// The sampling weight of turning by relative offset `off` from heading
/// `dir`: zero where the base weight is zero (reversal), else the base
/// weight plus the rotated centroid pull.
pub open spec fn steer_weight(diff: Position, dir: Direction, off: int) -> int {
    if base_weight(off) == 0 {
        0
    } else {
        pull(diff, (off + 4 - dir.spec_num()) % 4) + base_weight(off)
    }
}

/// The four sampling weights, indexed by relative offset.
pub open spec fn steer_table(diff: Position, dir: Direction) -> Seq<int> {
    Seq::new(4, |off: int| steer_weight(diff, dir, off))
}

/// Law: every steering weight is non-negative and the table's total weight is
/// positive for every centroid offset and heading - also when the centroid
/// equals the head and all pulls vanish - so weighted sampling never fails;
/// and the total stays within the weight type's range for in-range offsets.
pub proof fn lemma_steer_total_positive(diff: Position, dir: Direction)
    requires
        -STEER_COORD_LIMIT * 2 <= diff.x <= STEER_COORD_LIMIT * 2,
        -STEER_COORD_LIMIT * 2 <= diff.y <= STEER_COORD_LIMIT * 2,
    ensures
        forall|off: int| 0 <= off < 4 ==> steer_weight(diff, dir, off) >= 0,
        weight_total(steer_table(diff, dir)) > 0,
        weight_total(steer_table(diff, dir)) <= i32::MAX,
{
    let t = steer_table(diff, dir);
    let t3 = t.drop_last();
    let t2 = t3.drop_last();
    let t1 = t2.drop_last();
    let t0 = t1.drop_last();
    assert(t0.len() == 0);
    assert(weight_total(t0) == 0);
    assert(weight_total(t1) == weight_total(t0) + t1.last());
    assert(weight_total(t2) == weight_total(t1) + t2.last());
    assert(weight_total(t3) == weight_total(t2) + t3.last());
    assert(weight_total(t) == weight_total(t3) + t.last());
    assert(weight_total(t) == t[0] + t[1] + t[2] + t[3]);
    let n = dir.spec_num() as int;
    assert(n == 0 || n == 1 || n == 2 || n == 3);
}

/// Law: the reversal offset always has weight exactly zero, for every
/// centroid offset and heading.
pub proof fn lemma_reversal_weight_zero(diff: Position, dir: Direction)
    ensures
        steer_weight(diff, dir, 2) == 0,
{
}

/// The pull toward the centroid in the absolute direction numbered `k`.
fn pull_of(diff: Position, k: usize) -> (r: i32)
    requires
        k < 4,
        -STEER_COORD_LIMIT * 2 <= diff.x <= STEER_COORD_LIMIT * 2,
        -STEER_COORD_LIMIT * 2 <= diff.y <= STEER_COORD_LIMIT * 2,
    ensures
        r == pull(diff, k as int),
{
    if k == 0 {
        if diff.y > 0 {
            diff.y
        } else {
            0
        }
    } else if k == 1 {
        if diff.x > 0 {
            diff.x
        } else {
            0
        }
    } else if k == 2 {
        if diff.y < 0 {
            -diff.y
        } else {
            0
        }
    } else {
        if diff.x < 0 {
            -diff.x
        } else {
            0
        }
    }
}

/// Builds the four sampling weights for an enemy at heading `dir` whose head
/// is `diff` away from the food centroid.
fn steer_weights(diff: Position, dir: Direction) -> (w: Vec<i32>)
    requires
        -STEER_COORD_LIMIT * 2 <= diff.x <= STEER_COORD_LIMIT * 2,
        -STEER_COORD_LIMIT * 2 <= diff.y <= STEER_COORD_LIMIT * 2,
    ensures
        w@.len() == 4,
        forall|off: int| 0 <= off < 4 ==> w@[off] == steer_weight(diff, dir, off),
{
    let n = Direction::dir2num(&dir) as usize;
    let mut w: Vec<i32> = Vec::new();
    w.push(pull_of(diff, (4 - n) % 4) + 60);
    w.push(pull_of(diff, (5 - n) % 4) + 20);
    w.push(0);
    w.push(pull_of(diff, (7 - n) % 4) + 20);
    w
}

/// Picks the next heading for an enemy whose head is at `head` while the food
/// centroid sits at `center`: a weighted draw over the four relative turns,
/// never the reversal.
pub fn choose_direction(head: Position, center: Position, dir: Direction) -> (d: Direction)
    requires
        -STEER_COORD_LIMIT <= head.x <= STEER_COORD_LIMIT,
        -STEER_COORD_LIMIT <= head.y <= STEER_COORD_LIMIT,
        -STEER_COORD_LIMIT <= center.x <= STEER_COORD_LIMIT,
        -STEER_COORD_LIMIT <= center.y <= STEER_COORD_LIMIT,
    ensures
        ({
            let diff = Position { x: (center.x - head.x) as i32, y: (center.y - head.y) as i32 };
            exists|off: int|
                0 <= off < 4 && #[trigger] steer_weight(diff, dir, off) > 0 && d
                    == Direction::spec_from_num(dir.spec_num() + off)
        }),
        d != dir.spec_opposite(),
{
    let diff = center.sub(head);
    let w = steer_weights(diff, dir);
    proof {
        lemma_steer_total_positive(diff, dir);
        assert(w@.map_values(|x: i32| x as int) =~= steer_table(diff, dir));
    }
    let dist = weighted_index_new(&w);
    let off = weighted_index_sample(&dist);
    proof {
        assert(index_weights(dist)[off as int] == steer_weight(diff, dir, off as int));
        assert(off != 2) by {
            lemma_reversal_weight_zero(diff, dir);
        }
        dir.lemma_rotation_avoids_reversal(off as int);
    }
    let n = Direction::dir2num(&dir);
    let nd = Direction::num2dir(n + off as u8);
    proof {
        assert(diff == (Position {
            x: (center.x - head.x) as i32,
            y: (center.y - head.y) as i32,
        }));
        assert(0 <= off as int && (off as int) < 4 && steer_weight(diff, dir, off as int) > 0 && nd
            == Direction::spec_from_num(dir.spec_num() + off as int));
    }
    nd
}

} // verus!
