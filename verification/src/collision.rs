use crate::abilities::no_dups;
use vstd::prelude::*;

verus! {

/// Coordinates are kept within this bound so that squared distances fit in
/// `i64`.  The levels use thousandths of a pixel, so the bound is far wider
/// than any arena.
pub const COORD_LIMIT: i64 = 1000000000;

/// A point in the arena plane, in whatever length unit the caller works in
/// (the levels use thousandths of a pixel).
#[derive(Clone, Copy, PartialEq, Eq, Structural, Debug)]
pub struct Pos {
    pub x: i64,
    pub y: i64,
}

pub open spec fn in_bounds(p: Pos) -> bool {
    &&& -COORD_LIMIT <= p.x <= COORD_LIMIT
    &&& -COORD_LIMIT <= p.y <= COORD_LIMIT
}

/// Squared Euclidean distance between two points.
pub open spec fn dist_sq(a: Pos, b: Pos) -> int {
    (b.x - a.x) * (b.x - a.x) + (b.y - a.y) * (b.y - a.y)
}

/// Two entities collide when the distance between their centres is at most
/// `reach` (the sum of their half-extents); equivalently, the squared
/// distance is at most `reach` squared.
pub open spec fn collides(a: Pos, b: Pos, reach: int) -> bool {
    dist_sq(a, b) <= reach * reach
}

/// Whether the distance between `a` and `b` is at most `reach`.
pub fn distance_within(a: Pos, b: Pos, reach: i64) -> (r: bool)
    requires
        in_bounds(a),
        in_bounds(b),
        0 <= reach <= 2 * COORD_LIMIT,
    ensures
        r == collides(a, b, reach as int),
{
    let dx = b.x - a.x;
    let dy = b.y - a.y;
    proof {
        assert(dx * dx <= 4000000000000000000 && dx * dx >= 0) by (nonlinear_arith)
            requires
                -2 * COORD_LIMIT <= dx <= 2 * COORD_LIMIT,
        ;
        assert(dy * dy <= 4000000000000000000 && dy * dy >= 0) by (nonlinear_arith)
            requires
                -2 * COORD_LIMIT <= dy <= 2 * COORD_LIMIT,
        ;
        assert(reach * reach <= 4000000000000000000 && reach * reach >= 0) by (nonlinear_arith)
            requires
                0 <= reach <= 2 * COORD_LIMIT,
        ;
    }
    dx * dx + dy * dy <= reach * reach
}

/// How many positions in `s` collide with the subject.
pub open spec fn num_colliding(s: Seq<Pos>, subject: Pos, reach: int) -> int
    decreases s.len(),
{
    if s.len() == 0 {
        0
    } else {
        num_colliding(s.drop_last(), subject, reach) + (if collides(subject, s.last(), reach) {
            1int
        } else {
            0int
        })
    }
}

/// The proximity sweep behind every level's collision handling: the indices
/// of exactly those entities whose position is within `reach` of the
/// subject, each once, for the caller's outcome handling (deleting
/// entities, changing health or score, sound cues).
pub fn handle_collisions(positions: &Vec<Pos>, subject: Pos, reach: i64) -> (hits: Vec<usize>)
    requires
        in_bounds(subject),
        0 <= reach <= 2 * COORD_LIMIT,
        forall|i: int| 0 <= i < positions@.len() ==> in_bounds(#[trigger] positions@[i]),
    ensures
        forall|v: usize|
            hits@.contains(v) <==> (v < positions@.len() && collides(
                subject,
                positions@[v as int],
                reach as int,
            )),
        no_dups(hits@),
        hits@.len() == num_colliding(positions@, subject, reach as int),
{
    let mut hits: Vec<usize> = Vec::new();
    let mut j: usize = 0;
    while j < positions.len()
        invariant
            j <= positions@.len(),
            in_bounds(subject),
            0 <= reach <= 2 * COORD_LIMIT,
            forall|i: int| 0 <= i < positions@.len() ==> in_bounds(#[trigger] positions@[i]),
            forall|v: usize|
                hits@.contains(v) <==> (v < j && collides(
                    subject,
                    positions@[v as int],
                    reach as int,
                )),
            no_dups(hits@),
            hits@.len() == num_colliding(positions@.take(j as int), subject, reach as int),
        decreases positions@.len() - j,
    {
        let ghost hits0 = hits@;
        if distance_within(subject, positions[j], reach) {
            hits.push(j);
            proof {
                assert forall|v: usize| hits@.contains(v) implies (v < j + 1 && collides(
                    subject,
                    positions@[v as int],
                    reach as int,
                )) by {
                    let q = choose|q: int| 0 <= q < hits@.len() && hits@[q] == v;
                    if q < hits0.len() {
                        assert(hits0[q] == v);
                        assert(hits0.contains(v));
                    }
                }
                assert forall|v: usize|
                    (v < j + 1 && collides(subject, positions@[v as int], reach as int))
                    implies hits@.contains(v) by {
                    if v < j {
                        assert(hits0.contains(v));
                        let q = choose|q: int| 0 <= q < hits0.len() && hits0[q] == v;
                        assert(hits@[q] == v);
                    } else {
                        assert(hits@.last() == v);
                    }
                }
                assert(no_dups(hits@)) by {
                    assert forall|a: int, b: int| 0 <= a < b < hits@.len() implies hits@[a]
                        != hits@[b] by {
                        if b == hits@.len() - 1 {
                            assert(hits0.contains(hits0[a]));
                        }
                    }
                }
            }
        }
        proof {
            assert(positions@.take(j + 1).drop_last() =~= positions@.take(j as int));
            assert(positions@.take(j + 1).last() == positions@[j as int]);
        }
        j += 1;
    }
    proof {
        assert(positions@.take(positions@.len() as int) =~= positions@);
    }
    hits
}

} // verus!
