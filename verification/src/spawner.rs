use crate::collision::{distance_within, in_bounds, Pos, COORD_LIMIT};
use crate::rng::rand_range;
use vstd::prelude::*;

verus! {

/// The rectangle hazards and pickups spawn in, thousandths of a pixel:
/// x in [10, 590) pixels, y in [100, 500) pixels.
pub const SPAWN_X_MIN: u64 = 10000;

pub const SPAWN_X_MAX: u64 = 590000;

pub const SPAWN_Y_MIN: u64 = 100000;

pub const SPAWN_Y_MAX: u64 = 500000;

/// How often one spawn slot redraws a position that fell too close to the
/// player before accepting the last draw anyway, so that a spawn tick
/// always makes progress.
pub const SPAWN_RETRY_LIMIT: u32 = 20;

pub open spec fn in_spawn_rect(p: Pos) -> bool {
    &&& SPAWN_X_MIN <= p.x < SPAWN_X_MAX
    &&& SPAWN_Y_MIN <= p.y < SPAWN_Y_MAX
}

/// Draws a spawn position uniformly from the spawn rectangle, redrawing
/// while it lands within `exclusion_reach` of the player, up to the retry
/// budget; the last draw is accepted even when it is still too close, so
/// the sampling always terminates.
pub fn sample_spawn_position(
    player: Pos,
    exclusion_reach: i64,
    rng: &mut rand::rngs::ThreadRng,
) -> (p: Pos)
    requires
        in_bounds(player),
        0 <= exclusion_reach <= 2 * COORD_LIMIT,
    ensures
        in_spawn_rect(p),
        in_bounds(p),
{
    let mut x = rand_range(rng, SPAWN_X_MIN, SPAWN_X_MAX) as i64;
    let mut y = rand_range(rng, SPAWN_Y_MIN, SPAWN_Y_MAX) as i64;
    let mut tries: u32 = 0;
    while tries < SPAWN_RETRY_LIMIT
        invariant
            in_bounds(player),
            0 <= exclusion_reach <= 2 * COORD_LIMIT,
            SPAWN_X_MIN <= x < SPAWN_X_MAX,
            SPAWN_Y_MIN <= y < SPAWN_Y_MAX,
        decreases SPAWN_RETRY_LIMIT - tries,
    {
        let candidate = Pos { x, y };
        if !distance_within(player, candidate, exclusion_reach) {
            return candidate;
        }
        x = rand_range(rng, SPAWN_X_MIN, SPAWN_X_MAX) as i64;
        y = rand_range(rng, SPAWN_Y_MIN, SPAWN_Y_MAX) as i64;
        tries += 1;
    }
    Pos { x, y }
}

} // verus!
