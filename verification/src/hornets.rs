use crate::collision::{collides, in_bounds, Pos, COORD_LIMIT};
use crate::high_scores::CurrentLevelScoreResource;
use crate::rng::rand_range;
use crate::spawner::in_spawn_rect;
use vstd::prelude::*;

verus! {

pub const BEE_SPRITE_HEIGHT_AND_WIDTH: i64 = 40000;

pub const SWATTER_HEIGHT_AND_WIDTH: i64 = 240000;

pub const HIVE_HEIGHT_AND_WIDTH: i64 = 100000;

/// Bees within this reach of a placed hive trap are pulled to it.
pub const HIVE_PULL_REACH: i64 = 200000;

/// Bees spawn on frames that are whole multiples of this interval (half a
/// second at the fixed frame rate).
pub const BEE_SPAWN_INTERVAL_FRAMES: u64 = 30;

/// How long the level runs, in milliseconds (two and a half minutes).
pub const MAX_LEVEL_MS: u64 = 150000;

/// Frame numbers stay below this bound, which keeps every expiration-frame
/// sum within `u64`.
pub const FRAME_LIMIT: u64 = 0x4000000000000000;

/// A bee buzzing about the arena.
#[derive(Clone, Copy, PartialEq, Eq, Structural, Debug)]
pub struct Bee {
    pub pos: Pos,
    /// The frame when the bee should be removed.
    pub expiration_frame: u64,
}

impl Bee {
    pub open spec fn wf(self) -> bool {
        &&& in_bounds(self.pos)
        &&& self.expiration_frame < FRAME_LIMIT
    }
}

/// One swing of the fly swatter at `swat`: every bee within half the
/// swatter's width is squashed, and the score grows by one per squashed
/// bee (saturating).
pub fn swat_bees(bees: &mut Vec<Bee>, swat: Pos, score: &mut CurrentLevelScoreResource)
    requires
        in_bounds(swat),
        forall|k: int| 0 <= k < old(bees)@.len() ==> (#[trigger] old(bees)@[k]).wf(),
    ensures
        final(bees)@ == old(bees)@.filter(
            |b: Bee| !collides(swat, b.pos, SWATTER_HEIGHT_AND_WIDTH / 2),
        ),
        final(score).score == (if old(score).score + (old(bees)@.len() - final(bees)@.len())
            > u64::MAX {
            u64::MAX as int
        } else {
            old(score).score + (old(bees)@.len() - final(bees)@.len())
        }),
        forall|k: int| 0 <= k < final(bees)@.len() ==> (#[trigger] final(bees)@[k]).wf(),
{
    let ghost b0 = bees@;
    let ghost keep = |b: Bee| !collides(swat, b.pos, SWATTER_HEIGHT_AND_WIDTH / 2);
    let mut out: Vec<Bee> = Vec::new();
    let mut squashed: u64 = 0;
    let mut j: usize = 0;
    while j < bees.len()
        invariant
            bees@ == b0,
            j <= b0.len(),
            in_bounds(swat),
            forall|k: int| 0 <= k < b0.len() ==> (#[trigger] b0[k]).wf(),
            keep == (|b: Bee| !collides(swat, b.pos, SWATTER_HEIGHT_AND_WIDTH / 2)),
            out@ == b0.subrange(0, j as int).filter(keep),
            forall|k: int| 0 <= k < out@.len() ==> (#[trigger] out@[k]).wf(),
            squashed == j - out@.len(),
        decreases b0.len() - j,
    {
        let b = bees[j];
        if crate::collision::distance_within(swat, b.pos, SWATTER_HEIGHT_AND_WIDTH / 2) {
            squashed = squashed + 1;
        } else {
            out.push(b);
        }
        proof {
            let pre = b0.subrange(0, j as int);
            assert(b0.subrange(0, j + 1) =~= pre.push(b));
            pre.lemma_filter_push(b, keep);
        }
        j += 1;
    }
    proof {
        assert(b0.subrange(0, b0.len() as int) =~= b0);
    }
    *bees = out;
    score.score = score.score.saturating_add(squashed);
}

/// The bug spray: every bee dies at once, and the score grows by one per
/// bee (saturating).
pub fn spray_bees(bees: &mut Vec<Bee>, score: &mut CurrentLevelScoreResource)
    ensures
        final(bees)@.len() == 0,
        final(score).score == (if old(score).score + old(bees)@.len() > u64::MAX {
            u64::MAX as int
        } else {
            old(score).score + old(bees)@.len()
        }),
{
    let n = bees.len();
    bees.clear();
    score.score = score.score.saturating_add(n as u64);
}

/// Tapping a bee squashes exactly that bee and scores one point
/// (saturating).
pub fn tap_bee(bees: &mut Vec<Bee>, index: usize, score: &mut CurrentLevelScoreResource)
    requires
        index < old(bees)@.len(),
    ensures
        final(bees)@ == old(bees)@.remove(index as int),
        final(score).score == (if old(score).score + 1 > u64::MAX {
            u64::MAX as int
        } else {
            old(score).score + 1
        }),
{
    let _ = bees.remove(index);
    score.score = score.score.saturating_add(1);
}

/// One hive-trap snap at `hive`: every bee within the pull reach is moved
/// next to the hive, up to ten pixels off in each axis, and lives on for
/// sixty to just under one hundred and twenty more frames; the other bees
/// are untouched.
pub fn hive_pull(bees: &mut Vec<Bee>, hive: Pos, rng: &mut rand::rngs::ThreadRng)
    requires
        in_bounds(hive),
        -COORD_LIMIT + 10000 <= hive.x <= COORD_LIMIT - 10000,
        -COORD_LIMIT + 10000 <= hive.y <= COORD_LIMIT - 10000,
        forall|k: int| 0 <= k < old(bees)@.len() ==> (#[trigger] old(bees)@[k]).wf(),
    ensures
        final(bees)@.len() == old(bees)@.len(),
        forall|k: int|
            0 <= k < old(bees)@.len() && !collides(
                hive,
                (#[trigger] old(bees)@[k]).pos,
                HIVE_PULL_REACH as int,
            ) ==> final(bees)@[k] == old(bees)@[k],
        forall|k: int|
            0 <= k < old(bees)@.len() && collides(
                hive,
                (#[trigger] old(bees)@[k]).pos,
                HIVE_PULL_REACH as int,
            ) ==> {
                let f = final(bees)@[k];
                &&& hive.x - 10000 <= f.pos.x < hive.x + 10000
                &&& hive.y - 10000 <= f.pos.y < hive.y + 10000
                &&& old(bees)@[k].expiration_frame + 60 <= f.expiration_frame < old(
                    bees,
                )@[k].expiration_frame + 120
            },
        forall|k: int| 0 <= k < final(bees)@.len() ==> in_bounds((#[trigger] final(bees)@[k]).pos),
{
    let ghost b0 = bees@;
    let mut j: usize = 0;
    while j < bees.len()
        invariant
            j <= b0.len(),
            bees@.len() == b0.len(),
            in_bounds(hive),
            -COORD_LIMIT + 10000 <= hive.x <= COORD_LIMIT - 10000,
            -COORD_LIMIT + 10000 <= hive.y <= COORD_LIMIT - 10000,
            forall|k: int| 0 <= k < b0.len() ==> (#[trigger] b0[k]).wf(),
            forall|k: int| j <= k < b0.len() ==> bees@[k] == b0[k],
            forall|k: int|
                0 <= k < j && !collides(hive, (#[trigger] b0[k]).pos, HIVE_PULL_REACH as int)
                    ==> bees@[k] == b0[k],
            forall|k: int|
                0 <= k < j && collides(hive, (#[trigger] b0[k]).pos, HIVE_PULL_REACH as int) ==> {
                    let f = bees@[k];
                    &&& hive.x - 10000 <= f.pos.x < hive.x + 10000
                    &&& hive.y - 10000 <= f.pos.y < hive.y + 10000
                    &&& b0[k].expiration_frame + 60 <= f.expiration_frame < b0[k].expiration_frame
                        + 120
                },
            forall|k: int| 0 <= k < bees@.len() ==> in_bounds((#[trigger] bees@[k]).pos),
        decreases b0.len() - j,
    {
        let b = bees[j];
        proof {
            assert(bees@[j as int] == b0[j as int]);
            assert(b0[j as int].wf());
        }
        if crate::collision::distance_within(hive, b.pos, HIVE_PULL_REACH) {
            let dx = rand_range(rng, 0, 20000) as i64 - 10000;
            let dy = rand_range(rng, 0, 20000) as i64 - 10000;
            let extension = rand_range(rng, 60, 120);
            let moved = Bee {
                pos: Pos { x: hive.x + dx, y: hive.y + dy },
                expiration_frame: b.expiration_frame + extension,
            };
            bees[j] = moved;
        }
        j += 1;
    }
}

/// Frame-gated bee spawning: on frames that are whole multiples of the
/// spawn interval, one to five bees appear at random positions in the
/// spawn rectangle, each living until a frame between fifty and just under
/// one hundred and eighty frames ahead.  On any other frame nothing
/// changes.
pub fn spawn_bees(bees: &mut Vec<Bee>, frame_number: u64, rng: &mut rand::rngs::ThreadRng)
    requires
        frame_number < FRAME_LIMIT - 200,
        old(bees)@.len() + 6 <= usize::MAX,
    ensures
        frame_number % BEE_SPAWN_INTERVAL_FRAMES != 0 ==> *final(bees) == *old(bees),
        frame_number % BEE_SPAWN_INTERVAL_FRAMES == 0 ==> ({
            let added = final(bees)@.len() - old(bees)@.len();
            &&& final(bees)@.subrange(0, old(bees)@.len() as int) == old(bees)@
            &&& 1 <= added < 6
            &&& forall|k: int|
                old(bees)@.len() <= k < final(bees)@.len() ==> (in_spawn_rect(
                    (#[trigger] final(bees)@[k]).pos,
                ) && frame_number + 50 <= final(bees)@[k].expiration_frame < frame_number + 180)
        }),
{
    if frame_number % BEE_SPAWN_INTERVAL_FRAMES != 0 {
        return ;
    }
    let count = rand_range(rng, 1, 6);
    let ghost b0 = bees@;
    let mut n: u64 = 0;
    while n < count
        invariant
            1 <= count < 6,
            n <= count,
            frame_number < FRAME_LIMIT - 200,
            b0.len() + 6 <= usize::MAX,
            bees@.len() == b0.len() + n,
            bees@.subrange(0, b0.len() as int) == b0,
            forall|k: int|
                b0.len() <= k < bees@.len() ==> (in_spawn_rect((#[trigger] bees@[k]).pos)
                    && frame_number + 50 <= bees@[k].expiration_frame < frame_number + 180),
        decreases count - n,
    {
        let ghost pre = bees@;
        let x = rand_range(rng, crate::spawner::SPAWN_X_MIN, crate::spawner::SPAWN_X_MAX) as i64;
        let y = rand_range(rng, crate::spawner::SPAWN_Y_MIN, crate::spawner::SPAWN_Y_MAX) as i64;
        let life = rand_range(rng, 50, 180);
        bees.push(Bee { pos: Pos { x, y }, expiration_frame: frame_number + life });
        n = n + 1;
        proof {
            assert(bees@.subrange(0, b0.len() as int) =~= pre.subrange(0, b0.len() as int));
        }
    }
}

/// Deletes the bees whose expiration frame has come: a bee stays exactly
/// while the current frame is before its expiration frame.
pub fn expire_bees(bees: &mut Vec<Bee>, frame_number: u64)
    ensures
        final(bees)@ == old(bees)@.filter(|b: Bee| frame_number < b.expiration_frame),
{
    let ghost b0 = bees@;
    let ghost keep = |b: Bee| frame_number < b.expiration_frame;
    let mut out: Vec<Bee> = Vec::new();
    let mut j: usize = 0;
    while j < bees.len()
        invariant
            bees@ == b0,
            j <= b0.len(),
            keep == (|b: Bee| frame_number < b.expiration_frame),
            out@ == b0.subrange(0, j as int).filter(keep),
        decreases b0.len() - j,
    {
        let b = bees[j];
        if frame_number < b.expiration_frame {
            out.push(b);
        }
        proof {
            let pre = b0.subrange(0, j as int);
            assert(b0.subrange(0, j + 1) =~= pre.push(b));
            pre.lemma_filter_push(b, keep);
        }
        j += 1;
    }
    proof {
        assert(b0.subrange(0, b0.len() as int) =~= b0);
    }
    *bees = out;
}

/// The hornets level's ability roster: a one-shot bug spray (its index is
/// removed by the level system once the effect has run), a fly swatter
/// and a hive trap, with their charge times and durations in seconds, all
/// starting fully charged.
pub fn hornets_ability_roster() -> (r: Vec<crate::abilities::Ability>)
    ensures
        r@.len() == 3,
        r@[0].info == (crate::abilities::AbilityInfo {
            seconds_to_charge: 20,
            duration: None,
            ability_type: crate::abilities::AbilityType::BugSpray,
            max_uses: None,
        }),
        r@[1].info == (crate::abilities::AbilityInfo {
            seconds_to_charge: 15,
            duration: Some(4u32),
            ability_type: crate::abilities::AbilityType::FlySwatter,
            max_uses: None,
        }),
        r@[2].info == (crate::abilities::AbilityInfo {
            seconds_to_charge: 7,
            duration: Some(4u32),
            ability_type: crate::abilities::AbilityType::HiveTrap,
            max_uses: None,
        }),
        forall|i: int| 0 <= i < 3 ==> (#[trigger] r@[i]).wf(false),
        forall|i: int|
            0 <= i < 3 ==> (#[trigger] r@[i]).current_state.progress_ms
                == r@[i].info.charge_ms_spec() && r@[i].current_state.uses == 0,
{
    let spray_info = crate::abilities::AbilityInfo {
        seconds_to_charge: 20,
        duration: None,
        ability_type: crate::abilities::AbilityType::BugSpray,
        max_uses: None,
    };
    let swatter_info = crate::abilities::AbilityInfo {
        seconds_to_charge: 15,
        duration: Some(4u32),
        ability_type: crate::abilities::AbilityType::FlySwatter,
        max_uses: None,
    };
    let hive_info = crate::abilities::AbilityInfo {
        seconds_to_charge: 7,
        duration: Some(4u32),
        ability_type: crate::abilities::AbilityType::HiveTrap,
        max_uses: None,
    };
    let mut r: Vec<crate::abilities::Ability> = Vec::new();
    let s0 = crate::abilities::AbilityState::default(&spray_info);
    r.push(crate::abilities::Ability { info: spray_info, current_state: s0 });
    let s1 = crate::abilities::AbilityState::default(&swatter_info);
    r.push(crate::abilities::Ability { info: swatter_info, current_state: s1 });
    let s2 = crate::abilities::AbilityState::default(&hive_info);
    r.push(crate::abilities::Ability { info: hive_info, current_state: s2 });
    r
}

} // verus!
