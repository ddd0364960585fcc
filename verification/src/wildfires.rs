use crate::bound;
use crate::collision::{collides, in_bounds, Pos, COORD_LIMIT};
use crate::mul_div_1000_spec;
use crate::mul_then_div_1000;
use crate::high_scores::CurrentLevelScoreResource;
use crate::player::clamped;
use crate::rng::rand_range;
use crate::spawner::{in_spawn_rect, sample_spawn_position};
use crate::states::{LevelSecondsResource, Transition};
use vstd::prelude::*;

verus! {

/// Movement step, in thousandths of a pixel per frame (not scaled by the
/// frame time).
pub const MOVEMENT_SPEED: i64 = 4000;

/// Rotation step, in thousandths of a radian per frame.
pub const ROTATION_SPEED: i64 = 100;

pub const PLAYER_HEIGHT_AND_WIDTH: i64 = 100000;

pub const DROPLET_HEIGHT_AND_WIDTH: i64 = 20000;

/// Droplet speed, in pixels per second; the velocity in thousandths of a
/// pixel per second is this times the facing direction in thousandths.
pub const DROPLET_SPEED: i64 = 140;

pub const DROPLET_MAX_MS_ALIVE: u32 = 700;

pub const FIRE_HEIGHT_AND_WIDTH: i64 = 50000;

pub const BUCKET_HEIGHT_AND_WIDTH: i64 = 200000;

/// Fires spawn on frames that are whole multiples of this interval
/// (seven tenths of a second at the fixed frame rate).
pub const FIRE_SPAWN_INTERVAL_FRAMES: u64 = 42;

/// Magnitude bound on droplet velocities, thousandths of a pixel per
/// second.
pub const VELOCITY_LIMIT: i64 = 1000000;

pub const MAX_FIRES: u64 = 60;

/// A fire on the ground.
#[derive(Clone, Copy, PartialEq, Eq, Structural, Debug)]
pub struct Fire {
    pub pos: Pos,
}

/// A water droplet in flight.
#[derive(Clone, Copy, PartialEq, Eq, Structural, Debug)]
pub struct Droplet {
    pub pos: Pos,
    /// Velocity, in thousandths of a pixel per second.
    pub vx: i64,
    pub vy: i64,
    /// How long the droplet has been in the world, in milliseconds.
    pub ms_alive: u32,
}

impl Droplet {
    pub open spec fn wf(self) -> bool {
        &&& in_bounds(self.pos)
        &&& -VELOCITY_LIMIT <= self.vx <= VELOCITY_LIMIT
        &&& -VELOCITY_LIMIT <= self.vy <= VELOCITY_LIMIT
    }
}

/// A resource for storing some level state for the wildfires level.
#[derive(Clone, Copy, PartialEq, Eq, Structural, Debug)]
pub struct WildfireStateResource {
    pub current_fires: u64,
    pub stepped_in_fire_times: u64,
}

impl Default for WildfireStateResource {
    fn default() -> (r: Self)
        ensures
            r.current_fires == 0,
            r.stepped_in_fire_times == 0,
    {
        WildfireStateResource { current_fires: 0, stepped_in_fire_times: 0 }
    }
}

/// A droplet after the deterministic part of one physics step: aged by
/// `dt_ms` (the age saturates at its type's maximum) and drifted by its
/// velocity, each coordinate clamped at the coordinate bound, which lies
/// far outside any arena.  The random horizontal jitter comes on top of
/// this.
pub open spec fn aged_droplet(d: Droplet, dt_ms: u32) -> Droplet {
    Droplet {
        pos: Pos {
            x: clamped(
                d.pos.x + mul_div_1000_spec(d.vx as int, dt_ms as int),
                -COORD_LIMIT as int,
                COORD_LIMIT as int,
            ) as i64,
            y: clamped(
                d.pos.y + mul_div_1000_spec(d.vy as int, dt_ms as int),
                -COORD_LIMIT as int,
                COORD_LIMIT as int,
            ) as i64,
        },
        vx: d.vx,
        vy: d.vy,
        ms_alive: if d.ms_alive + dt_ms > u32::MAX {
            u32::MAX
        } else {
            (d.ms_alive + dt_ms) as u32
        },
    }
}

/// One physics step of a single droplet, with this frame's horizontal
/// jitter already drawn: the deterministic drift of `aged_droplet`, then
/// the jitter on the horizontal axis.
pub fn step_droplet(d: &mut Droplet, dt_ms: u32, jitter: i64)
    requires
        old(d).wf(),
        -6000 <= jitter < 6000,
    ensures
        *final(d) == (Droplet {
            pos: Pos {
                x: clamped(
                    aged_droplet(*old(d), dt_ms).pos.x + jitter,
                    -COORD_LIMIT as int,
                    COORD_LIMIT as int,
                ) as i64,
                y: aged_droplet(*old(d), dt_ms).pos.y,
            },
            vx: old(d).vx,
            vy: old(d).vy,
            ms_alive: aged_droplet(*old(d), dt_ms).ms_alive,
        }),
        final(d).wf(),
{
    let dx = mul_then_div_1000(d.vx, dt_ms as i64);
    let dy = mul_then_div_1000(d.vy, dt_ms as i64);
    proof {
        assert(-5000000000000000 <= d.vx * (dt_ms as i64) <= 5000000000000000)
            by (nonlinear_arith)
            requires
                -VELOCITY_LIMIT <= d.vx <= VELOCITY_LIMIT,
                0 <= dt_ms <= 4294967295,
        ;
        assert(-5000000000000000 <= d.vy * (dt_ms as i64) <= 5000000000000000)
            by (nonlinear_arith)
            requires
                -VELOCITY_LIMIT <= d.vy <= VELOCITY_LIMIT,
                0 <= dt_ms <= 4294967295,
        ;
    }
    d.pos.x = bound(d.pos.x + dx, -COORD_LIMIT, COORD_LIMIT);
    d.pos.x = bound(d.pos.x + jitter, -COORD_LIMIT, COORD_LIMIT);
    d.pos.y = bound(d.pos.y + dy, -COORD_LIMIT, COORD_LIMIT);
    d.ms_alive = d.ms_alive.saturating_add(dt_ms);
}

/// How long a droplet lives: seven tenths of a second, doubled while the
/// range-boost ability is active.
pub open spec fn droplet_lifetime_ms(range_boost_active: bool) -> u32 {
    if range_boost_active {
        (2 * DROPLET_MAX_MS_ALIVE) as u32
    } else {
        DROPLET_MAX_MS_ALIVE
    }
}

/// One frame of droplet physics: every droplet ages and drifts
/// (`aged_droplet`) with a fresh horizontal jitter of up to six pixels
/// either way, and the droplets whose age has reached their lifetime are
/// deleted, the order of the others kept.
pub fn droplet_physics(
    droplets: &mut Vec<Droplet>,
    dt_ms: u32,
    range_boost_active: bool,
    rng: &mut rand::rngs::ThreadRng,
)
    requires
        forall|k: int| 0 <= k < old(droplets)@.len() ==> (#[trigger] old(droplets)@[k]).wf(),
    ensures
        ({
            let base = old(droplets)@.map_values(|d: Droplet| aged_droplet(d, dt_ms)).filter(
                |d: Droplet| d.ms_alive < droplet_lifetime_ms(range_boost_active),
            );
            &&& final(droplets)@.len() == base.len()
            &&& forall|k: int|
                0 <= k < base.len() ==> {
                    let b = #[trigger] base[k];
                    let f = final(droplets)@[k];
                    &&& f.vx == b.vx
                    &&& f.vy == b.vy
                    &&& f.ms_alive == b.ms_alive
                    &&& f.pos.y == b.pos.y
                    &&& clamped(b.pos.x - 6000, -COORD_LIMIT as int, COORD_LIMIT as int)
                        <= f.pos.x <= clamped(
                        b.pos.x + 5999,
                        -COORD_LIMIT as int,
                        COORD_LIMIT as int,
                    )
                }
            &&& forall|k: int|
                0 <= k < final(droplets)@.len() ==> (#[trigger] final(droplets)@[k]).wf()
        }),
{
    let ghost d0 = droplets@;
    let ghost age = |d: Droplet| aged_droplet(d, dt_ms);
    let ghost alive = |d: Droplet| d.ms_alive < droplet_lifetime_ms(range_boost_active);
    let limit = if range_boost_active {
        2 * DROPLET_MAX_MS_ALIVE
    } else {
        DROPLET_MAX_MS_ALIVE
    };
    let mut out: Vec<Droplet> = Vec::new();
    let mut j: usize = 0;
    while j < droplets.len()
        invariant
            droplets@ == d0,
            j <= d0.len(),
            forall|k: int| 0 <= k < d0.len() ==> (#[trigger] d0[k]).wf(),
            age == (|d: Droplet| aged_droplet(d, dt_ms)),
            alive == (|d: Droplet| d.ms_alive < droplet_lifetime_ms(range_boost_active)),
            limit == droplet_lifetime_ms(range_boost_active),
            ({
                let base = d0.subrange(0, j as int).map_values(age).filter(alive);
                &&& out@.len() == base.len()
                &&& forall|k: int|
                    0 <= k < base.len() ==> {
                        let b = #[trigger] base[k];
                        let f = out@[k];
                        &&& f.vx == b.vx
                        &&& f.vy == b.vy
                        &&& f.ms_alive == b.ms_alive
                        &&& f.pos.y == b.pos.y
                        &&& clamped(b.pos.x - 6000, -COORD_LIMIT as int, COORD_LIMIT as int)
                            <= f.pos.x <= clamped(
                            b.pos.x + 5999,
                            -COORD_LIMIT as int,
                            COORD_LIMIT as int,
                        )
                    }
                &&& forall|k: int| 0 <= k < out@.len() ==> (#[trigger] out@[k]).wf()
            }),
        decreases d0.len() - j,
    {
        let jitter = rand_range(rng, 0, 12000) as i64 - 6000;
        let mut d = droplets[j];
        step_droplet(&mut d, dt_ms, jitter);
        let ghost pre = d0.subrange(0, j as int).map_values(age).filter(alive);
        if d.ms_alive < limit {
            out.push(d);
        }
        proof {
            let prefix2 = d0.subrange(0, j + 1).map_values(age);
            assert(prefix2 =~= d0.subrange(0, j as int).map_values(age).push(age(d0[j as int])));
            d0.subrange(0, j as int).map_values(age).lemma_filter_push(age(d0[j as int]), alive);
            let b = age(d0[j as int]);
            if alive(b) {
                assert(out@.last() == d);
                assert(d.pos.x == clamped(
                    b.pos.x + jitter,
                    -COORD_LIMIT as int,
                    COORD_LIMIT as int,
                ));
                assert forall|k: int|
                    0 <= k < pre.push(b).len() implies {
                        let bb = #[trigger] pre.push(b)[k];
                        let f = out@[k];
                        &&& f.vx == bb.vx
                        &&& f.vy == bb.vy
                        &&& f.ms_alive == bb.ms_alive
                        &&& f.pos.y == bb.pos.y
                        &&& clamped(bb.pos.x - 6000, -COORD_LIMIT as int, COORD_LIMIT as int)
                            <= f.pos.x <= clamped(
                            bb.pos.x + 5999,
                            -COORD_LIMIT as int,
                            COORD_LIMIT as int,
                        )
                    } by {
                    if k < pre.len() {
                        assert(pre.push(b)[k] == pre[k]);
                    } else {
                        assert(pre.push(b)[k] == b);
                        assert(out@[k].pos.x == clamped(
                            b.pos.x + jitter,
                            -COORD_LIMIT as int,
                            COORD_LIMIT as int,
                        ));
                    }
                }
            }
        }
        j += 1;
    }
    proof {
        assert(d0.subrange(0, d0.len() as int) =~= d0);
    }
    *droplets = out;
}

/// The index of the first droplet within `reach` of a target, if any.
pub open spec fn first_droplet_hit(droplets: Seq<Droplet>, target: Pos, reach: int) -> Option<int>
    decreases droplets.len(),
{
    if droplets.len() == 0 {
        None
    } else if collides(target, droplets[0].pos, reach) {
        Some(0int)
    } else {
        match first_droplet_hit(droplets.subrange(1, droplets.len() as int), target, reach) {
            Some(j) => Some(j + 1),
            None => None,
        }
    }
}

pub proof fn lemma_first_droplet_hit_found(droplets: Seq<Droplet>, target: Pos, reach: int, p: int)
    requires
        0 <= p < droplets.len(),
        collides(target, droplets[p].pos, reach),
        forall|q: int| 0 <= q < p ==> !collides(target, droplets[q].pos, reach),
    ensures
        first_droplet_hit(droplets, target, reach) == Some(p),
    decreases p,
{
    if p > 0 {
        lemma_first_droplet_hit_found(
            droplets.subrange(1, droplets.len() as int),
            target,
            reach,
            p - 1,
        );
    }
}

pub proof fn lemma_first_droplet_hit_absent(droplets: Seq<Droplet>, target: Pos, reach: int)
    requires
        forall|q: int| 0 <= q < droplets.len() ==> !collides(target, droplets[q].pos, reach),
    ensures
        first_droplet_hit(droplets, target, reach) is None,
    decreases droplets.len(),
{
    if droplets.len() > 0 {
        lemma_first_droplet_hit_absent(droplets.subrange(1, droplets.len() as int), target, reach);
    }
}

/// Finds the first droplet within `reach` of the target.
pub fn find_first_droplet_hit(droplets: &Vec<Droplet>, target: Pos, reach: i64) -> (r: Option<
    usize,
>)
    requires
        in_bounds(target),
        0 <= reach <= 2 * COORD_LIMIT,
        forall|k: int| 0 <= k < droplets@.len() ==> (#[trigger] droplets@[k]).wf(),
    ensures
        r is Some ==> first_droplet_hit(droplets@, target, reach as int) == Some(r->Some_0 as int),
        r is Some ==> r->Some_0 < droplets@.len(),
        r is None ==> first_droplet_hit(droplets@, target, reach as int) is None,
{
    let mut j: usize = 0;
    while j < droplets.len()
        invariant
            j <= droplets@.len(),
            in_bounds(target),
            0 <= reach <= 2 * COORD_LIMIT,
            forall|k: int| 0 <= k < droplets@.len() ==> (#[trigger] droplets@[k]).wf(),
            forall|q: int| 0 <= q < j ==> !collides(target, droplets@[q].pos, reach as int),
        decreases droplets@.len() - j,
    {
        if crate::collision::distance_within(target, droplets[j].pos, reach) {
            proof {
                lemma_first_droplet_hit_found(droplets@, target, reach as int, j as int);
            }
            return Some(j);
        }
        j += 1;
    }
    proof {
        lemma_first_droplet_hit_absent(droplets@, target, reach as int);
    }
    None
}

/// One pass over the fires, in order: a fire touching the player burns it
/// (the fire goes out, the player's count of stepped-in fires goes up);
/// otherwise the first droplet within dousing reach puts the fire out and
/// is spent with it; a fire neither burning nor doused stays.  Returns the
/// surviving fires and droplets, how many fires burned the player, and how
/// many were doused.  A fire deleted by one outcome is never re-processed
/// by the other.
pub open spec fn fire_sweep(fires: Seq<Fire>, droplets: Seq<Droplet>, player: Pos) -> (
    Seq<Fire>,
    Seq<Droplet>,
    int,
    int,
)
    decreases fires.len(),
{
    if fires.len() == 0 {
        (fires, droplets, 0int, 0int)
    } else {
        let f = fires[0];
        let rest = fires.subrange(1, fires.len() as int);
        if collides(player, f.pos, (FIRE_HEIGHT_AND_WIDTH + PLAYER_HEIGHT_AND_WIDTH) / 2) {
            let t = fire_sweep(rest, droplets, player);
            (t.0, t.1, t.2 + 1, t.3)
        } else {
            match first_droplet_hit(
                droplets,
                f.pos,
                (FIRE_HEIGHT_AND_WIDTH + DROPLET_HEIGHT_AND_WIDTH) / 2,
            ) {
                Some(j) => {
                    let t = fire_sweep(rest, droplets.remove(j), player);
                    (t.0, t.1, t.2, t.3 + 1)
                },
                None => {
                    let t = fire_sweep(rest, droplets, player);
                    (seq![f] + t.0, t.1, t.2, t.3)
                },
            }
        }
    }
}

/// Resolves this frame's fire collisions exactly as `fire_sweep` says:
/// fires touching the player burn it and raise `stepped_in_fire_times`
/// (saturating); every other fire is put out by the first droplet within
/// reach, spending the droplet and lowering `current_fires` (saturating at
/// zero, as the counter never wraps).
pub fn handle_fire_collisions(
    fires: &mut Vec<Fire>,
    droplets: &mut Vec<Droplet>,
    player: Pos,
    state: &mut WildfireStateResource,
)
    requires
        in_bounds(player),
        forall|k: int| 0 <= k < old(fires)@.len() ==> in_bounds((#[trigger] old(fires)@[k]).pos),
        forall|k: int| 0 <= k < old(droplets)@.len() ==> (#[trigger] old(droplets)@[k]).wf(),
    ensures
        ({
            let t = fire_sweep(old(fires)@, old(droplets)@, player);
            &&& final(fires)@ == t.0
            &&& final(droplets)@ == t.1
            &&& final(state).stepped_in_fire_times == (if old(state).stepped_in_fire_times + t.2
                > u64::MAX {
                u64::MAX as int
            } else {
                old(state).stepped_in_fire_times + t.2
            })
            &&& final(state).current_fires == (if old(state).current_fires - t.3 < 0 {
                0int
            } else {
                old(state).current_fires - t.3
            })
        }),
        forall|k: int| 0 <= k < final(fires)@.len() ==> in_bounds((#[trigger] final(fires)@[k]).pos),
        forall|k: int| 0 <= k < final(droplets)@.len() ==> (#[trigger] final(droplets)@[k]).wf(),
{
    let ghost f0 = fires@;
    let ghost dr0 = droplets@;
    let mut out: Vec<Fire> = Vec::new();
    let mut stepped_cnt: u64 = 0;
    let mut doused_cnt: u64 = 0;
    proof {
        assert(f0.subrange(0, f0.len() as int) =~= f0);
        let t0 = fire_sweep(f0, dr0, player);
        assert(Seq::<Fire>::empty() + t0.0 =~= t0.0);
    }
    let mut i: usize = 0;
    while i < fires.len()
        invariant
            fires@ == f0,
            i <= f0.len(),
            in_bounds(player),
            forall|k: int| 0 <= k < f0.len() ==> in_bounds((#[trigger] f0[k]).pos),
            forall|k: int| 0 <= k < droplets@.len() ==> (#[trigger] droplets@[k]).wf(),
            forall|k: int| 0 <= k < out@.len() ==> in_bounds((#[trigger] out@[k]).pos),
            stepped_cnt <= i,
            doused_cnt <= i,
            ({
                let t = fire_sweep(f0, dr0, player);
                let rem = fire_sweep(f0.subrange(i as int, f0.len() as int), droplets@, player);
                &&& t.0 == out@ + rem.0
                &&& t.1 == rem.1
                &&& t.2 == stepped_cnt + rem.2
                &&& t.3 == doused_cnt + rem.3
            }),
        decreases f0.len() - i,
    {
        proof {
            let cur = f0.subrange(i as int, f0.len() as int);
            assert(cur.len() > 0);
            assert(cur[0] == f0[i as int]);
            assert(cur.subrange(1, cur.len() as int) =~= f0.subrange(
                i as int + 1,
                f0.len() as int,
            ));
        }
        let f = fires[i];
        if crate::collision::distance_within(
            player,
            f.pos,
            (FIRE_HEIGHT_AND_WIDTH + PLAYER_HEIGHT_AND_WIDTH) / 2,
        ) {
            stepped_cnt = stepped_cnt + 1;
        } else {
            let ghost drc = droplets@;
            match find_first_droplet_hit(
                droplets,
                f.pos,
                (FIRE_HEIGHT_AND_WIDTH + DROPLET_HEIGHT_AND_WIDTH) / 2,
            ) {
                Some(j) => {
                    let _ = droplets.remove(j);
                    doused_cnt = doused_cnt + 1;
                    proof {
                        assert(droplets@ == drc.remove(j as int));
                        assert(droplets@ =~= drc.subrange(0, j as int) + drc.subrange(
                            j as int + 1,
                            drc.len() as int,
                        ));
                        assert forall|k: int|
                            0 <= k < droplets@.len() implies (#[trigger] droplets@[k]).wf() by {
                            if k < j {
                                assert(droplets@[k] == drc[k]);
                            } else {
                                assert(droplets@[k] == drc[k + 1]);
                            }
                        }
                    }
                },
                None => {
                    out.push(f);
                    proof {
                        let rem_next = fire_sweep(
                            f0.subrange(i as int + 1, f0.len() as int),
                            droplets@,
                            player,
                        );
                        assert(out@ + rem_next.0 =~= out@.drop_last() + (seq![f] + rem_next.0));
                    }
                },
            }
        }
        i += 1;
    }
    proof {
        assert(f0.subrange(f0.len() as int, f0.len() as int).len() == 0);
        let t = fire_sweep(f0, dr0, player);
        assert(t.0 =~= out@);
    }
    *fires = out;
    state.stepped_in_fire_times = state.stepped_in_fire_times.saturating_add(stepped_cnt);
    state.current_fires = state.current_fires.saturating_sub(doused_cnt);
}

/// Frame-gated fire spawning: on frames that are whole multiples of the
/// spawn interval, at least one and fewer than `2 + elapsed/20s` fires
/// appear at random positions in the spawn rectangle (positions near the
/// player are redrawn up to the retry budget), and `current_fires` grows
/// by the number spawned, saturating.  On any other frame nothing changes.
pub fn spawn_fires(
    fires: &mut Vec<Fire>,
    state: &mut WildfireStateResource,
    frame_number: u64,
    elapsed_ms: u64,
    player: Pos,
    rng: &mut rand::rngs::ThreadRng,
)
    requires
        in_bounds(player),
        elapsed_ms <= 1000000000,
        old(fires)@.len() + 50002 <= usize::MAX,
    ensures
        frame_number % FIRE_SPAWN_INTERVAL_FRAMES != 0 ==> *final(fires) == *old(fires)
            && *final(state) == *old(state),
        frame_number % FIRE_SPAWN_INTERVAL_FRAMES == 0 ==> ({
            let added = final(fires)@.len() - old(fires)@.len();
            &&& final(fires)@.subrange(0, old(fires)@.len() as int) == old(fires)@
            &&& 1 <= added < 2 + elapsed_ms / 20000
            &&& forall|k: int|
                old(fires)@.len() <= k < final(fires)@.len() ==> in_spawn_rect(
                    (#[trigger] final(fires)@[k]).pos,
                )
            &&& final(state).current_fires == (if old(state).current_fires + added > u64::MAX {
                u64::MAX as int
            } else {
                old(state).current_fires + added
            })
            &&& final(state).stepped_in_fire_times == old(state).stepped_in_fire_times
        }),
{
    if frame_number % FIRE_SPAWN_INTERVAL_FRAMES != 0 {
        return ;
    }
    let hi = 2 + elapsed_ms / 20000;
    let count = rand_range(rng, 1, hi);
    let ghost f0 = fires@;
    let ghost s0 = *state;
    let mut n: u64 = 0;
    while n < count
        invariant
            in_bounds(player),
            1 <= count < 2 + elapsed_ms / 20000,
            elapsed_ms <= 1000000000,
            n <= count,
            f0.len() + 50002 <= usize::MAX,
            fires@.len() == f0.len() + n,
            fires@.subrange(0, f0.len() as int) == f0,
            forall|k: int|
                f0.len() <= k < fires@.len() ==> in_spawn_rect((#[trigger] fires@[k]).pos),
            state.current_fires == (if s0.current_fires + n > u64::MAX {
                u64::MAX as int
            } else {
                s0.current_fires + n
            }),
            state.stepped_in_fire_times == s0.stepped_in_fire_times,
        decreases count - n,
    {
        let ghost pre = fires@;
        let pos = sample_spawn_position(
            player,
            (PLAYER_HEIGHT_AND_WIDTH / 2) + 30000,
            rng,
        );
        fires.push(Fire { pos });
        state.current_fires = state.current_fires.saturating_add(1);
        n = n + 1;
        proof {
            assert(fires@.subrange(0, f0.len() as int) =~= pre.subrange(0, f0.len() as int));
        }
    }
}

/// One bucket throw: every fire within the bucket's splash reach of the
/// throw point goes out.  The fire counter stays as it is, as only dousing
/// by a droplet lowers it.
pub fn bucket_splash(fires: &mut Vec<Fire>, splash: Pos)
    requires
        in_bounds(splash),
        forall|k: int| 0 <= k < old(fires)@.len() ==> in_bounds((#[trigger] old(fires)@[k]).pos),
    ensures
        final(fires)@ == old(fires)@.filter(
            |f: Fire|
                !collides(
                    splash,
                    f.pos,
                    (BUCKET_HEIGHT_AND_WIDTH + FIRE_HEIGHT_AND_WIDTH) / 2,
                ),
        ),
        forall|k: int| 0 <= k < final(fires)@.len() ==> in_bounds((#[trigger] final(fires)@[k]).pos),
{
    let ghost f0 = fires@;
    let ghost keep = |f: Fire|
        !collides(splash, f.pos, (BUCKET_HEIGHT_AND_WIDTH + FIRE_HEIGHT_AND_WIDTH) / 2);
    let mut out: Vec<Fire> = Vec::new();
    let mut j: usize = 0;
    while j < fires.len()
        invariant
            fires@ == f0,
            j <= f0.len(),
            in_bounds(splash),
            forall|k: int| 0 <= k < f0.len() ==> in_bounds((#[trigger] f0[k]).pos),
            keep == (|f: Fire|
                !collides(splash, f.pos, (BUCKET_HEIGHT_AND_WIDTH + FIRE_HEIGHT_AND_WIDTH) / 2)),
            out@ == f0.subrange(0, j as int).filter(keep),
            forall|k: int| 0 <= k < out@.len() ==> in_bounds((#[trigger] out@[k]).pos),
        decreases f0.len() - j,
    {
        let f = fires[j];
        let hit = crate::collision::distance_within(
            splash,
            f.pos,
            (BUCKET_HEIGHT_AND_WIDTH + FIRE_HEIGHT_AND_WIDTH) / 2,
        );
        if !hit {
            out.push(f);
        }
        proof {
            let pre = f0.subrange(0, j as int);
            assert(f0.subrange(0, j + 1) =~= pre.push(f));
            pre.lemma_filter_push(f, keep);
        }
        j += 1;
    }
    proof {
        assert(f0.subrange(0, f0.len() as int) =~= f0);
    }
    *fires = out;
}

/// Cosine and sine of the tri-shot spread angle, in thousandths.
pub const TRI_SHOT_SPREAD_COS_MILLI: i64 = 284;

pub const TRI_SHOT_SPREAD_SIN_MILLI: i64 = -959;

/// Where a droplet starts: half the player's height ahead along the facing
/// direction `(ux, uy)` (given in thousandths), then `side` pixels along
/// the facing's rightward perpendicular, clamped at the coordinate bound.
pub open spec fn shot_pos(origin: Pos, ux: int, uy: int, side: int) -> Pos {
    Pos {
        x: clamped(origin.x + 50 * ux + side * uy, -COORD_LIMIT as int, COORD_LIMIT as int) as i64,
        y: clamped(origin.y + 50 * uy - side * ux, -COORD_LIMIT as int, COORD_LIMIT as int) as i64,
    }
}

/// The facing direction turned by the tri-shot spread angle; `flip`
/// mirrors the turn for the opposite outer droplet.
pub open spec fn spread_dir_x(ux: int, uy: int, flip: bool) -> int {
    if flip {
        mul_div_1000_spec(ux, TRI_SHOT_SPREAD_COS_MILLI as int) + mul_div_1000_spec(
            uy,
            TRI_SHOT_SPREAD_SIN_MILLI as int,
        )
    } else {
        mul_div_1000_spec(ux, TRI_SHOT_SPREAD_COS_MILLI as int) - mul_div_1000_spec(
            uy,
            TRI_SHOT_SPREAD_SIN_MILLI as int,
        )
    }
}

pub open spec fn spread_dir_y(ux: int, uy: int, flip: bool) -> int {
    if flip {
        -mul_div_1000_spec(ux, TRI_SHOT_SPREAD_SIN_MILLI as int) + mul_div_1000_spec(
            uy,
            TRI_SHOT_SPREAD_COS_MILLI as int,
        )
    } else {
        mul_div_1000_spec(ux, TRI_SHOT_SPREAD_SIN_MILLI as int) + mul_div_1000_spec(
            uy,
            TRI_SHOT_SPREAD_COS_MILLI as int,
        )
    }
}

/// A fresh droplet fired from `origin` with facing `(ux, uy)`, offset
/// `side` pixels to the side, flying `dx, dy` (thousandths) at droplet
/// speed, with no age yet.
pub open spec fn shot_droplet(origin: Pos, ux: int, uy: int, side: int, dx: int, dy: int) -> Droplet {
    Droplet {
        pos: shot_pos(origin, ux, uy, side),
        vx: (DROPLET_SPEED * dx) as i64,
        vy: (DROPLET_SPEED * dy) as i64,
        ms_alive: 0,
    }
}

/// Fires droplets from the player: one straight ahead, or, while the
/// tri-shot ability is active, three — the middle one straight, the outer
/// two turned by the spread angle and offset to either side, as the
/// original spread lays them out.  The facing direction comes from the
/// caller in thousandths (a unit vector scaled by 1000).
#[verifier::rlimit(60)]
pub fn spawn_droplets(
    droplets: &mut Vec<Droplet>,
    origin: Pos,
    dir_x_milli: i64,
    dir_y_milli: i64,
    tri_shot: bool,
)
    requires
        in_bounds(origin),
        -1100 <= dir_x_milli <= 1100,
        -1100 <= dir_y_milli <= 1100,
        old(droplets)@.len() + 3 <= usize::MAX,
    ensures
        final(droplets)@.len() == old(droplets)@.len() + (if tri_shot {
            3int
        } else {
            1int
        }),
        final(droplets)@.subrange(0, old(droplets)@.len() as int) == old(droplets)@,
        !tri_shot ==> final(droplets)@.last() == shot_droplet(
            origin,
            dir_x_milli as int,
            dir_y_milli as int,
            15,
            dir_x_milli as int,
            dir_y_milli as int,
        ),
        tri_shot ==> {
            let ux = dir_x_milli as int;
            let uy = dir_y_milli as int;
            &&& final(droplets)@[old(droplets)@.len() as int] == shot_droplet(
                origin,
                ux,
                uy,
                -30,
                spread_dir_x(ux, uy, false),
                spread_dir_y(ux, uy, false),
            )
            &&& final(droplets)@[old(droplets)@.len() as int + 1] == shot_droplet(
                origin,
                ux,
                uy,
                15,
                ux,
                uy,
            )
            &&& final(droplets)@[old(droplets)@.len() as int + 2] == shot_droplet(
                origin,
                ux,
                uy,
                45,
                spread_dir_x(ux, uy, true),
                spread_dir_y(ux, uy, true),
            )
        },
        forall|k: int|
            old(droplets)@.len() <= k < final(droplets)@.len() ==> ((#[trigger] final(droplets)@[k]).wf()
                && final(droplets)@[k].ms_alive == 0),
{
    let ux = dir_x_milli;
    let uy = dir_y_milli;
    proof {
        assert(-110000 <= 50 * ux && 50 * ux <= 110000 && -110000 <= 50 * uy && 50 * uy
            <= 110000 && -110000 <= 15 * ux && 15 * ux <= 110000 && -110000 <= 15 * uy && 15 * uy
            <= 110000 && -110000 <= 30 * ux && 30 * ux <= 110000 && -110000 <= 30 * uy && 30 * uy
            <= 110000 && -110000 <= 45 * ux && 45 * ux <= 110000 && -110000 <= 45 * uy && 45 * uy
            <= 110000 && -110000 <= (-30) * ux && (-30) * ux <= 110000 && -110000 <= (-30) * uy
            && (-30) * uy <= 110000) by (nonlinear_arith)
            requires
                -1100 <= ux <= 1100,
                -1100 <= uy <= 1100,
        ;
    }
    if tri_shot {
        let ldx = mul_then_div_1000(ux, TRI_SHOT_SPREAD_COS_MILLI) - mul_then_div_1000(
            uy,
            TRI_SHOT_SPREAD_SIN_MILLI,
        );
        let ldy = mul_then_div_1000(ux, TRI_SHOT_SPREAD_SIN_MILLI) + mul_then_div_1000(
            uy,
            TRI_SHOT_SPREAD_COS_MILLI,
        );
        let rdx = mul_then_div_1000(ux, TRI_SHOT_SPREAD_COS_MILLI) + mul_then_div_1000(
            uy,
            TRI_SHOT_SPREAD_SIN_MILLI,
        );
        let rdy = -mul_then_div_1000(ux, TRI_SHOT_SPREAD_SIN_MILLI) + mul_then_div_1000(
            uy,
            TRI_SHOT_SPREAD_COS_MILLI,
        );
        let left = Droplet {
            pos: Pos {
                x: bound(origin.x + 50 * ux + (-30) * uy, -COORD_LIMIT, COORD_LIMIT),
                y: bound(origin.y + 50 * uy - (-30) * ux, -COORD_LIMIT, COORD_LIMIT),
            },
            vx: DROPLET_SPEED * ldx,
            vy: DROPLET_SPEED * ldy,
            ms_alive: 0,
        };
        let centre = Droplet {
            pos: Pos {
                x: bound(origin.x + 50 * ux + 15 * uy, -COORD_LIMIT, COORD_LIMIT),
                y: bound(origin.y + 50 * uy - 15 * ux, -COORD_LIMIT, COORD_LIMIT),
            },
            vx: DROPLET_SPEED * ux,
            vy: DROPLET_SPEED * uy,
            ms_alive: 0,
        };
        let right = Droplet {
            pos: Pos {
                x: bound(origin.x + 50 * ux + 45 * uy, -COORD_LIMIT, COORD_LIMIT),
                y: bound(origin.y + 50 * uy - 45 * ux, -COORD_LIMIT, COORD_LIMIT),
            },
            vx: DROPLET_SPEED * rdx,
            vy: DROPLET_SPEED * rdy,
            ms_alive: 0,
        };
        let ghost pre = droplets@;
        droplets.push(left);
        droplets.push(centre);
        droplets.push(right);
        proof {
            assert(droplets@.subrange(0, pre.len() as int) =~= pre);
        }
    } else {
        let centre = Droplet {
            pos: Pos {
                x: bound(origin.x + 50 * ux + 15 * uy, -COORD_LIMIT, COORD_LIMIT),
                y: bound(origin.y + 50 * uy - 15 * ux, -COORD_LIMIT, COORD_LIMIT),
            },
            vx: DROPLET_SPEED * ux,
            vy: DROPLET_SPEED * uy,
            ms_alive: 0,
        };
        let ghost pre = droplets@;
        droplets.push(centre);
        proof {
            assert(droplets@.subrange(0, pre.len() as int) =~= pre);
        }
    }
}

/// One frame of the wildfires level bookkeeping: the clock advances; the
/// allowance of burning fires shrinks by one for every fire the player has
/// stepped in; the score is the elapsed whole seconds less the fires
/// stepped in (both saturating); and the level ends when the burning fires
/// outnumber the allowance.  Returns the transition and the allowance.
pub fn update_wildfire_level(
    state: &WildfireStateResource,
    seconds: &mut LevelSecondsResource,
    score: &mut CurrentLevelScoreResource,
    dt_ms: u32,
) -> (r: (Transition, u64))
    requires
        old(seconds).elapsed_ms + dt_ms <= u64::MAX,
    ensures
        final(seconds).elapsed_ms == old(seconds).elapsed_ms + dt_ms,
        r.1 == (if MAX_FIRES - state.stepped_in_fire_times < 0 {
            0int
        } else {
            MAX_FIRES - state.stepped_in_fire_times
        }),
        final(score).score == ({
            let whole = final(seconds).elapsed_ms / 1000;
            if whole - state.stepped_in_fire_times < 0 {
                0int
            } else {
                whole - state.stepped_in_fire_times
            }
        }),
        r.0 == (if state.current_fires > r.1 {
            Transition::ToMainMenu
        } else {
            Transition::Stay
        }),
{
    seconds.elapsed_ms = seconds.elapsed_ms + (dt_ms as u64);
    let max_fires = MAX_FIRES.saturating_sub(state.stepped_in_fire_times);
    score.score = seconds.seconds().saturating_sub(state.stepped_in_fire_times);
    if state.current_fires > max_fires {
        (Transition::ToMainMenu, max_fires)
    } else {
        (Transition::Stay, max_fires)
    }
}


/// The wildfires level's ability roster: a bucket throw, a tri-shot and a
/// range boost, with their charge times and durations in seconds, all
/// starting fully charged.
pub fn wildfires_ability_roster() -> (r: Vec<crate::abilities::Ability>)
    ensures
        r@.len() == 3,
        r@[0].info == (crate::abilities::AbilityInfo {
            seconds_to_charge: 5,
            duration: Some(5u32),
            ability_type: crate::abilities::AbilityType::Bucket,
            max_uses: None,
        }),
        r@[1].info == (crate::abilities::AbilityInfo {
            seconds_to_charge: 8,
            duration: Some(6u32),
            ability_type: crate::abilities::AbilityType::TriShot,
            max_uses: None,
        }),
        r@[2].info == (crate::abilities::AbilityInfo {
            seconds_to_charge: 10,
            duration: Some(7u32),
            ability_type: crate::abilities::AbilityType::RangeBoost,
            max_uses: None,
        }),
        forall|i: int| 0 <= i < 3 ==> (#[trigger] r@[i]).wf(false),
        forall|i: int|
            0 <= i < 3 ==> (#[trigger] r@[i]).current_state.progress_ms
                == r@[i].info.charge_ms_spec() && r@[i].current_state.uses == 0,
{
    let bucket_info = crate::abilities::AbilityInfo {
        seconds_to_charge: 5,
        duration: Some(5u32),
        ability_type: crate::abilities::AbilityType::Bucket,
        max_uses: None,
    };
    let tri_info = crate::abilities::AbilityInfo {
        seconds_to_charge: 8,
        duration: Some(6u32),
        ability_type: crate::abilities::AbilityType::TriShot,
        max_uses: None,
    };
    let range_info = crate::abilities::AbilityInfo {
        seconds_to_charge: 10,
        duration: Some(7u32),
        ability_type: crate::abilities::AbilityType::RangeBoost,
        max_uses: None,
    };
    let mut r: Vec<crate::abilities::Ability> = Vec::new();
    let s0 = crate::abilities::AbilityState::default(&bucket_info);
    r.push(crate::abilities::Ability { info: bucket_info, current_state: s0 });
    let s1 = crate::abilities::AbilityState::default(&tri_info);
    r.push(crate::abilities::Ability { info: tri_info, current_state: s1 });
    let s2 = crate::abilities::AbilityState::default(&range_info);
    r.push(crate::abilities::Ability { info: range_info, current_state: s2 });
    r
}

} // verus!
