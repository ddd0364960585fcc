use crate::abilities::{Ability, AbilitiesResource, AbilityType};
use crate::bound;
use crate::collision::{collides, in_bounds, Pos, COORD_LIMIT};
use crate::high_scores::CurrentLevelScoreResource;
use crate::rng::rand_range;
use crate::spawner::sample_spawn_position;
use crate::states::{LevelSecondsResource, Transition};
use crate::wildfires::Droplet;
use vstd::prelude::*;

verus! {

/// Movement speed, in thousandths of a pixel per second (scaled by the
/// frame time, unlike the wildfires level).
pub const MOVEMENT_SPEED: i64 = 140000;

/// Rotation speed, in thousandths of a radian per second.
pub const ROTATION_SPEED: i64 = 4200;

pub const PLAYER_HEIGHT_AND_WIDTH: i64 = 80000;

pub const SPREADER_HEIGHT_AND_WIDTH: i64 = 170000;

/// Covid cell drift speed, in thousandths of a pixel per second.
pub const COVID_SPEED: i64 = 40000;

pub const COVID_HEIGHT_AND_WIDTH: i64 = 40000;

pub const HEALTH_PACK_HEIGHT_AND_WIDTH: i64 = 40000;

/// The player's full (and starting) health.
pub const HEALTH_POOL: u64 = 100;

/// Covid cells spawn on frames that are whole multiples of this interval
/// (one second at the fixed frame rate).
pub const COVID_SPAWN_INTERVAL_FRAMES: u64 = 60;

/// Health packs spawn on frames that are whole multiples of this interval
/// (six and a half seconds).
pub const HEALTH_PACK_SPAWN_INTERVAL_FRAMES: u64 = 390;

/// Super spreaders spawn on frames that are whole multiples of this
/// interval (two seconds).
pub const SPREADER_SPAWN_INTERVAL_FRAMES: u64 = 120;

/// Frame numbers stay below this bound, which keeps every
/// expiration-frame sum within `u64`.
pub const FRAME_LIMIT: u64 = 0x4000000000000000;

// The direction a covid cell floats towards.
#[derive(Clone, Copy, PartialEq, Eq, Structural, Debug)]
pub enum CovidDirection {
    Left,
    Right,
    Up,
    Down,
}

/// A floating covid cell.
#[derive(Clone, Copy, PartialEq, Eq, Structural, Debug)]
pub struct CovidCellComponent {
    pub pos: Pos,
    pub direction: CovidDirection,
}

/// A super spreader standing about until its expiration frame.
#[derive(Clone, Copy, PartialEq, Eq, Structural, Debug)]
pub struct SuperSpreaderComponent {
    pub pos: Pos,
    pub expiration_frame: u64,
}

/// A health pack waiting to be picked up.
#[derive(Clone, Copy, PartialEq, Eq, Structural, Debug)]
pub struct HealthPackComponent {
    pub pos: Pos,
}

/// A resource for storing some level state for the covid level.
#[derive(Clone, Copy, PartialEq, Eq, Structural, Debug)]
pub struct CovidStateResource {
    pub current_health: u64,
}

impl CovidStateResource {
    /// Health never exceeds the pool.
    pub open spec fn wf(self) -> bool {
        self.current_health <= HEALTH_POOL
    }
}

impl Default for CovidStateResource {
    fn default() -> (r: Self)
        ensures
            r.current_health == HEALTH_POOL,
            r.wf(),
    {
        CovidStateResource { current_health: HEALTH_POOL }
    }
}

/// Whether a mask ability currently shields the player: active, and its
/// remaining duration is between five and ninety-nine percent — just-cast
/// and nearly-expired masks only switch the player's sprite.
pub open spec fn mask_shielded(a: Ability) -> bool {
    &&& a.info.duration is Some
    &&& 5 * a.info.duration_ms_spec() <= 100 * a.current_state.progress_ms
    &&& 100 * a.current_state.progress_ms <= 99 * a.info.duration_ms_spec()
}

/// Whether the player is shielded by an active mask ability this frame.
pub fn mask_shield_active(abilities: &AbilitiesResource) -> (r: bool)
    requires
        abilities.wf(),
    ensures
        r == exists|i: usize|
            i < abilities.available_abilities@.len() && (
            #[trigger] abilities.available_abilities@[i as int]).info.ability_type
                == AbilityType::Mask && abilities.is_active(i) && mask_shielded(
                abilities.available_abilities@[i as int],
            ),
{
    let n = abilities.available_abilities.len();
    let mut i: usize = 0;
    while i < n
        invariant
            abilities.wf(),
            n == abilities.available_abilities@.len(),
            i <= n,
            forall|q: usize|
                q < i ==> !((#[trigger] abilities.available_abilities@[q as int]).info.ability_type
                    == AbilityType::Mask && abilities.is_active(q) && mask_shielded(
                    abilities.available_abilities@[q as int],
                )),
        decreases n - i,
    {
        let a = abilities.available_abilities[i];
        if a.info.ability_type == AbilityType::Mask {
            if crate::abilities::contains_index(&abilities.active_abilities, i) {
                match a.info.duration_ms() {
                    Some(dur) => {
                        let p100 = 100 * (a.current_state.progress_ms as u64);
                        if 5 * (dur as u64) <= p100 && p100 <= 99 * (dur as u64) {
                            return true;
                        }
                    },
                    None => {},
                }
            }
        }
        i += 1;
    }
    false
}

/// Picking up health packs: every pack the player touches is consumed and
/// heals ten health, clamped at the pool; pickups apply even while the
/// mask shields the player.
pub fn heal_player(
    packs: &mut Vec<HealthPackComponent>,
    player: Pos,
    state: &mut CovidStateResource,
)
    requires
        in_bounds(player),
        old(state).wf(),
        forall|k: int| 0 <= k < old(packs)@.len() ==> in_bounds((#[trigger] old(packs)@[k]).pos),
    ensures
        final(packs)@ == old(packs)@.filter(
            |p: HealthPackComponent|
                !collides(
                    player,
                    p.pos,
                    (HEALTH_PACK_HEIGHT_AND_WIDTH + PLAYER_HEIGHT_AND_WIDTH) / 2,
                ),
        ),
        final(state).current_health == ({
            let healed = old(state).current_health + 10 * (old(packs)@.len()
                - final(packs)@.len());
            if healed > HEALTH_POOL {
                HEALTH_POOL as int
            } else {
                healed
            }
        }),
        final(state).wf(),
        forall|k: int| 0 <= k < final(packs)@.len() ==> in_bounds((#[trigger] final(packs)@[k]).pos),
{
    let ghost p0 = packs@;
    let ghost keep = |p: HealthPackComponent|
        !collides(player, p.pos, (HEALTH_PACK_HEIGHT_AND_WIDTH + PLAYER_HEIGHT_AND_WIDTH) / 2);
    let mut out: Vec<HealthPackComponent> = Vec::new();
    let mut j: usize = 0;
    while j < packs.len()
        invariant
            packs@ == p0,
            j <= p0.len(),
            in_bounds(player),
            state.wf(),
            forall|k: int| 0 <= k < p0.len() ==> in_bounds((#[trigger] p0[k]).pos),
            keep == (|p: HealthPackComponent|
                !collides(
                    player,
                    p.pos,
                    (HEALTH_PACK_HEIGHT_AND_WIDTH + PLAYER_HEIGHT_AND_WIDTH) / 2,
                )),
            out@ == p0.subrange(0, j as int).filter(keep),
            forall|k: int| 0 <= k < out@.len() ==> in_bounds((#[trigger] out@[k]).pos),
            state.current_health == ({
                let healed = old(state).current_health + 10 * (j - out@.len());
                if healed > HEALTH_POOL {
                    HEALTH_POOL as int
                } else {
                    healed
                }
            }),
        decreases p0.len() - j,
    {
        let p = packs[j];
        if crate::collision::distance_within(
            player,
            p.pos,
            (HEALTH_PACK_HEIGHT_AND_WIDTH + PLAYER_HEIGHT_AND_WIDTH) / 2,
        ) {
            let healed = state.current_health + 10;
            state.current_health = if healed > HEALTH_POOL {
                HEALTH_POOL
            } else {
                healed
            };
        } else {
            out.push(p);
        }
        proof {
            let pre = p0.subrange(0, j as int);
            assert(p0.subrange(0, j + 1) =~= pre.push(p));
            pre.lemma_filter_push(p, keep);
        }
        j += 1;
    }
    proof {
        assert(p0.subrange(0, p0.len() as int) =~= p0);
    }
    *packs = out;
}

/// Covid cells touching the player: while the mask does not shield, each
/// one is destroyed and costs ten health (saturating at zero); while it
/// does, nothing happens.
pub fn covid_player_collisions(
    cells: &mut Vec<CovidCellComponent>,
    player: Pos,
    shielded: bool,
    state: &mut CovidStateResource,
)
    requires
        in_bounds(player),
        old(state).wf(),
        forall|k: int| 0 <= k < old(cells)@.len() ==> in_bounds((#[trigger] old(cells)@[k]).pos),
    ensures
        shielded ==> *final(cells) == *old(cells) && *final(state) == *old(state),
        !shielded ==> final(cells)@ == old(cells)@.filter(
            |c: CovidCellComponent|
                !collides(player, c.pos, (COVID_HEIGHT_AND_WIDTH + PLAYER_HEIGHT_AND_WIDTH) / 2),
        ),
        !shielded ==> final(state).current_health == ({
            let cost = 10 * (old(cells)@.len() - final(cells)@.len());
            if old(state).current_health - cost < 0 {
                0int
            } else {
                old(state).current_health - cost
            }
        }),
        final(state).wf(),
        forall|k: int| 0 <= k < final(cells)@.len() ==> in_bounds((#[trigger] final(cells)@[k]).pos),
{
    if shielded {
        return ;
    }
    let ghost c0 = cells@;
    let ghost keep = |c: CovidCellComponent|
        !collides(player, c.pos, (COVID_HEIGHT_AND_WIDTH + PLAYER_HEIGHT_AND_WIDTH) / 2);
    let mut out: Vec<CovidCellComponent> = Vec::new();
    let mut j: usize = 0;
    while j < cells.len()
        invariant
            cells@ == c0,
            j <= c0.len(),
            in_bounds(player),
            state.wf(),
            forall|k: int| 0 <= k < c0.len() ==> in_bounds((#[trigger] c0[k]).pos),
            keep == (|c: CovidCellComponent|
                !collides(player, c.pos, (COVID_HEIGHT_AND_WIDTH + PLAYER_HEIGHT_AND_WIDTH) / 2)),
            out@ == c0.subrange(0, j as int).filter(keep),
            forall|k: int| 0 <= k < out@.len() ==> in_bounds((#[trigger] out@[k]).pos),
            state.current_health == ({
                let cost = 10 * (j - out@.len());
                if old(state).current_health - cost < 0 {
                    0int
                } else {
                    old(state).current_health - cost
                }
            }),
        decreases c0.len() - j,
    {
        let c = cells[j];
        if crate::collision::distance_within(
            player,
            c.pos,
            (COVID_HEIGHT_AND_WIDTH + PLAYER_HEIGHT_AND_WIDTH) / 2,
        ) {
            state.current_health = state.current_health.saturating_sub(10);
        } else {
            out.push(c);
        }
        proof {
            let pre = c0.subrange(0, j as int);
            assert(c0.subrange(0, j + 1) =~= pre.push(c));
            pre.lemma_filter_push(c, keep);
        }
        j += 1;
    }
    proof {
        assert(c0.subrange(0, c0.len() as int) =~= c0);
    }
    *cells = out;
}

/// A covid cell after one frame of drift: its speed scaled by the frame
/// time, along its direction, the coordinates saturating at the
/// coordinate bound.
pub open spec fn moved_cell(c: CovidCellComponent, dt_ms: u32) -> CovidCellComponent {
    let step = COVID_SPEED / 1000 * dt_ms;
    let p = match c.direction {
        CovidDirection::Up => Pos { x: c.pos.x, y: crate::player::clamped(c.pos.y + step, -COORD_LIMIT as int, COORD_LIMIT as int) as i64 },
        CovidDirection::Down => Pos { x: c.pos.x, y: crate::player::clamped(c.pos.y - step, -COORD_LIMIT as int, COORD_LIMIT as int) as i64 },
        CovidDirection::Left => Pos { x: crate::player::clamped(c.pos.x - step, -COORD_LIMIT as int, COORD_LIMIT as int) as i64, y: c.pos.y },
        CovidDirection::Right => Pos { x: crate::player::clamped(c.pos.x + step, -COORD_LIMIT as int, COORD_LIMIT as int) as i64, y: c.pos.y },
    };
    CovidCellComponent { pos: p, direction: c.direction }
}

/// One frame of covid cell drift: every cell moves along its direction at
/// its fixed speed, and a cell that has left through the right or top edge
/// of the screen is deleted, the order of the others kept.
pub fn move_covid_cells(
    cells: &mut Vec<CovidCellComponent>,
    dt_ms: u32,
    screen_width: i64,
    screen_height: i64,
)
    requires
        0 <= screen_width <= COORD_LIMIT,
        0 <= screen_height <= COORD_LIMIT,
        forall|k: int| 0 <= k < old(cells)@.len() ==> in_bounds((#[trigger] old(cells)@[k]).pos),
    ensures
        final(cells)@ == old(cells)@.map_values(|c: CovidCellComponent| moved_cell(c, dt_ms)).filter(
            |c: CovidCellComponent| c.pos.x < screen_width && c.pos.y < screen_height,
        ),
        forall|k: int| 0 <= k < final(cells)@.len() ==> in_bounds((#[trigger] final(cells)@[k]).pos),
{
    let ghost c0 = cells@;
    let ghost mv = |c: CovidCellComponent| moved_cell(c, dt_ms);
    let ghost keep = |c: CovidCellComponent| c.pos.x < screen_width && c.pos.y < screen_height;
    let step = COVID_SPEED / 1000 * (dt_ms as i64);
    proof {
        assert(0 <= COVID_SPEED / 1000 * (dt_ms as int) <= 40 * 4294967295) by (nonlinear_arith)
            requires
                0 <= dt_ms <= 4294967295,
        ;
    }
    let mut out: Vec<CovidCellComponent> = Vec::new();
    let mut j: usize = 0;
    while j < cells.len()
        invariant
            cells@ == c0,
            j <= c0.len(),
            0 <= screen_width <= COORD_LIMIT,
            0 <= screen_height <= COORD_LIMIT,
            step == COVID_SPEED / 1000 * (dt_ms as int),
            0 <= step <= 40 * 4294967295,
            forall|k: int| 0 <= k < c0.len() ==> in_bounds((#[trigger] c0[k]).pos),
            mv == (|c: CovidCellComponent| moved_cell(c, dt_ms)),
            keep == (|c: CovidCellComponent| c.pos.x < screen_width && c.pos.y < screen_height),
            out@ == c0.subrange(0, j as int).map_values(mv).filter(keep),
            forall|k: int| 0 <= k < out@.len() ==> in_bounds((#[trigger] out@[k]).pos),
        decreases c0.len() - j,
    {
        let c = cells[j];
        let moved = match c.direction {
            CovidDirection::Up => CovidCellComponent {
                pos: Pos { x: c.pos.x, y: bound(c.pos.y + step, -COORD_LIMIT, COORD_LIMIT) },
                direction: c.direction,
            },
            CovidDirection::Down => CovidCellComponent {
                pos: Pos { x: c.pos.x, y: bound(c.pos.y - step, -COORD_LIMIT, COORD_LIMIT) },
                direction: c.direction,
            },
            CovidDirection::Left => CovidCellComponent {
                pos: Pos { x: bound(c.pos.x - step, -COORD_LIMIT, COORD_LIMIT), y: c.pos.y },
                direction: c.direction,
            },
            CovidDirection::Right => CovidCellComponent {
                pos: Pos { x: bound(c.pos.x + step, -COORD_LIMIT, COORD_LIMIT), y: c.pos.y },
                direction: c.direction,
            },
        };
        proof {
            assert(moved == mv(c0[j as int]));
        }
        if moved.pos.x < screen_width && moved.pos.y < screen_height {
            out.push(moved);
        }
        proof {
            let pre = c0.subrange(0, j as int).map_values(mv);
            assert(c0.subrange(0, j + 1).map_values(mv) =~= pre.push(mv(c0[j as int])));
            pre.lemma_filter_push(mv(c0[j as int]), keep);
        }
        j += 1;
    }
    proof {
        assert(c0.subrange(0, c0.len() as int) =~= c0);
        assert(c0.subrange(0, c0.len() as int).map_values(mv) =~= c0.map_values(mv));
    }
    *cells = out;
}

/// Whether a spreader survives this frame: it has neither expired nor
/// (while the mask does not shield) run into the player.
pub open spec fn spreader_survives(
    s: SuperSpreaderComponent,
    frame_number: u64,
    player: Pos,
    shielded: bool,
) -> bool {
    &&& frame_number < s.expiration_frame
    &&& !(!shielded && collides(
        player,
        s.pos,
        (SPREADER_HEIGHT_AND_WIDTH + PLAYER_HEIGHT_AND_WIDTH) / 2,
    ))
}

/// Whether a spreader coughs on the player this frame: it has not expired,
/// the mask does not shield, and it touches the player.
pub open spec fn spreader_hits(
    s: SuperSpreaderComponent,
    frame_number: u64,
    player: Pos,
    shielded: bool,
) -> bool {
    &&& frame_number < s.expiration_frame
    &&& !shielded
    &&& collides(player, s.pos, (SPREADER_HEIGHT_AND_WIDTH + PLAYER_HEIGHT_AND_WIDTH) / 2)
}

/// How many spreaders in `s` cough on the player this frame.
pub open spec fn num_spreader_hits(
    s: Seq<SuperSpreaderComponent>,
    frame_number: u64,
    player: Pos,
    shielded: bool,
) -> int
    decreases s.len(),
{
    if s.len() == 0 {
        0
    } else {
        num_spreader_hits(s.drop_last(), frame_number, player, shielded) + (if spreader_hits(
            s.last(),
            frame_number,
            player,
            shielded,
        ) {
            1int
        } else {
            0int
        })
    }
}

/// One pass over the super spreaders: a stale spreader (its expiration
/// frame has come) is deleted without effect; a live spreader touching an
/// unshielded player is deleted and costs ten health (saturating at
/// zero); the rest stay in order.  A spreader deleted as stale is never
/// also processed as a collision.
pub fn handle_spreaders(
    spreaders: &mut Vec<SuperSpreaderComponent>,
    frame_number: u64,
    player: Pos,
    shielded: bool,
    state: &mut CovidStateResource,
)
    requires
        in_bounds(player),
        old(state).wf(),
        forall|k: int|
            0 <= k < old(spreaders)@.len() ==> in_bounds((#[trigger] old(spreaders)@[k]).pos),
    ensures
        final(spreaders)@ == old(spreaders)@.filter(
            |s: SuperSpreaderComponent| spreader_survives(s, frame_number, player, shielded),
        ),
        final(state).current_health == ({
            let cost = 10 * num_spreader_hits(old(spreaders)@, frame_number, player, shielded);
            if old(state).current_health - cost < 0 {
                0int
            } else {
                old(state).current_health - cost
            }
        }),
        final(state).wf(),
        forall|k: int|
            0 <= k < final(spreaders)@.len() ==> in_bounds((#[trigger] final(spreaders)@[k]).pos),
{
    let ghost s0 = spreaders@;
    let ghost keep = |s: SuperSpreaderComponent| spreader_survives(s, frame_number, player, shielded);
    let mut out: Vec<SuperSpreaderComponent> = Vec::new();
    let mut j: usize = 0;
    while j < spreaders.len()
        invariant
            spreaders@ == s0,
            j <= s0.len(),
            in_bounds(player),
            state.wf(),
            forall|k: int| 0 <= k < s0.len() ==> in_bounds((#[trigger] s0[k]).pos),
            keep == (|s: SuperSpreaderComponent|
                spreader_survives(s, frame_number, player, shielded)),
            out@ == s0.subrange(0, j as int).filter(keep),
            forall|k: int| 0 <= k < out@.len() ==> in_bounds((#[trigger] out@[k]).pos),
            state.current_health == ({
                let cost = 10 * num_spreader_hits(
                    s0.subrange(0, j as int),
                    frame_number,
                    player,
                    shielded,
                );
                if old(state).current_health - cost < 0 {
                    0int
                } else {
                    old(state).current_health - cost
                }
            }),
        decreases s0.len() - j,
    {
        let s = spreaders[j];
        if frame_number >= s.expiration_frame {
            // stale: deleted without effect
        } else if !shielded && crate::collision::distance_within(
            player,
            s.pos,
            (SPREADER_HEIGHT_AND_WIDTH + PLAYER_HEIGHT_AND_WIDTH) / 2,
        ) {
            state.current_health = state.current_health.saturating_sub(10);
        } else {
            out.push(s);
        }
        proof {
            let pre = s0.subrange(0, j as int);
            assert(s0.subrange(0, j + 1) =~= pre.push(s));
            pre.lemma_filter_push(s, keep);
            assert(s0.subrange(0, j + 1).drop_last() =~= pre);
            assert(s0.subrange(0, j + 1).last() == s);
        }
        j += 1;
    }
    proof {
        assert(s0.subrange(0, s0.len() as int) =~= s0);
    }
    *spreaders = out;
}

/// Whether a freshly spawned covid cell sits on one of the four screen
/// edges with the matching inward drift direction.
pub open spec fn covid_spawn_ok(c: CovidCellComponent) -> bool {
    ||| (c.direction == CovidDirection::Up && c.pos.y == 120000
        && crate::spawner::SPAWN_X_MIN <= c.pos.x < crate::spawner::SPAWN_X_MAX)
    ||| (c.direction == CovidDirection::Down && c.pos.y == 480000
        && crate::spawner::SPAWN_X_MIN <= c.pos.x < crate::spawner::SPAWN_X_MAX)
    ||| (c.direction == CovidDirection::Right && c.pos.x == 30000
        && crate::spawner::SPAWN_Y_MIN <= c.pos.y < crate::spawner::SPAWN_Y_MAX)
    ||| (c.direction == CovidDirection::Left && c.pos.x == 570000
        && crate::spawner::SPAWN_Y_MIN <= c.pos.y < crate::spawner::SPAWN_Y_MAX)
}

/// Draws a fresh covid cell on a randomly chosen screen edge, at a random
/// point of it, drifting inward.
pub fn draw_covid_spawn(rng: &mut rand::rngs::ThreadRng) -> (cell: CovidCellComponent)
    ensures
        covid_spawn_ok(cell),
{
    let choice = rand_range(rng, 0, 4);
    if choice == 0 {
        let x = rand_range(rng, crate::spawner::SPAWN_X_MIN, crate::spawner::SPAWN_X_MAX) as i64;
        CovidCellComponent { pos: Pos { x, y: 120000 }, direction: CovidDirection::Up }
    } else if choice == 1 {
        let x = rand_range(rng, crate::spawner::SPAWN_X_MIN, crate::spawner::SPAWN_X_MAX) as i64;
        CovidCellComponent { pos: Pos { x, y: 480000 }, direction: CovidDirection::Down }
    } else if choice == 2 {
        let y = rand_range(rng, crate::spawner::SPAWN_Y_MIN, crate::spawner::SPAWN_Y_MAX) as i64;
        CovidCellComponent { pos: Pos { x: 30000, y }, direction: CovidDirection::Right }
    } else {
        let y = rand_range(rng, crate::spawner::SPAWN_Y_MIN, crate::spawner::SPAWN_Y_MAX) as i64;
        CovidCellComponent { pos: Pos { x: 570000, y }, direction: CovidDirection::Left }
    }
}

/// The deterministic placement rule for a drawn covid cell: it joins the
/// world exactly when the frame is a spawn frame and the drawn position
/// does not land on the player; a rejected draw abandons the whole spawn
/// tick.
pub fn try_place_covid_cell(
    cells: &mut Vec<CovidCellComponent>,
    cell: CovidCellComponent,
    frame_number: u64,
    player: Pos,
)
    requires
        in_bounds(player),
        covid_spawn_ok(cell),
        old(cells)@.len() + 1 <= usize::MAX,
    ensures
        (frame_number % COVID_SPAWN_INTERVAL_FRAMES == 0 && !collides(
            player,
            cell.pos,
            (PLAYER_HEIGHT_AND_WIDTH + COVID_HEIGHT_AND_WIDTH) / 2,
        )) ==> final(cells)@ == old(cells)@.push(cell),
        !(frame_number % COVID_SPAWN_INTERVAL_FRAMES == 0 && !collides(
            player,
            cell.pos,
            (PLAYER_HEIGHT_AND_WIDTH + COVID_HEIGHT_AND_WIDTH) / 2,
        )) ==> *final(cells) == *old(cells),
{
    if frame_number % COVID_SPAWN_INTERVAL_FRAMES != 0 {
        return ;
    }
    if crate::collision::distance_within(
        player,
        cell.pos,
        (PLAYER_HEIGHT_AND_WIDTH + COVID_HEIGHT_AND_WIDTH) / 2,
    ) {
        return ;
    }
    cells.push(cell);
}

/// Frame-gated covid cell spawning: on frames that are whole multiples of
/// the spawn interval, one cell appears at a random point of a randomly
/// chosen screen edge, drifting inward — unless the drawn position lands
/// on the player, which abandons the whole spawn tick
/// (`try_place_covid_cell` has the exact rule).  On any other frame
/// nothing changes.
pub fn spawn_covid_cell(
    cells: &mut Vec<CovidCellComponent>,
    frame_number: u64,
    player: Pos,
    rng: &mut rand::rngs::ThreadRng,
)
    requires
        in_bounds(player),
        old(cells)@.len() + 1 <= usize::MAX,
    ensures
        frame_number % COVID_SPAWN_INTERVAL_FRAMES != 0 ==> *final(cells) == *old(cells),
        *final(cells) == *old(cells) || ({
            &&& final(cells)@.len() == old(cells)@.len() + 1
            &&& final(cells)@.subrange(0, old(cells)@.len() as int) == old(cells)@
            &&& covid_spawn_ok(final(cells)@.last())
            &&& !collides(
                player,
                final(cells)@.last().pos,
                (PLAYER_HEIGHT_AND_WIDTH + COVID_HEIGHT_AND_WIDTH) / 2,
            )
        }),
{
    let cell = draw_covid_spawn(rng);
    let ghost pre = cells@;
    try_place_covid_cell(cells, cell, frame_number, player);
    proof {
        if cells@ != pre {
            assert(cells@.subrange(0, pre.len() as int) =~= pre);
            assert(cells@.last() == cell);
        }
    }
}

/// The deterministic placement rule for a drawn health pack position: the
/// pack joins the world exactly when the frame is a spawn frame and the
/// position does not land on the player; a rejected draw abandons the
/// whole spawn tick.
pub fn try_place_health_pack(
    packs: &mut Vec<HealthPackComponent>,
    pos: Pos,
    frame_number: u64,
    player: Pos,
)
    requires
        in_bounds(player),
        crate::spawner::in_spawn_rect(pos),
        old(packs)@.len() + 1 <= usize::MAX,
    ensures
        (frame_number % HEALTH_PACK_SPAWN_INTERVAL_FRAMES == 0 && !collides(
            player,
            pos,
            (PLAYER_HEIGHT_AND_WIDTH + HEALTH_PACK_HEIGHT_AND_WIDTH) / 2,
        )) ==> final(packs)@ == old(packs)@.push(HealthPackComponent { pos }),
        !(frame_number % HEALTH_PACK_SPAWN_INTERVAL_FRAMES == 0 && !collides(
            player,
            pos,
            (PLAYER_HEIGHT_AND_WIDTH + HEALTH_PACK_HEIGHT_AND_WIDTH) / 2,
        )) ==> *final(packs) == *old(packs),
{
    if frame_number % HEALTH_PACK_SPAWN_INTERVAL_FRAMES != 0 {
        return ;
    }
    if crate::collision::distance_within(
        player,
        pos,
        (PLAYER_HEIGHT_AND_WIDTH + HEALTH_PACK_HEIGHT_AND_WIDTH) / 2,
    ) {
        return ;
    }
    packs.push(HealthPackComponent { pos });
}

/// Frame-gated health pack spawning: on frames that are whole multiples
/// of the spawn interval, one pack appears at a random position in the
/// spawn rectangle — unless the drawn position lands on the player, which
/// abandons the whole spawn tick (`try_place_health_pack` has the exact
/// rule).  On any other frame nothing changes.
pub fn spawn_health_pack(
    packs: &mut Vec<HealthPackComponent>,
    frame_number: u64,
    player: Pos,
    rng: &mut rand::rngs::ThreadRng,
)
    requires
        in_bounds(player),
        old(packs)@.len() + 1 <= usize::MAX,
    ensures
        frame_number % HEALTH_PACK_SPAWN_INTERVAL_FRAMES != 0 ==> *final(packs) == *old(packs),
        *final(packs) == *old(packs) || ({
            &&& final(packs)@.len() == old(packs)@.len() + 1
            &&& final(packs)@.subrange(0, old(packs)@.len() as int) == old(packs)@
            &&& crate::spawner::in_spawn_rect(final(packs)@.last().pos)
            &&& !collides(
                player,
                final(packs)@.last().pos,
                (PLAYER_HEIGHT_AND_WIDTH + HEALTH_PACK_HEIGHT_AND_WIDTH) / 2,
            )
        }),
{
    let x = rand_range(rng, crate::spawner::SPAWN_X_MIN, crate::spawner::SPAWN_X_MAX) as i64;
    let y = rand_range(rng, crate::spawner::SPAWN_Y_MIN, crate::spawner::SPAWN_Y_MAX) as i64;
    let pos = Pos { x, y };
    let ghost pre = packs@;
    try_place_health_pack(packs, pos, frame_number, player);
    proof {
        if packs@ != pre {
            assert(packs@.subrange(0, pre.len() as int) =~= pre);
            assert(packs@.last() == (HealthPackComponent { pos }));
        }
    }
}

/// Frame-gated super spreader spawning: on frames that are whole
/// multiples of the spawn interval, at least one and fewer than
/// `2 + elapsed/40s` spreaders appear at random positions in the spawn
/// rectangle (positions near the player are redrawn up to the retry
/// budget), each expiring between sixty and just under six hundred and
/// forty frames ahead.  On any other frame nothing changes.
pub fn spawn_spreaders(
    spreaders: &mut Vec<SuperSpreaderComponent>,
    frame_number: u64,
    elapsed_ms: u64,
    player: Pos,
    rng: &mut rand::rngs::ThreadRng,
)
    requires
        in_bounds(player),
        elapsed_ms <= 1000000000,
        frame_number < FRAME_LIMIT - 1000,
        old(spreaders)@.len() + 25002 <= usize::MAX,
    ensures
        frame_number % SPREADER_SPAWN_INTERVAL_FRAMES != 0 ==> *final(spreaders) == *old(
            spreaders,
        ),
        frame_number % SPREADER_SPAWN_INTERVAL_FRAMES == 0 ==> ({
            let added = final(spreaders)@.len() - old(spreaders)@.len();
            &&& final(spreaders)@.subrange(0, old(spreaders)@.len() as int) == old(spreaders)@
            &&& 1 <= added < 2 + elapsed_ms / 40000
            &&& forall|k: int|
                old(spreaders)@.len() <= k < final(spreaders)@.len() ==> (
                crate::spawner::in_spawn_rect((#[trigger] final(spreaders)@[k]).pos)
                    && frame_number + 60 <= final(spreaders)@[k].expiration_frame < frame_number
                    + 640)
        }),
{
    if frame_number % SPREADER_SPAWN_INTERVAL_FRAMES != 0 {
        return ;
    }
    let hi = 2 + elapsed_ms / 40000;
    let count = rand_range(rng, 1, hi);
    let ghost s0 = spreaders@;
    let mut n: u64 = 0;
    while n < count
        invariant
            in_bounds(player),
            1 <= count < 2 + elapsed_ms / 40000,
            elapsed_ms <= 1000000000,
            frame_number < FRAME_LIMIT - 1000,
            n <= count,
            s0.len() + 25002 <= usize::MAX,
            spreaders@.len() == s0.len() + n,
            spreaders@.subrange(0, s0.len() as int) == s0,
            forall|k: int|
                s0.len() <= k < spreaders@.len() ==> (crate::spawner::in_spawn_rect(
                    (#[trigger] spreaders@[k]).pos,
                ) && frame_number + 60 <= spreaders@[k].expiration_frame < frame_number + 640),
        decreases count - n,
    {
        let ghost pre = spreaders@;
        let pos = sample_spawn_position(
            player,
            (PLAYER_HEIGHT_AND_WIDTH + SPREADER_HEIGHT_AND_WIDTH) / 2,
            rng,
        );
        let life = rand_range(rng, 60, 640);
        spreaders.push(SuperSpreaderComponent { pos, expiration_frame: frame_number + life });
        n = n + 1;
        proof {
            assert(spreaders@.subrange(0, s0.len() as int) =~= pre.subrange(0, s0.len() as int));
        }
    }
}

/// A droplet from the spray bottle: a tenth of the player's height ahead
/// along the facing `(ux, uy)` (in thousandths), thirty pixels to its
/// right, flying ahead at droplet speed, with no age yet.
pub open spec fn spray_droplet(origin: Pos, ux: int, uy: int) -> Droplet {
    Droplet {
        pos: Pos {
            x: crate::player::clamped(
                origin.x + 8 * ux + 30 * uy,
                -COORD_LIMIT as int,
                COORD_LIMIT as int,
            ) as i64,
            y: crate::player::clamped(
                origin.y + 8 * uy - 30 * ux,
                -COORD_LIMIT as int,
                COORD_LIMIT as int,
            ) as i64,
        },
        vx: (crate::wildfires::DROPLET_SPEED * ux) as i64,
        vy: (crate::wildfires::DROPLET_SPEED * uy) as i64,
        ms_alive: 0,
    }
}

/// While the spray bottle is active, one droplet leaves it every frame,
/// from just ahead of the player.
pub fn spawn_spray_droplet(
    droplets: &mut Vec<Droplet>,
    origin: Pos,
    dir_x_milli: i64,
    dir_y_milli: i64,
)
    requires
        in_bounds(origin),
        -1100 <= dir_x_milli <= 1100,
        -1100 <= dir_y_milli <= 1100,
        old(droplets)@.len() + 1 <= usize::MAX,
    ensures
        final(droplets)@.len() == old(droplets)@.len() + 1,
        final(droplets)@.subrange(0, old(droplets)@.len() as int) == old(droplets)@,
        final(droplets)@.last() == spray_droplet(
            origin,
            dir_x_milli as int,
            dir_y_milli as int,
        ),
        final(droplets)@.last().wf(),
{
    let ux = dir_x_milli;
    let uy = dir_y_milli;
    proof {
        assert(-110000 <= 8 * ux && 8 * ux <= 110000 && -110000 <= 8 * uy && 8 * uy <= 110000
            && -110000 <= 30 * ux && 30 * ux <= 110000 && -110000 <= 30 * uy && 30 * uy
            <= 110000) by (nonlinear_arith)
            requires
                -1100 <= ux <= 1100,
                -1100 <= uy <= 1100,
        ;
    }
    let d = Droplet {
        pos: Pos {
            x: bound(origin.x + 8 * ux + 30 * uy, -COORD_LIMIT, COORD_LIMIT),
            y: bound(origin.y + 8 * uy - 30 * ux, -COORD_LIMIT, COORD_LIMIT),
        },
        vx: crate::wildfires::DROPLET_SPEED * ux,
        vy: crate::wildfires::DROPLET_SPEED * uy,
        ms_alive: 0,
    };
    let ghost pre = droplets@;
    droplets.push(d);
    proof {
        assert(droplets@.subrange(0, pre.len() as int) =~= pre);
    }
}

/// One pass of spray droplets over the covid cells, in order: each cell
/// hit by a droplet dies and spends that droplet (the first one within
/// their summed half-extents); the rest stay.
pub open spec fn cell_spray_sweep(cells: Seq<CovidCellComponent>, droplets: Seq<Droplet>) -> (
    Seq<CovidCellComponent>,
    Seq<Droplet>,
)
    decreases cells.len(),
{
    if cells.len() == 0 {
        (cells, droplets)
    } else {
        let c = cells[0];
        let rest = cells.subrange(1, cells.len() as int);
        match crate::wildfires::first_droplet_hit(
            droplets,
            c.pos,
            (COVID_HEIGHT_AND_WIDTH + crate::wildfires::DROPLET_HEIGHT_AND_WIDTH) / 2,
        ) {
            Some(j) => cell_spray_sweep(rest, droplets.remove(j)),
            None => {
                let t = cell_spray_sweep(rest, droplets);
                (seq![c] + t.0, t.1)
            },
        }
    }
}

/// Resolves this frame's droplet hits on covid cells exactly as
/// `cell_spray_sweep` says.
pub fn droplet_cell_collisions(cells: &mut Vec<CovidCellComponent>, droplets: &mut Vec<Droplet>)
    requires
        forall|k: int| 0 <= k < old(cells)@.len() ==> in_bounds((#[trigger] old(cells)@[k]).pos),
        forall|k: int| 0 <= k < old(droplets)@.len() ==> (#[trigger] old(droplets)@[k]).wf(),
    ensures
        ({
            let t = cell_spray_sweep(old(cells)@, old(droplets)@);
            final(cells)@ == t.0 && final(droplets)@ == t.1
        }),
        forall|k: int| 0 <= k < final(cells)@.len() ==> in_bounds((#[trigger] final(cells)@[k]).pos),
        forall|k: int| 0 <= k < final(droplets)@.len() ==> (#[trigger] final(droplets)@[k]).wf(),
{
    let ghost c0 = cells@;
    let ghost dr0 = droplets@;
    let mut out: Vec<CovidCellComponent> = Vec::new();
    proof {
        assert(c0.subrange(0, c0.len() as int) =~= c0);
        let t0 = cell_spray_sweep(c0, dr0);
        assert(Seq::<CovidCellComponent>::empty() + t0.0 =~= t0.0);
    }
    let mut i: usize = 0;
    while i < cells.len()
        invariant
            cells@ == c0,
            i <= c0.len(),
            forall|k: int| 0 <= k < c0.len() ==> in_bounds((#[trigger] c0[k]).pos),
            forall|k: int| 0 <= k < droplets@.len() ==> (#[trigger] droplets@[k]).wf(),
            forall|k: int| 0 <= k < out@.len() ==> in_bounds((#[trigger] out@[k]).pos),
            ({
                let t = cell_spray_sweep(c0, dr0);
                let rem = cell_spray_sweep(c0.subrange(i as int, c0.len() as int), droplets@);
                &&& t.0 == out@ + rem.0
                &&& t.1 == rem.1
            }),
        decreases c0.len() - i,
    {
        proof {
            let cur = c0.subrange(i as int, c0.len() as int);
            assert(cur.len() > 0);
            assert(cur[0] == c0[i as int]);
            assert(cur.subrange(1, cur.len() as int) =~= c0.subrange(
                i as int + 1,
                c0.len() as int,
            ));
        }
        let c = cells[i];
        let ghost drc = droplets@;
        match crate::wildfires::find_first_droplet_hit(
            droplets,
            c.pos,
            (COVID_HEIGHT_AND_WIDTH + crate::wildfires::DROPLET_HEIGHT_AND_WIDTH) / 2,
        ) {
            Some(j) => {
                let _ = droplets.remove(j);
                proof {
                    assert(droplets@ == drc.remove(j as int));
                    assert(droplets@ =~= drc.subrange(0, j as int) + drc.subrange(
                        j as int + 1,
                        drc.len() as int,
                    ));
                    assert forall|k: int|
                        0 <= k < droplets@.len() implies (#[trigger] droplets@[k]).wf() by {
                        if k < j {
                            assert(droplets@[k] == drc[k]);
                        } else {
                            assert(droplets@[k] == drc[k + 1]);
                        }
                    }
                }
            },
            None => {
                out.push(c);
                proof {
                    let rem_next = cell_spray_sweep(
                        c0.subrange(i as int + 1, c0.len() as int),
                        droplets@,
                    );
                    assert(out@ + rem_next.0 =~= out@.drop_last() + (seq![c] + rem_next.0));
                }
            },
        }
        i += 1;
    }
    proof {
        assert(c0.subrange(c0.len() as int, c0.len() as int).len() == 0);
        let t = cell_spray_sweep(c0, dr0);
        assert(t.0 =~= out@);
    }
    *cells = out;
}

/// One pass of spray droplets over the super spreaders, in order: each
/// spreader hit by a droplet dies and spends that droplet; the rest stay.
pub open spec fn spreader_spray_sweep(
    spreaders: Seq<SuperSpreaderComponent>,
    droplets: Seq<Droplet>,
) -> (Seq<SuperSpreaderComponent>, Seq<Droplet>)
    decreases spreaders.len(),
{
    if spreaders.len() == 0 {
        (spreaders, droplets)
    } else {
        let s = spreaders[0];
        let rest = spreaders.subrange(1, spreaders.len() as int);
        match crate::wildfires::first_droplet_hit(
            droplets,
            s.pos,
            (SPREADER_HEIGHT_AND_WIDTH + crate::wildfires::DROPLET_HEIGHT_AND_WIDTH) / 2,
        ) {
            Some(j) => spreader_spray_sweep(rest, droplets.remove(j)),
            None => {
                let t = spreader_spray_sweep(rest, droplets);
                (seq![s] + t.0, t.1)
            },
        }
    }
}

/// Resolves this frame's droplet hits on super spreaders exactly as
/// `spreader_spray_sweep` says.
pub fn droplet_spreader_collisions(
    spreaders: &mut Vec<SuperSpreaderComponent>,
    droplets: &mut Vec<Droplet>,
)
    requires
        forall|k: int|
            0 <= k < old(spreaders)@.len() ==> in_bounds((#[trigger] old(spreaders)@[k]).pos),
        forall|k: int| 0 <= k < old(droplets)@.len() ==> (#[trigger] old(droplets)@[k]).wf(),
    ensures
        ({
            let t = spreader_spray_sweep(old(spreaders)@, old(droplets)@);
            final(spreaders)@ == t.0 && final(droplets)@ == t.1
        }),
        forall|k: int|
            0 <= k < final(spreaders)@.len() ==> in_bounds((#[trigger] final(spreaders)@[k]).pos),
        forall|k: int| 0 <= k < final(droplets)@.len() ==> (#[trigger] final(droplets)@[k]).wf(),
{
    let ghost s0 = spreaders@;
    let ghost dr0 = droplets@;
    let mut out: Vec<SuperSpreaderComponent> = Vec::new();
    proof {
        assert(s0.subrange(0, s0.len() as int) =~= s0);
        let t0 = spreader_spray_sweep(s0, dr0);
        assert(Seq::<SuperSpreaderComponent>::empty() + t0.0 =~= t0.0);
    }
    let mut i: usize = 0;
    while i < spreaders.len()
        invariant
            spreaders@ == s0,
            i <= s0.len(),
            forall|k: int| 0 <= k < s0.len() ==> in_bounds((#[trigger] s0[k]).pos),
            forall|k: int| 0 <= k < droplets@.len() ==> (#[trigger] droplets@[k]).wf(),
            forall|k: int| 0 <= k < out@.len() ==> in_bounds((#[trigger] out@[k]).pos),
            ({
                let t = spreader_spray_sweep(s0, dr0);
                let rem = spreader_spray_sweep(s0.subrange(i as int, s0.len() as int), droplets@);
                &&& t.0 == out@ + rem.0
                &&& t.1 == rem.1
            }),
        decreases s0.len() - i,
    {
        proof {
            let cur = s0.subrange(i as int, s0.len() as int);
            assert(cur.len() > 0);
            assert(cur[0] == s0[i as int]);
            assert(cur.subrange(1, cur.len() as int) =~= s0.subrange(
                i as int + 1,
                s0.len() as int,
            ));
        }
        let s = spreaders[i];
        let ghost drc = droplets@;
        match crate::wildfires::find_first_droplet_hit(
            droplets,
            s.pos,
            (SPREADER_HEIGHT_AND_WIDTH + crate::wildfires::DROPLET_HEIGHT_AND_WIDTH) / 2,
        ) {
            Some(j) => {
                let _ = droplets.remove(j);
                proof {
                    assert(droplets@ == drc.remove(j as int));
                    assert(droplets@ =~= drc.subrange(0, j as int) + drc.subrange(
                        j as int + 1,
                        drc.len() as int,
                    ));
                    assert forall|k: int|
                        0 <= k < droplets@.len() implies (#[trigger] droplets@[k]).wf() by {
                        if k < j {
                            assert(droplets@[k] == drc[k]);
                        } else {
                            assert(droplets@[k] == drc[k + 1]);
                        }
                    }
                }
            },
            None => {
                out.push(s);
                proof {
                    let rem_next = spreader_spray_sweep(
                        s0.subrange(i as int + 1, s0.len() as int),
                        droplets@,
                    );
                    assert(out@ + rem_next.0 =~= out@.drop_last() + (seq![s] + rem_next.0));
                }
            },
        }
        i += 1;
    }
    proof {
        assert(s0.subrange(s0.len() as int, s0.len() as int).len() == 0);
        let t = spreader_spray_sweep(s0, dr0);
        assert(t.0 =~= out@);
    }
    *spreaders = out;
}

/// One frame of the covid level bookkeeping: the clock advances, the
/// score is the elapsed whole seconds, and the level ends once health has
/// run out.
pub fn update_covid_level(
    state: &CovidStateResource,
    seconds: &mut LevelSecondsResource,
    score: &mut CurrentLevelScoreResource,
    dt_ms: u32,
) -> (r: Transition)
    requires
        old(seconds).elapsed_ms + dt_ms <= u64::MAX,
    ensures
        final(seconds).elapsed_ms == old(seconds).elapsed_ms + dt_ms,
        final(score).score == final(seconds).elapsed_ms / 1000,
        r == (if state.current_health == 0 {
            Transition::ToMainMenu
        } else {
            Transition::Stay
        }),
{
    seconds.elapsed_ms = seconds.elapsed_ms + (dt_ms as u64);
    score.score = seconds.seconds();
    if state.current_health == 0 {
        Transition::ToMainMenu
    } else {
        Transition::Stay
    }
}

/// The covid level's movement step for one frame: the speed scaled by the
/// frame time.
pub fn covid_move_step(dt_ms: u32) -> (r: i64)
    ensures
        r == MOVEMENT_SPEED / 1000 * dt_ms,
{
    proof {
        assert(0 <= MOVEMENT_SPEED / 1000 * (dt_ms as int) <= 140 * 4294967295)
            by (nonlinear_arith)
            requires
                0 <= dt_ms <= 4294967295,
        ;
    }
    MOVEMENT_SPEED / 1000 * (dt_ms as i64)
}

/// The covid level's rotation step for one frame.
pub fn covid_rotation_step(dt_ms: u32) -> (r: i64)
    ensures
        r == crate::mul_div_1000_spec(ROTATION_SPEED as int, dt_ms as int),
{
    crate::mul_then_div_1000(ROTATION_SPEED, dt_ms as i64)
}

/// The covid level's ability roster: a mask that shields for five seconds
/// and a spray bottle that fires droplets for seven, both charging in
/// seventeen seconds, both starting fully charged.
pub fn covid_ability_roster() -> (r: Vec<Ability>)
    ensures
        r@.len() == 2,
        r@[0].info == (crate::abilities::AbilityInfo {
            seconds_to_charge: 17,
            duration: Some(5u32),
            ability_type: AbilityType::Mask,
            max_uses: None,
        }),
        r@[1].info == (crate::abilities::AbilityInfo {
            seconds_to_charge: 17,
            duration: Some(7u32),
            ability_type: AbilityType::SprayBottle,
            max_uses: None,
        }),
        forall|i: int| 0 <= i < 2 ==> (#[trigger] r@[i]).wf(false),
        forall|i: int|
            0 <= i < 2 ==> (#[trigger] r@[i]).current_state.progress_ms
                == r@[i].info.charge_ms_spec() && r@[i].current_state.uses == 0,
{
    let mask_info = crate::abilities::AbilityInfo {
        seconds_to_charge: 17,
        duration: Some(5u32),
        ability_type: AbilityType::Mask,
        max_uses: None,
    };
    let spray_info = crate::abilities::AbilityInfo {
        seconds_to_charge: 17,
        duration: Some(7u32),
        ability_type: AbilityType::SprayBottle,
        max_uses: None,
    };
    let mut r: Vec<Ability> = Vec::new();
    let mask_state = crate::abilities::AbilityState::default(&mask_info);
    r.push(Ability { info: mask_info, current_state: mask_state });
    let spray_state = crate::abilities::AbilityState::default(&spray_info);
    r.push(Ability { info: spray_info, current_state: spray_state });
    r
}

} // verus!
