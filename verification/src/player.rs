use crate::bound;
use crate::collision::{in_bounds, Pos, COORD_LIMIT};
use vstd::prelude::*;

verus! {

/// Magnitude bound on rotation values; far beyond what any session reaches,
/// it keeps the unclamped rotation arithmetic within `i64`.
pub const ROTATION_LIMIT: i64 = 1000000000000;

/// The one player of a running level: a position in the arena and an
/// unclamped rotation.
#[derive(Clone, Copy, PartialEq, Eq, Structural, Debug)]
pub struct PlayerEntity {
    pub pos: Pos,
    /// Rotation in thousandths of a radian; grows without bound under the
    /// rotation keys.
    pub rotation_millirad: i64,
}

/// The digital movement input of one frame.
#[derive(Clone, Copy, PartialEq, Eq, Structural, Debug, Default)]
pub struct MovementInput {
    pub up: bool,
    pub down: bool,
    pub left: bool,
    pub right: bool,
    pub rotate_left: bool,
    pub rotate_right: bool,
}

pub open spec fn clamped(v: int, lo: int, hi: int) -> int {
    if v < lo {
        lo
    } else if v > hi {
        hi
    } else {
        v
    }
}

/// One axis value after a single movement key: its fixed step applied and
/// clamped into the arena bounds when the key is held, unchanged when not.
pub open spec fn stepped_once(v: int, delta: int, key: bool, lo: int, hi: int) -> int {
    if key {
        clamped(v + delta, lo, hi)
    } else {
        v
    }
}

/// The rotation after this frame's keys: each held rotation key adds its
/// fixed angular step, without any clamping to a full turn.
pub open spec fn stepped_rotation(rot: int, rot_step: int, left: bool, right: bool) -> int {
    let r1 = if left {
        rot - rot_step
    } else {
        rot
    };
    if right {
        r1 + rot_step
    } else {
        r1
    }
}

/// Adds `delta` to `value` and clamps the result into `[lo, hi]` — the
/// bounded translation step used for every movement key.
pub fn bound_prepend(value: i64, delta: i64, lo: i64, hi: i64) -> (r: i64)
    requires
        lo <= hi,
        -2 * COORD_LIMIT <= value <= 2 * COORD_LIMIT,
        -2 * COORD_LIMIT <= delta <= 2 * COORD_LIMIT,
    ensures
        r == clamped(value + delta, lo as int, hi as int),
{
    bound(value + delta, lo, hi)
}

/// Applies one frame of digital movement input: fixed-speed translation
/// along each axis independently (diagonal movement is not normalised),
/// each step clamped into the arena bounds, and a fixed, unclamped angular
/// step for each held rotation key.  No velocity is kept between frames.
pub fn apply_movement(
    player: &mut PlayerEntity,
    input: MovementInput,
    move_step: i64,
    rot_step: i64,
    lo_x: i64,
    hi_x: i64,
    lo_y: i64,
    hi_y: i64,
)
    requires
        lo_x <= hi_x,
        lo_y <= hi_y,
        -COORD_LIMIT <= lo_x && hi_x <= COORD_LIMIT,
        -COORD_LIMIT <= lo_y && hi_y <= COORD_LIMIT,
        in_bounds(old(player).pos),
        0 <= move_step <= COORD_LIMIT,
        0 <= rot_step <= 1000000,
        -ROTATION_LIMIT <= old(player).rotation_millirad <= ROTATION_LIMIT,
    ensures
        final(player).pos.x == stepped_once(
            stepped_once(
                old(player).pos.x as int,
                -move_step as int,
                input.left,
                lo_x as int,
                hi_x as int,
            ),
            move_step as int,
            input.right,
            lo_x as int,
            hi_x as int,
        ),
        final(player).pos.y == stepped_once(
            stepped_once(
                old(player).pos.y as int,
                move_step as int,
                input.up,
                lo_y as int,
                hi_y as int,
            ),
            -move_step as int,
            input.down,
            lo_y as int,
            hi_y as int,
        ),
        final(player).rotation_millirad == stepped_rotation(
            old(player).rotation_millirad as int,
            rot_step as int,
            input.rotate_left,
            input.rotate_right,
        ),
        lo_x <= final(player).pos.x <= hi_x || (!input.right && !input.left && final(player).pos.x
            == old(player).pos.x),
        lo_y <= final(player).pos.y <= hi_y || (!input.up && !input.down && final(player).pos.y
            == old(player).pos.y),
{
    if input.up {
        player.pos.y = bound_prepend(player.pos.y, move_step, lo_y, hi_y);
    }
    if input.down {
        player.pos.y = bound_prepend(player.pos.y, -move_step, lo_y, hi_y);
    }
    if input.left {
        player.pos.x = bound_prepend(player.pos.x, -move_step, lo_x, hi_x);
    }
    if input.right {
        player.pos.x = bound_prepend(player.pos.x, move_step, lo_x, hi_x);
    }
    if input.rotate_left {
        player.rotation_millirad = player.rotation_millirad - rot_step;
    }
    if input.rotate_right {
        player.rotation_millirad = player.rotation_millirad + rot_step;
    }
}

} // verus!
