pub mod abilities;
pub mod ability_bar;
pub mod collision;
pub mod covid;
pub mod high_scores;
pub mod hornets;
pub mod player;
pub mod rng;
pub mod spawner;
pub mod states;
pub mod wildfires;

use vstd::prelude::*;

verus! {

/// Frames rendered per second; frame-based timers assume this fixed rate.
pub const FRAME_RATE: u64 = 60;

/// True on the frames on which a periodic action whose period is
/// `interval_frames` is due: the frame number is a whole multiple of the
/// interval.
pub fn every_n_frames(frame_number: u64, interval_frames: u64) -> (due: bool)
    requires
        interval_frames > 0,
    ensures
        due == (frame_number % interval_frames == 0),
{
    frame_number % interval_frames == 0
}

/// `a * b / 1000` with the division rounding toward zero, as the machine
/// division does.
pub open spec fn mul_div_1000_spec(a: int, b: int) -> int {
    if a * b >= 0 {
        (a * b) / 1000
    } else {
        -((-(a * b)) / 1000)
    }
}

/// Scales `a * b` down by 1000 — the step from a velocity in thousandths
/// of a pixel per second and a time in milliseconds to a distance in
/// thousandths of a pixel, and from a direction in thousandths to a
/// projected length.
pub fn mul_then_div_1000(a: i64, b: i64) -> (r: i64)
    requires
        -2000000 <= a <= 2000000,
        -2000000000000 <= b <= 2000000000000,
    ensures
        r == mul_div_1000_spec(a as int, b as int),
{
    proof {
        assert(-4000000000000000000 <= a * b <= 4000000000000000000) by (nonlinear_arith)
            requires
                -2000000 <= a <= 2000000,
                -2000000000000 <= b <= 2000000000000,
        ;
    }
    let p = a * b;
    if p >= 0 {
        p / 1000
    } else {
        -((-p) / 1000)
    }
}

/// Clamp `value` into the closed interval `[lo, hi]`.
pub fn bound(value: i64, lo: i64, hi: i64) -> (r: i64)
    requires
        lo <= hi,
    ensures
        r == (if value < lo {
            lo
        } else if value > hi {
            hi
        } else {
            value
        }),
        lo <= r <= hi,
{
    if value < lo {
        lo
    } else if value > hi {
        hi
    } else {
        value
    }
}

} // verus!
