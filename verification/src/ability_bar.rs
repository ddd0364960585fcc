use crate::abilities::{
    contains_index, expires, remove_first_found_item, remove_first_value, lemma_remove_first_value_dupfree, tick_spec, update_progress_bar,
    use_ability, used_ability, Ability, AbilitiesResource, AbilityType,
};
use vstd::prelude::*;

verus! {

/// Side length of an ability frame, in pixels.
pub const ABILITY_FRAME_HEIGHT_AND_WIDTH: u64 = 52;

/// Width of a fully charged progress bar, in pixels.
pub const PROGRESS_BAR_MAX_WIDTH: u64 = 47;

pub const PROGRESS_BAR_HEIGHT: u64 = 7;

/// The extra spacing between ability frames, in pixels.
pub const ABILITY_FRAME_SPACING: u64 = 10;

/// Links a progress-bar widget to the ability it displays.
#[derive(Clone, Copy, PartialEq, Eq, Structural, Debug)]
pub struct ProgressBar {
    pub ability_index: usize,
    /// Horizontal centre of the bar's frame, in pixels from the left edge.
    pub x_offset: u64,
}

/// Horizontal offset of the first ability frame so that the row of frames
/// sits centred on the screen: half of what is left of the width after the
/// other frames and their spacing.
pub fn ability_bar_base_offset(screen_width: u64, n_abilities: u64) -> (r: u64)
    requires
        1 <= n_abilities <= 1000000,
        (n_abilities - 1) * (ABILITY_FRAME_HEIGHT_AND_WIDTH + ABILITY_FRAME_SPACING)
            <= screen_width,
    ensures
        r == (screen_width - (n_abilities - 1) * (ABILITY_FRAME_HEIGHT_AND_WIDTH
            + ABILITY_FRAME_SPACING)) / 2,
{
    let span = (n_abilities - 1) * (ABILITY_FRAME_HEIGHT_AND_WIDTH + ABILITY_FRAME_SPACING);
    (screen_width - span) / 2
}

/// Horizontal centre of the frame of ability number `i`, counted from the
/// base offset: each frame advances by its side length plus the spacing.
pub fn ability_slot_offset(base_offset: u64, i: u64) -> (r: u64)
    requires
        base_offset <= 100000000,
        i <= 1000000,
    ensures
        r == base_offset + i * (ABILITY_FRAME_HEIGHT_AND_WIDTH + ABILITY_FRAME_SPACING),
{
    base_offset + i * (ABILITY_FRAME_HEIGHT_AND_WIDTH + ABILITY_FRAME_SPACING)
}

/// Width of a progress bar in thousandths of a pixel: the full width scaled
/// by the ability's progress fraction, so the bar empties and fills with
/// the percentage it displays.
pub fn progress_bar_width_millipx(progress_ms: u32, cap_ms: u32) -> (w: u64)
    requires
        1 <= cap_ms,
        progress_ms <= cap_ms,
    ensures
        w == PROGRESS_BAR_MAX_WIDTH * 1000 * (progress_ms as int) / (cap_ms as int),
        w <= PROGRESS_BAR_MAX_WIDTH * 1000,
{
    let scale: u64 = PROGRESS_BAR_MAX_WIDTH * 1000;
    assert(scale == 47000);
    assert(scale * (progress_ms as u64) <= 47000 * 0xffff_ffffu64) by (nonlinear_arith)
        requires
            scale == 47000,
            progress_ms <= 0xffff_ffffu32,
    ;
    let w = scale * (progress_ms as u64) / (cap_ms as u64);
    proof {
        assert(PROGRESS_BAR_MAX_WIDTH * 1000 * (progress_ms as int) / (cap_ms as int)
            <= PROGRESS_BAR_MAX_WIDTH * 1000) by (nonlinear_arith)
            requires
                1 <= cap_ms,
                progress_ms <= cap_ms,
        ;
    }
    w
}

/// Left edge of a progress bar, in thousandths of a pixel: the bar is
/// anchored half its full width left of its frame's centre, so it fills
/// rightward from there.
pub fn progress_bar_left_x_millipx(x_offset_millipx: u64) -> (r: u64)
    requires
        x_offset_millipx >= PROGRESS_BAR_MAX_WIDTH * 1000 / 2,
    ensures
        r == x_offset_millipx - PROGRESS_BAR_MAX_WIDTH * 1000 / 2,
{
    x_offset_millipx - PROGRESS_BAR_MAX_WIDTH * 1000 / 2
}

/// Height of a progress bar's centre above the bottom edge, in thousandths
/// of a pixel: a twentieth of the arena height, less two fifths of an
/// ability frame.
pub fn progress_bar_y_millipx(arena_height_millipx: u64) -> (r: u64)
    requires
        arena_height_millipx / 20 >= ABILITY_FRAME_HEIGHT_AND_WIDTH * 1000 * 2 / 5,
    ensures
        r == arena_height_millipx / 20 - ABILITY_FRAME_HEIGHT_AND_WIDTH * 1000 * 2 / 5,
{
    arena_height_millipx / 20 - ABILITY_FRAME_HEIGHT_AND_WIDTH * 1000 * 2 / 5
}

/// What the ability at index `i` becomes on one frame of the bar, given
/// whether its bar was clicked this frame.
pub open spec fn bar_step_spec(r: AbilitiesResource, i: usize, clicked: bool, dt_ms: u32) -> Ability {
    if clicked {
        if r.ready(i) {
            used_ability(r.available_abilities@[i as int])
        } else {
            r.available_abilities@[i as int]
        }
    } else {
        tick_spec(r.available_abilities@[i as int], r.is_active(i), dt_ms).0
    }
}

/// One frame of the ability bar, as the bar system runs it for every bar:
/// an ability whose bar was clicked is used (a no-op unless it is fully
/// charged and not already active), every other ability advances by
/// `dt_ms`.  The active set afterwards holds exactly the indices that
/// survived (active before, and neither expired on this tick nor clicked)
/// plus the clicked indices that were ready.
pub fn run_ability_bar(abilities: &mut AbilitiesResource, clicked: &Vec<usize>, dt_ms: u32)
    requires
        old(abilities).wf(),
    ensures
        final(abilities).wf(),
        final(abilities).available_abilities@.len() == old(abilities).available_abilities@.len(),
        forall|i: usize|
            i < old(abilities).available_abilities@.len() ==> final(abilities).available_abilities@[i as int] == bar_step_spec(
                *old(abilities),
                i,
                clicked@.contains(i),
                dt_ms,
            ),
        forall|v: usize|
            final(abilities).is_active(v) <==> ((old(abilities).is_active(v) && !(!clicked@.contains(v) && expires(*old(abilities), v, dt_ms)))
                || (v < old(abilities).available_abilities@.len() && clicked@.contains(v) && old(abilities).ready(v))),
{
    let ghost r0 = *old(abilities);
    let n = abilities.available_abilities.len();
    let mut i: usize = 0;
    while i < n
        invariant
            n == r0.available_abilities@.len(),
            i <= n,
            abilities.wf(),
            abilities.available_abilities@.len() == n,
            forall|q: usize|
                q < i ==> abilities.available_abilities@[q as int] == bar_step_spec(
                    r0,
                    q,
                    clicked@.contains(q),
                    dt_ms,
                ),
            forall|q: usize|
                i <= q < n ==> abilities.available_abilities@[q as int]
                    == r0.available_abilities@[q as int],
            forall|v: usize|
                abilities.is_active(v) <==> ((r0.is_active(v) && !(v < i && !clicked@.contains(v)
                    && expires(r0, v, dt_ms))) || (v < i && clicked@.contains(v) && r0.ready(v))),
        decreases n - i,
    {
        let ghost rc = *abilities;
        let was_clicked = contains_index(clicked, i);
        proof {
            assert(rc.is_active(i) == r0.is_active(i));
            assert(rc.available_abilities@[i as int] == r0.available_abilities@[i as int]);
        }
        if was_clicked {
            use_ability(abilities, i);
            proof {
                assert(rc.ready(i) == r0.ready(i));
                let r2 = *abilities;
                if rc.ready(i) {
                    assert forall|v: usize| r2.is_active(v) implies (rc.is_active(v) || v == i) by {
                        let j = choose|j: int|
                            0 <= j < r2.active_abilities@.len() && r2.active_abilities@[j] == v;
                        if j < rc.active_abilities@.len() {
                            assert(rc.active_abilities@[j] == v);
                        }
                    }
                    assert forall|v: usize| rc.is_active(v) implies r2.is_active(v) by {
                        let j = choose|j: int|
                            0 <= j < rc.active_abilities@.len() && rc.active_abilities@[j] == v;
                        assert(r2.active_abilities@[j] == v);
                    }
                    assert(r2.is_active(i)) by {
                        assert(r2.active_abilities@.last() == i);
                    }
                }
            }
        } else {
            proof {
                assert(expires(rc, i, dt_ms) == expires(r0, i, dt_ms));
            }
            update_progress_bar(abilities, i, dt_ms);
            proof {
                let r2 = *abilities;
                if expires(rc, i, dt_ms) {
                    lemma_remove_first_value_dupfree(rc.active_abilities@, i);
                } else {
                    assert(r2.active_abilities@ == rc.active_abilities@);
                }
            }
        }
        i += 1;
    }
}

/// Whether some ability of the given type is currently in the active set.
pub fn ability_type_active(abilities: &AbilitiesResource, t: AbilityType) -> (r: bool)
    requires
        abilities.wf(),
    ensures
        r == exists|i: usize|
            i < abilities.available_abilities@.len() && (
            #[trigger] abilities.available_abilities@[i as int]).info.ability_type == t
                && abilities.is_active(i),
{
    let n = abilities.available_abilities.len();
    let mut i: usize = 0;
    while i < n
        invariant
            abilities.wf(),
            n == abilities.available_abilities@.len(),
            i <= n,
            forall|q: usize|
                q < i ==> !((#[trigger] abilities.available_abilities@[q as int]).info.ability_type
                    == t && abilities.is_active(q)),
        decreases n - i,
    {
        let matches_type = abilities.available_abilities[i].info.ability_type == t;
        if matches_type && contains_index(&abilities.active_abilities, i) {
            return true;
        }
        i += 1;
    }
    false
}

/// Spends an active ability: its charge starts over from zero and its
/// index leaves the active set.  The level systems do this when a one-shot
/// effect (a bucket throw, a swat) has run.
pub fn deactivate_ability(abilities: &mut AbilitiesResource, index: usize)
    requires
        old(abilities).wf(),
        index < old(abilities).available_abilities@.len(),
    ensures
        final(abilities).wf(),
        final(abilities).available_abilities@ == old(abilities).available_abilities@.update(
            index as int,
            old(abilities).available_abilities@[index as int].with_progress(0),
        ),
        final(abilities).active_abilities@ == remove_first_value(
            old(abilities).active_abilities@,
            index,
        ),
{
    let mut a = abilities.available_abilities[index];
    a.current_state.progress_ms = 0;
    abilities.available_abilities[index] = a;
    let _ = remove_first_found_item(&mut abilities.active_abilities, index);
    proof {
        let r2 = *abilities;
        let r0 = *old(abilities);
        lemma_remove_first_value_dupfree(r0.active_abilities@, index);
        assert forall|j: int|
            0 <= j < r2.active_abilities@.len() implies (#[trigger] r2.active_abilities@[j])
                < r2.available_abilities@.len() by {
            let x = r2.active_abilities@[j];
            assert(r2.active_abilities@.contains(x));
            assert(x != index && r0.is_active(x));
            let q = choose|q: int|
                0 <= q < r0.active_abilities@.len() && r0.active_abilities@[q] == x;
            assert(r0.active_abilities@[q] < r0.available_abilities@.len());
        }
        assert forall|i: usize|
            i < r2.available_abilities@.len() implies (
        #[trigger] r2.available_abilities@[i as int]).wf(r2.is_active(i)) by {
            if i == index {
                assert(!r2.is_active(index));
            } else {
                assert(r2.available_abilities@[i as int] == r0.available_abilities@[i as int]);
                assert(r2.is_active(i) == r0.is_active(i));
            }
        }
    }
}

/// Whether an active timed ability is about to expire: under five percent
/// of its duration left.  The level systems then withdraw the ability's
/// on-screen tool (the bucket, the swatter, the hive trap).
pub fn ability_nearly_expired(a: &Ability) -> (r: bool)
    requires
        a.info.wf(),
    ensures
        r == (a.info.duration is Some && 100 * a.current_state.progress_ms < 5
            * a.info.duration_ms_spec()),
{
    match a.info.duration_ms() {
        Some(dur) => 100 * (a.current_state.progress_ms as u64) < 5 * (dur as u64),
        None => false,
    }
}

} // verus!
