use crate::high_scores::{
    update_high_score_if_greater, CurrentLevelScoreResource, HighScoresResource, LevelKey,
};
use vstd::prelude::*;

verus! {

/// What a level or menu asks the session to do after a frame.
#[derive(Clone, Copy, PartialEq, Eq, Structural, Debug)]
pub enum Transition {
    /// Keep running the current screen.
    Stay,
    /// Replace the current screen with the main menu.
    ToMainMenu,
    /// Replace the current screen with the chosen level.
    ToLevel(LevelKey),
}

/// The screen the session shows.
#[derive(Clone, Copy, PartialEq, Eq, Structural, Debug)]
pub enum Screen {
    MainMenu,
    Level(LevelKey),
}

/// The session's menu/level stack is one screen deep: a transition either
/// keeps it or replaces it.
pub fn apply_transition(screen: Screen, t: Transition) -> (r: Screen)
    ensures
        t is Stay ==> r == screen,
        t is ToMainMenu ==> r == Screen::MainMenu,
        t is ToLevel ==> r == Screen::Level(t->ToLevel_0),
{
    match t {
        Transition::Stay => screen,
        Transition::ToMainMenu => Screen::MainMenu,
        Transition::ToLevel(k) => Screen::Level(k),
    }
}

/// What the main menu does with a click: a level button starts its level,
/// any other click is ignored.
pub fn handle_menu_click(clicked_level: Option<LevelKey>) -> (t: Transition)
    ensures
        clicked_level is Some ==> t == Transition::ToLevel(clicked_level->Some_0),
        clicked_level is None ==> t == Transition::Stay,
{
    match clicked_level {
        Some(k) => Transition::ToLevel(k),
        None => Transition::Stay,
    }
}

/// The escape key ends the level at once, whatever its state; otherwise
/// nothing happens.
pub fn return_to_main_menu_on_escape(escape_down: bool) -> (t: Transition)
    ensures
        t == (if escape_down {
            Transition::ToMainMenu
        } else {
            Transition::Stay
        }),
{
    if escape_down {
        Transition::ToMainMenu
    } else {
        Transition::Stay
    }
}

/// The wall-clock time a level has been running.
#[derive(Clone, Copy, PartialEq, Eq, Structural, Debug)]
pub struct LevelSecondsResource {
    pub elapsed_ms: u64,
}

impl Default for LevelSecondsResource {
    fn default() -> (r: Self)
        ensures
            r.elapsed_ms == 0,
    {
        LevelSecondsResource { elapsed_ms: 0 }
    }
}

impl LevelSecondsResource {
    /// Whole seconds elapsed.
    pub fn seconds(&self) -> (r: u64)
        ensures
            r == self.elapsed_ms / 1000,
    {
        self.elapsed_ms / 1000
    }
}

/// Whether the timer text has to be redrawn after the timer moved from
/// `old_ms` to `new_ms`: the display shows tenths of a second, and it is
/// redrawn when the rounded tenths pass the whole second the old value
/// rounded into.
pub fn timer_text_should_refresh(old_ms: u64, new_ms: u64) -> (r: bool)
    requires
        old_ms <= 1000000000000,
        new_ms <= 1000000000000,
    ensures
        r == ((new_ms + 50) / 100 > 10 * (((old_ms + 50) / 100) / 10)),
{
    let new_tenths = (new_ms + 50) / 100;
    let old_whole = ((old_ms + 50) / 100) / 10;
    new_tenths > 10 * old_whole
}

/// Advances a timed level's clock by `dt_ms` and settles the level when its
/// time was already up before this frame: the stored best for `key` is
/// raised to the level's score when that beats it (in which case the caller
/// persists the table), and the session goes back to the main menu.
/// Returns the transition and whether the table has to be persisted.
pub fn update_timer_and_set_high_score(
    elapsed_ms: &mut u64,
    dt_ms: u32,
    max_ms: u64,
    score: &CurrentLevelScoreResource,
    scores: &mut HighScoresResource,
    key: LevelKey,
) -> (r: (Transition, bool))
    requires
        *old(elapsed_ms) + dt_ms <= u64::MAX,
        old(scores).wf(),
    ensures
        *final(elapsed_ms) == *old(elapsed_ms) + dt_ms,
        final(scores).wf(),
        r.0 == (if *old(elapsed_ms) >= max_ms {
            Transition::ToMainMenu
        } else {
            Transition::Stay
        }),
        *old(elapsed_ms) >= max_ms ==> {
            &&& r.1 == (score.score > old(scores).score_spec(key))
            &&& (r.1 ==> final(scores).score_spec(key) == score.score)
            &&& (r.1 ==> forall|k2: LevelKey|
                k2 != key ==> final(scores).score_spec(k2) == old(scores).score_spec(k2))
            &&& (!r.1 ==> *final(scores) == *old(scores))
        },
        *old(elapsed_ms) < max_ms ==> (*final(scores) == *old(scores) && r.1 == false),
{
    let level_is_over = *elapsed_ms >= max_ms;
    *elapsed_ms = *elapsed_ms + (dt_ms as u64);
    if level_is_over {
        let persisted = update_high_score_if_greater(scores, key, score.score);
        (Transition::ToMainMenu, persisted)
    } else {
        (Transition::Stay, false)
    }
}

} // verus!
