use survive2020::abilities::{
    contains_index, remove_first_found_item, tick, update_progress_bar, use_ability,
    AbilitiesResource, Ability, AbilityInfo, AbilityState, AbilityType,
};
use survive2020::ability_bar::{
    ability_bar_base_offset, ability_nearly_expired, ability_slot_offset, ability_type_active,
    deactivate_ability, progress_bar_left_x_millipx, progress_bar_width_millipx,
    progress_bar_y_millipx, run_ability_bar,
};

fn single_ability(info: AbilityInfo, state: AbilityState) -> AbilitiesResource {
    AbilitiesResource::new(vec![Ability {
        info,
        current_state: state,
    }])
}

fn charge_info(seconds: u32) -> AbilityInfo {
    AbilityInfo {
        seconds_to_charge: seconds,
        duration: None,
        ability_type: AbilityType::BugSpray,
        max_uses: None,
    }
}

#[test]
fn charge_strictly_increases_until_full() {
    let info = charge_info(5);
    let mut r = single_ability(info, AbilityState::start_on_cooldown());
    let mut last = 0u32;
    for _ in 0..4 {
        tick(&mut r, 1000);
        let p = r.available_abilities[0].current_state.progress_ms;
        assert!(p > last, "charging must strictly increase");
        last = p;
    }
    assert_eq!(last, 4000);
    tick(&mut r, 1000);
    assert_eq!(r.available_abilities[0].current_state.progress_ms, 5000);
    tick(&mut r, 1000);
    assert_eq!(
        r.available_abilities[0].current_state.progress_ms,
        5000,
        "progress never exceeds full charge"
    );
}

#[test]
fn duration_countdown_reaches_zero_and_leaves_active_set() {
    let info = AbilityInfo {
        seconds_to_charge: 17,
        duration: Some(5),
        ability_type: AbilityType::Mask,
        max_uses: None,
    };
    let mut r = single_ability(info, AbilityState::default(&info));
    use_ability(&mut r, 0);
    assert_eq!(r.available_abilities[0].current_state.uses, 1);
    assert_eq!(
        r.available_abilities[0].current_state.progress_ms,
        5000,
        "activation leaves the ability at full (remaining duration)"
    );
    assert!(contains_index(&r.active_abilities, 0));
    tick(&mut r, 2500);
    assert_eq!(r.available_abilities[0].current_state.progress_ms, 2500);
    assert!(contains_index(&r.active_abilities, 0));
    tick(&mut r, 2500);
    assert_eq!(r.available_abilities[0].current_state.progress_ms, 0);
    assert!(
        !contains_index(&r.active_abilities, 0),
        "the expired ability leaves the active set"
    );
    tick(&mut r, 1000);
    assert_eq!(
        r.available_abilities[0].current_state.progress_ms,
        1000,
        "after expiry further ticks recharge"
    );
}

#[test]
fn max_uses_lockout_is_permanent() {
    let info = AbilityInfo {
        seconds_to_charge: 1,
        duration: None,
        ability_type: AbilityType::BugSpray,
        max_uses: Some(1),
    };
    let mut r = single_ability(info, AbilityState::default(&info));
    use_ability(&mut r, 0);
    assert_eq!(r.available_abilities[0].current_state.uses, 1);
    assert_eq!(r.available_abilities[0].current_state.progress_ms, 0);
    // the level system removes the one-shot effect's index by hand
    let removed = remove_first_found_item(&mut r.active_abilities, 0);
    assert_eq!(removed, Some(0));
    for _ in 0..5 {
        tick(&mut r, 10_000);
        assert_eq!(
            r.available_abilities[0].current_state.progress_ms,
            0,
            "a spent ability is forced to zero no matter how long it charges"
        );
    }
    use_ability(&mut r, 0);
    assert_eq!(
        r.available_abilities[0].current_state.uses,
        1,
        "a spent ability can never be used again"
    );
    assert!(!contains_index(&r.active_abilities, 0));
}

#[test]
fn use_ability_is_noop_unless_fully_charged() {
    let info = charge_info(5);
    let mut r = single_ability(info, AbilityState::start_on_cooldown());
    use_ability(&mut r, 0);
    assert_eq!(r.available_abilities[0].current_state.uses, 0);
    assert!(r.active_abilities.is_empty());
    tick(&mut r, 5000);
    use_ability(&mut r, 0);
    assert_eq!(r.available_abilities[0].current_state.uses, 1);
    assert_eq!(r.available_abilities[0].current_state.progress_ms, 0);
    assert!(contains_index(&r.active_abilities, 0));
}

#[test]
fn use_ability_is_noop_while_already_active() {
    let info = AbilityInfo {
        seconds_to_charge: 5,
        duration: Some(5),
        ability_type: AbilityType::Bucket,
        max_uses: None,
    };
    let mut r = single_ability(info, AbilityState::default(&info));
    use_ability(&mut r, 0);
    assert_eq!(r.available_abilities[0].current_state.uses, 1);
    // charge equals duration here, so the ability still reads as full;
    // being active makes a second use a no-op
    use_ability(&mut r, 0);
    assert_eq!(r.available_abilities[0].current_state.uses, 1);
    assert_eq!(r.active_abilities.len(), 1);
}

#[test]
fn update_progress_bar_steps_one_ability() {
    let info = charge_info(10);
    let mut r = single_ability(info, AbilityState::start_on_cooldown());
    update_progress_bar(&mut r, 0, 250);
    assert_eq!(r.available_abilities[0].current_state.progress_ms, 250);
}

#[test]
fn run_ability_bar_uses_clicked_and_ticks_the_rest() {
    let a = charge_info(5);
    let b = charge_info(10);
    let mut r = AbilitiesResource::new(vec![
        Ability {
            info: a,
            current_state: AbilityState::default(&a),
        },
        Ability {
            info: b,
            current_state: AbilityState::start_on_cooldown(),
        },
    ]);
    run_ability_bar(&mut r, &vec![0], 100);
    assert_eq!(
        r.available_abilities[0].current_state.progress_ms, 0,
        "the clicked, ready ability is used and starts its cooldown"
    );
    assert_eq!(r.available_abilities[0].current_state.uses, 1);
    assert_eq!(
        r.available_abilities[1].current_state.progress_ms, 100,
        "the other ability recharges"
    );
    assert!(contains_index(&r.active_abilities, 0));
}

#[test]
fn deactivate_ability_spends_and_removes() {
    let info = charge_info(5);
    let mut r = single_ability(info, AbilityState::default(&info));
    use_ability(&mut r, 0);
    deactivate_ability(&mut r, 0);
    assert_eq!(r.available_abilities[0].current_state.progress_ms, 0);
    assert!(!contains_index(&r.active_abilities, 0));
}

#[test]
fn ability_type_active_scans_the_active_set() {
    let roster = survive2020::wildfires::wildfires_ability_roster();
    let mut r = AbilitiesResource::new(roster);
    assert!(!ability_type_active(&r, AbilityType::TriShot));
    use_ability(&mut r, 1);
    assert!(ability_type_active(&r, AbilityType::TriShot));
    assert!(!ability_type_active(&r, AbilityType::Bucket));
}

#[test]
fn nearly_expired_is_under_five_percent_of_duration() {
    let info = AbilityInfo {
        seconds_to_charge: 17,
        duration: Some(5),
        ability_type: AbilityType::Mask,
        max_uses: None,
    };
    let fresh = Ability {
        info,
        current_state: AbilityState {
            progress_ms: 250,
            uses: 0,
        },
    };
    assert!(!ability_nearly_expired(&fresh), "five percent exactly is not under");
    let stale = Ability {
        info,
        current_state: AbilityState {
            progress_ms: 249,
            uses: 0,
        },
    };
    assert!(ability_nearly_expired(&stale));
}

#[test]
fn bar_geometry_matches_the_layout_formulas() {
    // three frames of 52 px with 10 px spacing on a 600 px screen
    assert_eq!(ability_bar_base_offset(600, 3), (600 - 2 * 62) / 2);
    assert_eq!(ability_slot_offset(238, 2), 238 + 124);
    // a half-charged bar is half the full width
    assert_eq!(progress_bar_width_millipx(500, 1000), 23_500);
    assert_eq!(progress_bar_width_millipx(1000, 1000), 47_000);
    assert_eq!(progress_bar_width_millipx(0, 1000), 0);
    // the bar is anchored half its full width left of the frame's centre
    assert_eq!(progress_bar_left_x_millipx(238_000), 238_000 - 23_500);
    // on a 600 px screen the bar row sits at 30 px less two fifths of a frame
    assert_eq!(progress_bar_y_millipx(600_000), 30_000 - 20_800);
}

#[test]
fn rosters_match_the_level_definitions() {
    let covid = survive2020::covid::covid_ability_roster();
    assert_eq!(covid.len(), 2);
    assert_eq!(covid[0].info.ability_type, AbilityType::Mask);
    assert_eq!(covid[0].info.duration, Some(5));
    assert_eq!(covid[1].info.seconds_to_charge, 17);

    let hornets = survive2020::hornets::hornets_ability_roster();
    assert_eq!(hornets.len(), 3);
    assert_eq!(hornets[0].info.ability_type, AbilityType::BugSpray);
    assert_eq!(hornets[0].info.duration, None);

    let wild = survive2020::wildfires::wildfires_ability_roster();
    assert_eq!(wild.len(), 3);
    assert_eq!(wild[2].info.ability_type, AbilityType::RangeBoost);
    assert_eq!(wild[2].info.duration, Some(7));
}
