use survive2020::collision::Pos;
use survive2020::covid::{
    covid_ability_roster, covid_move_step, covid_player_collisions, covid_rotation_step,
    draw_covid_spawn, droplet_cell_collisions, droplet_spreader_collisions, handle_spreaders,
    heal_player, mask_shield_active, move_covid_cells, spawn_covid_cell, spawn_health_pack,
    spawn_spray_droplet, spawn_spreaders, try_place_covid_cell, try_place_health_pack,
    update_covid_level, CovidCellComponent, CovidDirection, CovidStateResource,
    HealthPackComponent, SuperSpreaderComponent,
};
use survive2020::high_scores::{
    update_high_score_if_greater, CurrentLevelScoreResource, HighScoresResource, LevelKey,
};
use survive2020::hornets::{expire_bees, hive_pull, spawn_bees, spray_bees, swat_bees, tap_bee, Bee};
use survive2020::states::{
    apply_transition, handle_menu_click, return_to_main_menu_on_escape, timer_text_should_refresh,
    update_timer_and_set_high_score, LevelSecondsResource, Screen, Transition,
};
use survive2020::wildfires::{
    bucket_splash, droplet_physics, handle_fire_collisions, spawn_droplets, spawn_fires,
    update_wildfire_level, Droplet, Fire, WildfireStateResource,
};
use survive2020::abilities::{tick, use_ability, AbilitiesResource};

#[test]
fn saturating_health_never_wraps() {
    // health at 5, a hit of 10 damage: health becomes 0
    let mut state = CovidStateResource { current_health: 5 };
    let player = Pos { x: 0, y: 0 };
    let mut cells = vec![CovidCellComponent {
        pos: Pos { x: 0, y: 0 },
        direction: CovidDirection::Up,
    }];
    covid_player_collisions(&mut cells, player, false, &mut state);
    assert_eq!(state.current_health, 0);
    assert!(cells.is_empty());
}

#[test]
fn shield_blocks_damage_but_not_pickups() {
    let player = Pos { x: 0, y: 0 };
    let mut state = CovidStateResource { current_health: 50 };
    let mut cells = vec![CovidCellComponent {
        pos: Pos { x: 0, y: 0 },
        direction: CovidDirection::Up,
    }];
    covid_player_collisions(&mut cells, player, true, &mut state);
    assert_eq!(state.current_health, 50);
    assert_eq!(cells.len(), 1, "a shielded player leaves the cell alone");

    let mut packs = vec![HealthPackComponent {
        pos: Pos { x: 0, y: 0 },
    }];
    heal_player(&mut packs, player, &mut state);
    assert_eq!(state.current_health, 60, "pickups apply even while shielded");
    assert!(packs.is_empty());
}

#[test]
fn healing_is_clamped_at_the_pool() {
    let player = Pos { x: 0, y: 0 };
    let mut state = CovidStateResource { current_health: 95 };
    let mut packs = vec![
        HealthPackComponent {
            pos: Pos { x: 0, y: 0 },
        },
        HealthPackComponent {
            pos: Pos { x: 500_000, y: 400_000 },
        },
    ];
    heal_player(&mut packs, player, &mut state);
    assert_eq!(state.current_health, 100);
    assert_eq!(packs.len(), 1, "the far pack stays");
}

#[test]
fn high_score_updates_only_on_improvement() {
    // ending with score 100 when the stored best is 50 persists 100;
    // ending with 30 leaves 100 and does not persist
    let mut scores = HighScoresResource::default();
    assert!(update_high_score_if_greater(&mut scores, LevelKey::Hornets, 50));
    assert!(update_high_score_if_greater(&mut scores, LevelKey::Hornets, 100));
    assert_eq!(scores.get_score(LevelKey::Hornets), 100);
    assert!(!update_high_score_if_greater(&mut scores, LevelKey::Hornets, 30));
    assert_eq!(scores.get_score(LevelKey::Hornets), 100);
    assert_eq!(scores.get_score(LevelKey::Covid), 0, "other keys untouched");
}

#[test]
fn spawner_scenario_gate_batch_and_expiry() {
    // no spawn before the first interval elapses, one batch on frame 30
    // with a count in the configured range, and aging removes the bees
    let mut rng = rand::thread_rng();
    let mut bees: Vec<Bee> = Vec::new();
    spawn_bees(&mut bees, 1, &mut rng);
    assert_eq!(bees.len(), 0, "frame 1 is before the interval");
    spawn_bees(&mut bees, 30, &mut rng);
    assert!((1..=5).contains(&bees.len()), "one batch of one to five bees");
    for b in &bees {
        assert!(b.pos.x >= 10_000 && b.pos.x < 590_000);
        assert!(b.pos.y >= 100_000 && b.pos.y < 500_000);
        assert!(b.expiration_frame >= 80 && b.expiration_frame < 210);
    }
    expire_bees(&mut bees, 50);
    assert!(!bees.is_empty(), "no bee expires before fifty frames have passed");
    expire_bees(&mut bees, 30 + 180);
    assert!(bees.is_empty(), "aging past the expiration frame removes them");
}

#[test]
fn swat_spray_and_tap_score_per_bee() {
    let mut score = CurrentLevelScoreResource::default();
    let mut bees = vec![
        Bee {
            pos: Pos { x: 0, y: 0 },
            expiration_frame: 1000,
        },
        Bee {
            pos: Pos { x: 500_000, y: 400_000 },
            expiration_frame: 1000,
        },
    ];
    swat_bees(&mut bees, Pos { x: 0, y: 0 }, &mut score);
    assert_eq!(score.score, 1);
    assert_eq!(bees.len(), 1);

    tap_bee(&mut bees, 0, &mut score);
    assert_eq!(score.score, 2);
    assert!(bees.is_empty());

    bees.push(Bee {
        pos: Pos { x: 1, y: 1 },
        expiration_frame: 1000,
    });
    bees.push(Bee {
        pos: Pos { x: 2, y: 2 },
        expiration_frame: 1000,
    });
    spray_bees(&mut bees, &mut score);
    assert_eq!(score.score, 4);
    assert!(bees.is_empty());
}

#[test]
fn hive_pull_moves_and_extends_nearby_bees() {
    let mut rng = rand::thread_rng();
    let hive = Pos { x: 300_000, y: 300_000 };
    let mut bees = vec![
        Bee {
            pos: Pos { x: 300_000, y: 350_000 },
            expiration_frame: 500,
        },
        Bee {
            pos: Pos { x: 0, y: 0 },
            expiration_frame: 700,
        },
    ];
    hive_pull(&mut bees, hive, &mut rng);
    assert!(bees[0].pos.x >= 290_000 && bees[0].pos.x < 310_000);
    assert!(bees[0].pos.y >= 290_000 && bees[0].pos.y < 310_000);
    assert!(bees[0].expiration_frame >= 560 && bees[0].expiration_frame < 620);
    assert_eq!(bees[1].pos, Pos { x: 0, y: 0 });
    assert_eq!(bees[1].expiration_frame, 700);
}

#[test]
fn timer_settles_the_level_once_time_is_up() {
    let mut scores = HighScoresResource::default();
    let score = CurrentLevelScoreResource { score: 100 };
    let mut elapsed: u64 = 0;
    let (t, persisted) = update_timer_and_set_high_score(
        &mut elapsed,
        16,
        1000,
        &score,
        &mut scores,
        LevelKey::Hornets,
    );
    assert_eq!(t, Transition::Stay);
    assert!(!persisted);
    assert_eq!(elapsed, 16);

    elapsed = 1000;
    let (t, persisted) = update_timer_and_set_high_score(
        &mut elapsed,
        16,
        1000,
        &score,
        &mut scores,
        LevelKey::Hornets,
    );
    assert_eq!(t, Transition::ToMainMenu);
    assert!(persisted);
    assert_eq!(scores.get_score(LevelKey::Hornets), 100);
}

#[test]
fn timer_text_refresh_follows_the_rounding_rule() {
    assert!(!timer_text_should_refresh(0, 0));
    assert!(timer_text_should_refresh(0, 100));
    assert!(timer_text_should_refresh(1230, 1240));
}

#[test]
fn menu_and_escape_transitions() {
    assert_eq!(handle_menu_click(None), Transition::Stay);
    assert_eq!(
        handle_menu_click(Some(LevelKey::Covid)),
        Transition::ToLevel(LevelKey::Covid)
    );
    assert_eq!(return_to_main_menu_on_escape(false), Transition::Stay);
    assert_eq!(return_to_main_menu_on_escape(true), Transition::ToMainMenu);
    assert_eq!(
        apply_transition(Screen::MainMenu, Transition::ToLevel(LevelKey::Wildfires)),
        Screen::Level(LevelKey::Wildfires)
    );
    assert_eq!(
        apply_transition(Screen::Level(LevelKey::Covid), Transition::ToMainMenu),
        Screen::MainMenu
    );
    assert_eq!(
        apply_transition(Screen::Level(LevelKey::Covid), Transition::Stay),
        Screen::Level(LevelKey::Covid)
    );
}

#[test]
fn wildfire_level_ends_when_fires_outnumber_the_allowance() {
    let mut seconds = LevelSecondsResource::default();
    let mut score = CurrentLevelScoreResource::default();
    let state = WildfireStateResource {
        current_fires: 61,
        stepped_in_fire_times: 0,
    };
    let (t, max_fires) = update_wildfire_level(&state, &mut seconds, &mut score, 16);
    assert_eq!(max_fires, 60);
    assert_eq!(t, Transition::ToMainMenu);

    let mut seconds = LevelSecondsResource { elapsed_ms: 9_984 };
    let state = WildfireStateResource {
        current_fires: 10,
        stepped_in_fire_times: 3,
    };
    let (t, max_fires) = update_wildfire_level(&state, &mut seconds, &mut score, 16);
    assert_eq!(t, Transition::Stay);
    assert_eq!(max_fires, 57);
    assert_eq!(seconds.elapsed_ms, 10_000);
    assert_eq!(score.score, 10 - 3, "score is whole seconds less stepped-in fires");
}

#[test]
fn covid_level_ends_at_zero_health() {
    let mut seconds = LevelSecondsResource::default();
    let mut score = CurrentLevelScoreResource::default();
    let alive = CovidStateResource { current_health: 10 };
    assert_eq!(
        update_covid_level(&alive, &mut seconds, &mut score, 2500),
        Transition::Stay
    );
    assert_eq!(score.score, 2, "score is the elapsed whole seconds");
    let dead = CovidStateResource { current_health: 0 };
    assert_eq!(
        update_covid_level(&dead, &mut seconds, &mut score, 16),
        Transition::ToMainMenu
    );
}

#[test]
fn covid_cells_drift_and_despawn_off_screen() {
    let mut cells = vec![
        CovidCellComponent {
            pos: Pos { x: 100_000, y: 100_000 },
            direction: CovidDirection::Up,
        },
        CovidCellComponent {
            pos: Pos { x: 599_000, y: 100_000 },
            direction: CovidDirection::Right,
        },
    ];
    move_covid_cells(&mut cells, 1000, 600_000, 600_000);
    assert_eq!(cells.len(), 1, "the right-drifting cell left the screen");
    assert_eq!(cells[0].pos.y, 140_000, "40 px per second of upward drift");
    move_covid_cells(&mut cells, 0, 600_000, 600_000);
    assert_eq!(cells[0].pos.y, 140_000, "a zero frame time moves nothing");
}

#[test]
fn spreaders_expire_and_cough() {
    let player = Pos { x: 0, y: 0 };
    let mut state = CovidStateResource { current_health: 100 };
    let mut spreaders = vec![
        // stale: deleted without damage even though it touches the player
        SuperSpreaderComponent {
            pos: Pos { x: 0, y: 0 },
            expiration_frame: 10,
        },
        // live and touching: costs ten health
        SuperSpreaderComponent {
            pos: Pos { x: 50_000, y: 0 },
            expiration_frame: 1000,
        },
        // live and far: stays
        SuperSpreaderComponent {
            pos: Pos { x: 500_000, y: 400_000 },
            expiration_frame: 1000,
        },
    ];
    handle_spreaders(&mut spreaders, 10, player, false, &mut state);
    assert_eq!(state.current_health, 90);
    assert_eq!(spreaders.len(), 1);
    assert_eq!(spreaders[0].expiration_frame, 1000);
}

#[test]
fn covid_spawns_sit_on_their_edges() {
    let mut rng = rand::thread_rng();
    let far_player = Pos { x: -900_000_000, y: -900_000_000 };
    let mut cells: Vec<CovidCellComponent> = Vec::new();
    spawn_covid_cell(&mut cells, 59, far_player, &mut rng);
    assert!(cells.is_empty(), "frame 59 is not a spawn frame");
    spawn_covid_cell(&mut cells, 60, far_player, &mut rng);
    assert_eq!(cells.len(), 1);
    let c = &cells[0];
    let on_edge = match c.direction {
        CovidDirection::Up => c.pos.y == 120_000,
        CovidDirection::Down => c.pos.y == 480_000,
        CovidDirection::Right => c.pos.x == 30_000,
        CovidDirection::Left => c.pos.x == 570_000,
    };
    assert!(on_edge, "a fresh cell sits on the edge matching its drift");

    let mut packs: Vec<HealthPackComponent> = Vec::new();
    spawn_health_pack(&mut packs, 390, far_player, &mut rng);
    assert_eq!(packs.len(), 1);
    assert!(packs[0].pos.x >= 10_000 && packs[0].pos.x < 590_000);

    let mut spreaders: Vec<SuperSpreaderComponent> = Vec::new();
    spawn_spreaders(&mut spreaders, 120, 0, far_player, &mut rng);
    assert_eq!(spreaders.len(), 1, "at no elapsed time the batch is exactly one");
    assert!(spreaders[0].expiration_frame >= 180 && spreaders[0].expiration_frame < 760);
}

#[test]
fn mask_shield_window() {
    let mut r = AbilitiesResource::new(covid_ability_roster());
    assert!(!mask_shield_active(&r));
    use_ability(&mut r, 0);
    assert!(
        !mask_shield_active(&r),
        "a just-cast mask (over 99%) only switches the sprite"
    );
    tick(&mut r, 500);
    assert!(mask_shield_active(&r), "at 90% of its duration the mask shields");
    tick(&mut r, 4_400);
    assert!(
        !mask_shield_active(&r),
        "under 5% of duration left the shield is already off"
    );
}

#[test]
fn covid_step_helpers_scale_by_frame_time() {
    assert_eq!(covid_move_step(1000), 140_000);
    assert_eq!(covid_move_step(16), 2_240);
    assert_eq!(covid_rotation_step(1000), 4_200);
    assert_eq!(covid_rotation_step(16), 67);
}

#[test]
fn droplets_age_drift_and_expire() {
    let mut rng = rand::thread_rng();
    let mut droplets = vec![Droplet {
        pos: Pos { x: 300_000, y: 100_000 },
        vx: 0,
        vy: 140_000,
        ms_alive: 0,
    }];
    droplet_physics(&mut droplets, 100, false, &mut rng);
    assert_eq!(droplets.len(), 1);
    assert_eq!(droplets[0].ms_alive, 100);
    assert_eq!(droplets[0].pos.y, 114_000, "140 px per second of climb");
    assert!(droplets[0].pos.x >= 294_000 && droplets[0].pos.x < 306_000);
    droplet_physics(&mut droplets, 600, false, &mut rng);
    assert!(droplets.is_empty(), "at 700 ms of age the droplet is spent");
}

#[test]
fn range_boost_doubles_droplet_lifetime() {
    let mut rng = rand::thread_rng();
    let mut droplets = vec![Droplet {
        pos: Pos { x: 300_000, y: 100_000 },
        vx: 0,
        vy: 140_000,
        ms_alive: 0,
    }];
    droplet_physics(&mut droplets, 700, true, &mut rng);
    assert_eq!(droplets.len(), 1, "with the boost, 700 ms is only half-way");
    droplet_physics(&mut droplets, 700, true, &mut rng);
    assert!(droplets.is_empty());
}

#[test]
fn spawn_droplets_lays_out_the_spread() {
    let mut droplets: Vec<Droplet> = Vec::new();
    let origin = Pos { x: 100_000, y: 100_000 };
    // facing straight up: the unit direction is (0, 1000) thousandths
    spawn_droplets(&mut droplets, origin, 0, 1000, false);
    assert_eq!(droplets.len(), 1);
    assert_eq!(droplets[0].pos, Pos { x: 115_000, y: 150_000 });
    assert_eq!((droplets[0].vx, droplets[0].vy), (0, 140_000));
    assert_eq!(droplets[0].ms_alive, 0);

    spawn_droplets(&mut droplets, origin, 0, 1000, true);
    assert_eq!(droplets.len(), 4);
    assert_eq!(droplets[1].pos, Pos { x: 70_000, y: 150_000 }, "left droplet 30 px out");
    assert_eq!(droplets[2].pos, Pos { x: 115_000, y: 150_000 });
    assert_eq!(droplets[3].pos, Pos { x: 145_000, y: 150_000 }, "right droplet 45 px out");
    assert!(droplets[1].vx != 0, "the outer droplets fly off at the spread angle");
    assert!(droplets[3].vx != 0);
}

#[test]
fn fire_sweep_burns_douses_and_keeps() {
    let player = Pos { x: 0, y: 0 };
    let mut state = WildfireStateResource {
        current_fires: 3,
        stepped_in_fire_times: 0,
    };
    let mut fires = vec![
        // touching the player: burns
        Fire { pos: Pos { x: 50_000, y: 0 } },
        // near a droplet: doused
        Fire { pos: Pos { x: 300_000, y: 300_000 } },
        // alone: stays
        Fire { pos: Pos { x: 500_000, y: 400_000 } },
    ];
    let mut droplets = vec![Droplet {
        pos: Pos { x: 310_000, y: 300_000 },
        vx: 0,
        vy: 140_000,
        ms_alive: 0,
    }];
    handle_fire_collisions(&mut fires, &mut droplets, player, &mut state);
    assert_eq!(state.stepped_in_fire_times, 1);
    assert_eq!(state.current_fires, 2);
    assert_eq!(fires.len(), 1);
    assert_eq!(fires[0].pos, Pos { x: 500_000, y: 400_000 });
    assert!(droplets.is_empty(), "the dousing droplet is spent");
}

#[test]
fn bucket_splash_puts_out_fires_in_reach() {
    let mut fires = vec![
        Fire { pos: Pos { x: 300_000, y: 300_000 } },
        Fire { pos: Pos { x: 500_000, y: 100_000 } },
    ];
    bucket_splash(&mut fires, Pos { x: 310_000, y: 300_000 });
    assert_eq!(fires.len(), 1);
    assert_eq!(fires[0].pos, Pos { x: 500_000, y: 100_000 });
}

#[test]
fn fires_spawn_only_on_interval_frames() {
    let mut rng = rand::thread_rng();
    let far_player = Pos { x: -900_000_000, y: -900_000_000 };
    let mut fires: Vec<Fire> = Vec::new();
    let mut state = WildfireStateResource::default();
    spawn_fires(&mut fires, &mut state, 41, 0, far_player, &mut rng);
    assert!(fires.is_empty());
    assert_eq!(state.current_fires, 0);
    spawn_fires(&mut fires, &mut state, 42, 0, far_player, &mut rng);
    assert_eq!(fires.len(), 1, "at no elapsed time the batch is exactly one fire");
    assert_eq!(state.current_fires, 1);
    assert!(fires[0].pos.x >= 10_000 && fires[0].pos.x < 590_000);
    assert!(fires[0].pos.y >= 100_000 && fires[0].pos.y < 500_000);
}

#[test]
fn spray_droplets_start_just_ahead_of_the_player() {
    let mut droplets: Vec<Droplet> = Vec::new();
    let origin = Pos { x: 100_000, y: 100_000 };
    spawn_spray_droplet(&mut droplets, origin, 0, 1000);
    assert_eq!(droplets.len(), 1);
    assert_eq!(droplets[0].pos, Pos { x: 130_000, y: 108_000 });
    assert_eq!((droplets[0].vx, droplets[0].vy), (0, 140_000));
    assert_eq!(droplets[0].ms_alive, 0);
}

#[test]
fn spray_droplets_kill_cells_and_spreaders() {
    let mut cells = vec![
        CovidCellComponent {
            pos: Pos { x: 300_000, y: 300_000 },
            direction: CovidDirection::Up,
        },
        CovidCellComponent {
            pos: Pos { x: 500_000, y: 100_000 },
            direction: CovidDirection::Down,
        },
    ];
    let mut droplets = vec![Droplet {
        pos: Pos { x: 310_000, y: 300_000 },
        vx: 0,
        vy: 140_000,
        ms_alive: 0,
    }];
    droplet_cell_collisions(&mut cells, &mut droplets);
    assert_eq!(cells.len(), 1, "the hit cell dies");
    assert_eq!(cells[0].pos, Pos { x: 500_000, y: 100_000 });
    assert!(droplets.is_empty(), "the droplet is spent with it");

    let mut spreaders = vec![SuperSpreaderComponent {
        pos: Pos { x: 300_000, y: 300_000 },
        expiration_frame: 1000,
    }];
    let mut droplets = vec![Droplet {
        pos: Pos { x: 380_000, y: 300_000 },
        vx: 0,
        vy: 140_000,
        ms_alive: 0,
    }];
    droplet_spreader_collisions(&mut spreaders, &mut droplets);
    assert!(spreaders.is_empty());
    assert!(droplets.is_empty());
}

#[test]
fn placement_rules_reject_near_the_player_and_off_frames() {
    let cell = CovidCellComponent {
        pos: Pos { x: 300_000, y: 120_000 },
        direction: CovidDirection::Up,
    };
    let far_player = Pos { x: -900_000_000, y: -900_000_000 };
    let near_player = Pos { x: 310_000, y: 120_000 };

    let mut cells: Vec<CovidCellComponent> = Vec::new();
    try_place_covid_cell(&mut cells, cell, 61, far_player);
    assert!(cells.is_empty(), "frame 61 is not a spawn frame");
    try_place_covid_cell(&mut cells, cell, 60, near_player);
    assert!(cells.is_empty(), "a draw on the player abandons the tick");
    try_place_covid_cell(&mut cells, cell, 60, far_player);
    assert_eq!(cells.len(), 1);

    let mut packs: Vec<HealthPackComponent> = Vec::new();
    let pos = Pos { x: 300_000, y: 300_000 };
    try_place_health_pack(&mut packs, pos, 390, Pos { x: 310_000, y: 300_000 });
    assert!(packs.is_empty(), "a draw on the player abandons the tick");
    try_place_health_pack(&mut packs, pos, 390, far_player);
    assert_eq!(packs.len(), 1);

    let mut rng = rand::thread_rng();
    let drawn = draw_covid_spawn(&mut rng);
    let on_edge = match drawn.direction {
        CovidDirection::Up => drawn.pos.y == 120_000,
        CovidDirection::Down => drawn.pos.y == 480_000,
        CovidDirection::Right => drawn.pos.x == 30_000,
        CovidDirection::Left => drawn.pos.x == 570_000,
    };
    assert!(on_edge);
}
