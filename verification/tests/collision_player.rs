use survive2020::collision::{distance_within, handle_collisions, Pos};
use survive2020::player::{apply_movement, MovementInput, PlayerEntity};
use survive2020::{bound, every_n_frames, mul_then_div_1000, FRAME_RATE};

#[test]
fn collision_fires_within_summed_half_extents() {
    // player at the origin with half-extent 10, hazard half-extent 10:
    // at (15, 0) the distance 15 is within reach 20, at (25, 0) it is not
    let player = Pos { x: 0, y: 0 };
    let near = Pos { x: 15, y: 0 };
    let far = Pos { x: 25, y: 0 };
    assert!(distance_within(player, near, 10 + 10));
    assert!(!distance_within(player, far, 10 + 10));

    let hits = handle_collisions(&vec![near, far], player, 20);
    assert_eq!(hits, vec![0]);
}

#[test]
fn collision_is_symmetric() {
    let a = Pos { x: 3, y: 4 };
    let b = Pos { x: 0, y: 0 };
    assert_eq!(distance_within(a, b, 5), distance_within(b, a, 5));
    assert!(distance_within(a, b, 5));
    assert!(!distance_within(a, b, 4));
}

#[test]
fn bound_clamps_into_the_interval() {
    assert_eq!(bound(-5, 0, 10), 0);
    assert_eq!(bound(15, 0, 10), 10);
    assert_eq!(bound(7, 0, 10), 7);
}

#[test]
fn every_n_frames_is_the_interval_predicate() {
    // half a second at the fixed frame rate
    assert_eq!(FRAME_RATE / 2, 30);
    assert!(every_n_frames(0, 30));
    assert!(!every_n_frames(1, 30));
    assert!(!every_n_frames(29, 30));
    assert!(every_n_frames(30, 30));
    assert!(every_n_frames(60, 30));
}

#[test]
fn scaled_product_rounds_toward_zero() {
    assert_eq!(mul_then_div_1000(140, 1000), 140);
    assert_eq!(mul_then_div_1000(-7, 500), -3);
    assert_eq!(mul_then_div_1000(7, 500), 3);
}

#[test]
fn movement_steps_and_clamps_each_axis() {
    let mut p = PlayerEntity {
        pos: Pos { x: 50, y: 50 },
        rotation_millirad: 0,
    };
    let input = MovementInput {
        up: true,
        down: false,
        left: false,
        right: true,
        rotate_left: false,
        rotate_right: true,
    };
    apply_movement(&mut p, input, 4, 100, 50, 550, 50, 550);
    assert_eq!(p.pos.x, 54);
    assert_eq!(p.pos.y, 54);
    assert_eq!(p.rotation_millirad, 100);

    // at the arena edge the step clamps
    p.pos = Pos { x: 549, y: 549 };
    apply_movement(&mut p, input, 4, 100, 50, 550, 50, 550);
    assert_eq!(p.pos.x, 550);
    assert_eq!(p.pos.y, 550);
    assert_eq!(p.rotation_millirad, 200);
}

#[test]
fn opposing_keys_cancel_away_from_the_edge() {
    let mut p = PlayerEntity {
        pos: Pos { x: 300, y: 300 },
        rotation_millirad: 0,
    };
    let input = MovementInput {
        up: true,
        down: true,
        left: true,
        right: true,
        rotate_left: true,
        rotate_right: true,
    };
    apply_movement(&mut p, input, 4, 100, 50, 550, 50, 550);
    assert_eq!(p.pos.x, 300);
    assert_eq!(p.pos.y, 300);
    assert_eq!(p.rotation_millirad, 0);
}

#[test]
fn rotation_is_unclamped() {
    let mut p = PlayerEntity {
        pos: Pos { x: 300, y: 300 },
        rotation_millirad: 0,
    };
    let input = MovementInput {
        up: false,
        down: false,
        left: false,
        right: false,
        rotate_left: false,
        rotate_right: true,
    };
    for _ in 0..100 {
        apply_movement(&mut p, input, 4, 100, 50, 550, 50, 550);
    }
    assert_eq!(p.rotation_millirad, 10_000, "rotation grows without a wrap");
}
