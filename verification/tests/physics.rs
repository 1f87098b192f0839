//! Particle physics: spawning, motion, decay, and lifetime.

use yew_confetti::{Cannon, ConfettiProps, Mode, Particle, Shape, SpawnSeed, SCALE};

fn props(decay_per_ms: i64, gravity: i64, drift: i64, lifespan_ms: u64) -> ConfettiProps {
    ConfettiProps {
        width: 256,
        height: 256,
        decay_per_ms,
        gravity,
        drift,
        lifespan_ms,
        scalar: 5 * SCALE,
        disable_for_reduced_motion: true,
    }
}

fn cannon(x: i64, y: i64, velocity: i64) -> Cannon {
    Cannon {
        x,
        y,
        angle: 0,
        spread: 0,
        velocity,
        colors: vec!["#26ccff".to_string(), "#a25afd".to_string()],
        shapes: vec![Shape::Circle, Shape::Square],
        mode: Mode::burst(1),
    }
}

fn seed(dir_x: i64, dir_y: i64) -> SpawnSeed {
    SpawnSeed {
        dir_x,
        dir_y,
        speed_factor: SCALE,
        wobble: 0,
        wobble_speed: 10_000,
        tilt_angle: 0,
        color_index: 0,
        shape_index: 0,
    }
}

#[test]
fn spawn_copies_the_cannon_and_seed() {
    let pr = props(SCALE, SCALE, 0, 2500);
    let ca = cannon(250_000, 750_000, 2 * SCALE);
    let se = SpawnSeed {
        speed_factor: 900_000,
        color_index: 1,
        shape_index: 1,
        ..seed(SCALE, 0)
    };
    let p = Particle::spawn(&se, &ca, &pr);
    assert_eq!(p.x, 250_000);
    assert_eq!(p.y, 750_000);
    assert_eq!(p.initial_velocity, 1_800_000);
    assert_eq!(p.dir_x, SCALE);
    assert_eq!(p.dir_y, 0);
    assert_eq!(p.wobble, 0);
    assert_eq!(p.wobble_speed, 10_000);
    assert_eq!(p.color, "#a25afd");
    assert_eq!(p.shape, Shape::Square);
    assert_eq!(p.age_ms, 0);
    assert_eq!(p.lifespan_ms, 2500);
}

#[test]
fn unit_particle_one_second_end_to_end() {
    // No decay, gravity one unit per second, one-second lifespan: a
    // rightward unit-velocity particle moves one unit right and one unit
    // down in a single one-second step, and dies with exactly nothing
    // left.
    let pr = props(SCALE, SCALE, 0, 1000);
    let ca = cannon(0, 0, SCALE);
    let se = seed(SCALE, 0);
    let mut p = Particle::spawn(&se, &ca, &pr);
    let alive = p.advance(1000, &pr);
    assert_eq!(p.x, SCALE);
    assert_eq!(p.y, -SCALE);
    assert!(!alive);
    assert_eq!(p.age_ms, p.lifespan_ms);
}

#[test]
fn life_counts_down_and_dies_exactly_once() {
    let pr = props(SCALE, 0, 0, 300);
    let mut p = Particle::spawn(&seed(SCALE, 0), &cannon(0, 0, SCALE), &pr);
    assert!(p.advance(100, &pr));
    assert_eq!(p.lifespan_ms - p.age_ms, 200);
    assert!(p.advance(100, &pr));
    assert_eq!(p.lifespan_ms - p.age_ms, 100);
    assert!(!p.advance(100, &pr));
    assert_eq!(p.lifespan_ms - p.age_ms, 0);
}

#[test]
fn decay_is_frame_rate_independent() {
    // The default decay keeps about 30% of the velocity over one second;
    // one 1000 ms step and ten 100 ms steps give the identical velocity.
    let pr = props(998_797, 0, 0, 5000);
    let ca = cannon(0, 0, 2 * SCALE);
    let se = seed(SCALE, 0);
    let mut one_step = Particle::spawn(&se, &ca, &pr);
    let mut ten_steps = Particle::spawn(&se, &ca, &pr);
    one_step.advance(1000, &pr);
    for _ in 0..10 {
        ten_steps.advance(100, &pr);
    }
    assert_eq!(one_step.current_velocity(&pr), ten_steps.current_velocity(&pr));
    let v = one_step.current_velocity(&pr);
    assert!(v > 580_000 && v < 620_000);
}

#[test]
fn half_decay_per_millisecond() {
    let pr = props(SCALE / 2, 0, 0, 100);
    let mut p = Particle::spawn(&seed(SCALE, 0), &cannon(0, 0, SCALE), &pr);
    assert_eq!(p.current_velocity(&pr), SCALE);
    p.advance(1, &pr);
    assert_eq!(p.current_velocity(&pr), 500_000);
    p.advance(1, &pr);
    assert_eq!(p.current_velocity(&pr), 250_000);
}

#[test]
fn position_integrates_velocity_drift_and_gravity() {
    let pr = props(SCALE, SCALE, 500_000, 2000);
    let mut p = Particle::spawn(&seed(600_000, 800_000), &cannon(0, 0, SCALE), &pr);
    assert!(p.advance(500, &pr));
    assert_eq!(p.x, 550_000);
    assert_eq!(p.y, -100_000);
    assert_eq!(p.wobble, 5_000);
    assert_eq!(p.tilt_angle, 50_000);
    assert_eq!(p.age_ms, 500);
}

#[test]
fn well_formedness_checks_reject_out_of_range_values() {
    assert!(props(SCALE, SCALE, 0, 2500).is_well_formed());
    assert!(!ConfettiProps { width: 0, ..ConfettiProps::default() }.is_well_formed());
    assert!(!ConfettiProps { lifespan_ms: 0, ..ConfettiProps::default() }.is_well_formed());
    assert!(!ConfettiProps { decay_per_ms: SCALE + 1, ..ConfettiProps::default() }
        .is_well_formed());
    let ca = cannon(0, 0, SCALE);
    assert!(ca.is_well_formed());
    assert!(!Cannon { colors: Vec::new(), ..cannon(0, 0, SCALE) }.is_well_formed());
    assert!(!Cannon { velocity: -1, ..cannon(0, 0, SCALE) }.is_well_formed());
    assert!(seed(SCALE, 0).is_well_formed(&ca));
    assert!(!SpawnSeed { dir_x: 2 * SCALE, ..seed(SCALE, 0) }.is_well_formed(&ca));
    assert!(!SpawnSeed { color_index: 2, ..seed(SCALE, 0) }.is_well_formed(&ca));
}
