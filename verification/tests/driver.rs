//! Simulation driver: scheduling, stepping, pruning, and the stop
//! decision.

use yew_confetti::{Cannon, ConfettiProps, Mode, Shape, Simulation, SpawnSeed, SCALE};

fn props_with_lifespan(lifespan_ms: u64) -> ConfettiProps {
    ConfettiProps { lifespan_ms, ..ConfettiProps::default() }
}

fn cannon_with_mode(mode: Mode, color: &str) -> Cannon {
    Cannon {
        x: SCALE / 2,
        y: SCALE / 2,
        angle: 0,
        spread: 0,
        velocity: SCALE,
        colors: vec![color.to_string()],
        shapes: vec![Shape::Square],
        mode,
    }
}

fn seeds_for(schedule: &[usize]) -> Vec<SpawnSeed> {
    schedule
        .iter()
        .map(|_| SpawnSeed {
            dir_x: 0,
            dir_y: SCALE,
            speed_factor: SCALE,
            wobble: 0,
            wobble_speed: 10_000,
            tilt_angle: 0,
            color_index: 0,
            shape_index: 0,
        })
        .collect()
}

#[test]
fn burst_spawns_exactly_its_count_once() {
    let props = props_with_lifespan(2500);
    let cannons = vec![cannon_with_mode(Mode::burst(3), "#26ccff")];
    let mut sim = Simulation::new();
    let sched = sim.spawn_schedule(16, &cannons);
    assert_eq!(sched, vec![0, 0, 0]);
    let seeds = seeds_for(&sched);
    sim.step(16, &props, &cannons, &seeds);
    assert_eq!(sim.particles.len(), 3);
    assert_eq!(sim.last_time, 16);
    assert!(!sim.is_done(&cannons));

    let sched2 = sim.spawn_schedule(16, &cannons);
    assert!(sched2.is_empty());
    sim.step(16, &props, &cannons, &Vec::new());
    assert_eq!(sim.particles.len(), 3);
    assert_eq!(sim.last_time, 32);
}

#[test]
fn long_gaps_drop_time_instead_of_replaying_it() {
    // A 700 ms pause is clamped to 500 ms of simulation; the skipped 200
    // ms move the clock past the burst's instant, so it never fires.
    let props = props_with_lifespan(2500);
    let cannons = vec![cannon_with_mode(Mode::burst(4), "#26ccff")];
    let mut sim = Simulation::new();
    let sched = sim.spawn_schedule(700, &cannons);
    assert!(sched.is_empty());
    sim.step(700, &props, &cannons, &Vec::new());
    assert_eq!(sim.last_time, 700);
    assert_eq!(sim.particles.len(), 0);
    assert!(sim.is_done(&cannons));
}

#[test]
fn full_rate_stream_fills_every_simulated_millisecond() {
    // 450 ms are cut into five 90 ms substeps, and the capped stream
    // emits one particle per simulated millisecond.
    let props = props_with_lifespan(3_600_000);
    let cannons = vec![cannon_with_mode(Mode::continuous(1000), "#26ccff")];
    let mut sim = Simulation::new();
    let sched = sim.spawn_schedule(450, &cannons);
    assert_eq!(sched.len(), 450);
    let seeds = seeds_for(&sched);
    sim.step(450, &props, &cannons, &seeds);
    assert_eq!(sim.particles.len(), 450);
    assert_eq!(sim.last_time, 450);

    // an uneven gap leaves the division remainder unsimulated: 133 ms
    // become two 66 ms substeps and one dropped millisecond
    let mut uneven = Simulation::new();
    let sched = uneven.spawn_schedule(133, &cannons);
    assert_eq!(sched.len(), 132);
    let seeds = seeds_for(&sched);
    uneven.step(133, &props, &cannons, &seeds);
    assert_eq!(uneven.last_time, 132);
}

#[test]
fn dead_particles_are_pruned_in_the_killing_step() {
    let props = props_with_lifespan(10);
    let cannons = vec![cannon_with_mode(Mode::burst(5), "#26ccff")];
    let mut sim = Simulation::new();
    let sched = sim.spawn_schedule(16, &cannons);
    assert_eq!(sched.len(), 5);
    let seeds = seeds_for(&sched);
    sim.step(16, &props, &cannons, &seeds);
    assert_eq!(sim.particles.len(), 0);
    assert_eq!(sim.last_time, 16);
    assert!(sim.is_done(&cannons));
}

#[test]
fn open_emission_windows_keep_the_loop_alive() {
    // An unexpired continuous window forbids stopping even with zero
    // particles; an endless one forbids it forever.
    let props = props_with_lifespan(2500);
    let finite = vec![cannon_with_mode(Mode::finite_continuous(0, 5000), "#26ccff")];
    let mut sim = Simulation::new();
    sim.step(16, &props, &finite, &Vec::new());
    assert_eq!(sim.particles.len(), 0);
    assert!(!sim.is_done(&finite));
    sim.step(6000, &props, &finite, &Vec::new());
    assert!(sim.last_time > 5000);
    assert!(sim.is_done(&finite));

    let endless = vec![cannon_with_mode(Mode::continuous(0), "#26ccff")];
    assert!(!sim.is_done(&endless));
}

#[test]
fn schedule_lists_cannons_in_order() {
    let props = props_with_lifespan(2500);
    let cannons = vec![
        cannon_with_mode(Mode::burst(2), "#26ccff"),
        cannon_with_mode(Mode::burst(1), "#ff36ff"),
    ];
    let mut sim = Simulation::new();
    let sched = sim.spawn_schedule(16, &cannons);
    assert_eq!(sched, vec![0, 0, 1]);
    let seeds = seeds_for(&sched);
    sim.step(16, &props, &cannons, &seeds);
    assert_eq!(sim.particles.len(), 3);
    assert_eq!(sim.particles[0].color, "#26ccff");
    assert_eq!(sim.particles[1].color, "#26ccff");
    assert_eq!(sim.particles[2].color, "#ff36ff");
}

#[test]
fn default_props_match_the_documented_defaults() {
    let props = ConfettiProps::default();
    assert_eq!(props.width, 256);
    assert_eq!(props.height, 256);
    assert_eq!(props.decay_per_ms, 998_797);
    assert_eq!(props.gravity, SCALE);
    assert_eq!(props.drift, 0);
    assert_eq!(props.lifespan_ms, 2500);
    assert_eq!(props.scalar, 5 * SCALE);
    assert!(props.disable_for_reduced_motion);
    assert!(props.is_well_formed());
}

#[test]
fn default_cannon_matches_the_documented_defaults() {
    let cannon = Cannon::default();
    assert_eq!(cannon.x, 500_000);
    assert_eq!(cannon.y, 500_000);
    assert_eq!(cannon.angle, 1_570_796);
    assert_eq!(cannon.spread, 785_398);
    assert_eq!(cannon.velocity, 2 * SCALE);
    assert_eq!(
        cannon.colors,
        vec!["#26ccff", "#a25afd", "#ff5e7e", "#88ff5a", "#fcff42", "#ffa62d", "#ff36ff"]
    );
    assert_eq!(cannon.shapes, vec![Shape::Circle, Shape::Square]);
    assert_eq!(cannon.mode, Mode::continuous(100));
    assert!(cannon.is_well_formed());
}

#[test]
fn reduced_motion_gates_the_animation() {
    let honoring = ConfettiProps::default();
    assert!(honoring.animation_enabled(false));
    assert!(!honoring.animation_enabled(true));
    let ignoring = ConfettiProps { disable_for_reduced_motion: false, ..ConfettiProps::default() };
    assert!(ignoring.animation_enabled(false));
    assert!(ignoring.animation_enabled(true));
}
