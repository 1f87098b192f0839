//! Draw-command geometry and the fixed-point range mapping.

use yew_confetti::fixed::{div_floor, map_ranges};
use yew_confetti::{draw_command, ConfettiProps, DrawShape, Particle, RenderSample, Shape, SCALE};

fn particle_at(x: i64, y: i64, shape: Shape) -> Particle {
    Particle {
        x,
        y,
        wobble: 250_000,
        wobble_speed: 10_000,
        initial_velocity: SCALE,
        dir_x: SCALE,
        dir_y: 0,
        tilt_angle: 0,
        color: "#26ccff".to_string(),
        shape,
        age_ms: 500,
        lifespan_ms: 1000,
    }
}

fn sample() -> RenderSample {
    RenderSample {
        wobble_cos: SCALE,
        wobble_sin: 0,
        tilt_cos: 0,
        tilt_sin: SCALE,
        flicker: 2_500_000,
    }
}

#[test]
fn circle_becomes_an_ellipse_spanned_by_the_wobble() {
    let props = ConfettiProps::default();
    let p = particle_at(500_000, 500_000, Shape::Circle);
    let cmd = draw_command(&p, &props, &sample());
    assert_eq!(cmd.color, "#26ccff");
    assert_eq!(cmd.alpha, 500_000);
    assert_eq!(cmd.center_x, 128_000_000);
    assert_eq!(cmd.center_y, 128_000_000);
    assert_eq!(
        cmd.shape,
        DrawShape::Ellipse { radius_x: 2_500_000, radius_y: 0, rotation: 250_000 }
    );
}

#[test]
fn square_becomes_a_floored_quadrilateral() {
    let props = ConfettiProps::default();
    let p = particle_at(500_000, 500_000, Shape::Square);
    let cmd = draw_command(&p, &props, &sample());
    assert_eq!(
        cmd.shape,
        DrawShape::Quad { x0: 128, y0: 128, x1: 133, y1: 130, x2: 133, y2: 130, x3: 128, y3: 128 }
    );
}

#[test]
fn quadrilateral_pixels_floor_toward_negative_infinity() {
    let props = ConfettiProps::default();
    let p = particle_at(-3_000, 500_000, Shape::Square);
    let cmd = draw_command(&p, &props, &sample());
    match cmd.shape {
        DrawShape::Quad { x0, .. } => assert_eq!(x0, -1),
        DrawShape::Ellipse { .. } => panic!("expected a quadrilateral"),
    }
}

#[test]
fn alpha_is_the_fraction_of_life_remaining() {
    let props = ConfettiProps::default();
    let mut p = particle_at(0, 0, Shape::Circle);
    p.age_ms = 999;
    let cmd = draw_command(&p, &props, &sample());
    assert_eq!(cmd.alpha, 1000);
    p.age_ms = 0;
    let cmd = draw_command(&p, &props, &sample());
    assert_eq!(cmd.alpha, SCALE);
}

#[test]
fn map_ranges_is_a_linear_map_rounding_down() {
    assert_eq!(map_ranges(5, 0, 10, 0, 100), 50);
    assert_eq!(map_ranges(2, 0, 10, 100, 0), 80);
    assert_eq!(map_ranges(1, 0, 3, 0, 10), 3);
    assert_eq!(map_ranges(-1, 0, 10, 0, 10), -1);
    assert_eq!(map_ranges(0, 0, SCALE, 0, 256 * SCALE), 0);
    assert_eq!(map_ranges(SCALE, 0, SCALE, 0, 256 * SCALE), 256 * SCALE);
}

#[test]
fn div_floor_rounds_toward_negative_infinity() {
    assert_eq!(div_floor(7, 2), 3);
    assert_eq!(div_floor(-7, 2), -4);
    assert_eq!(div_floor(-6, 2), -3);
    assert_eq!(div_floor(0, 5), 0);
}
