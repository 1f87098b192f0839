//! Draw-command generation: the geometry of one particle, ready for a 2D
//! canvas.
//!
//! Normalized positions map linearly to fixed-point pixel coordinates,
//! with the vertical axis flipped (`y == 0` is the bottom of the canvas).
//! The wobble phase offsets a second anchor point; two further points are
//! offset along the tilt angle by a per-frame random length between two
//! and three units (an intentional flicker). A circle becomes an ellipse
//! spanned by those offsets, a square a closed quadrilateral with every
//! coordinate floored to a whole pixel. Opacity is the fraction of life
//! remaining.

use vstd::prelude::*;

use crate::config::ConfettiProps;
use crate::fixed::{
    div_floor, fix_mul, lemma_fix_mul_unit_bound, map_ranges, mul_fixed, SCALE,
};
use crate::particle::{Particle, Shape};

verus! {

use vstd::arithmetic::div_mod::{
    lemma_div_is_ordered, lemma_div_multiples_vanish, lemma_div_pos_is_pos,
};
use vstd::math::abs;

/// The per-frame random and trigonometric ingredients of drawing one
/// particle, pre-computed by the caller: the cosine and sine of the
/// particle's wobble phase and tilt angle, and the flicker length.
#[derive(Copy, Clone, Debug)]
pub struct RenderSample {
    /// Cosine of the particle's wobble phase, fixed-point.
    pub wobble_cos: i64,
    /// Sine of the particle's wobble phase, fixed-point.
    pub wobble_sin: i64,
    /// Cosine of the particle's tilt angle, fixed-point.
    pub tilt_cos: i64,
    /// Sine of the particle's tilt angle, fixed-point.
    pub tilt_sin: i64,
    /// Random offset length, fixed-point, drawn fresh every frame from
    /// two to three units.
    pub flicker: i64,
}

impl RenderSample {
    /// Cosines and sines within one; the flicker length in its range.
    pub open spec fn wf(&self) -> bool {
        &&& -SCALE <= self.wobble_cos <= SCALE
        &&& -SCALE <= self.wobble_sin <= SCALE
        &&& -SCALE <= self.tilt_cos <= SCALE
        &&& -SCALE <= self.tilt_sin <= SCALE
        &&& 2 * (SCALE as int) <= self.flicker <= 3 * (SCALE as int)
    }

    /// Runtime check of [`RenderSample::wf`], for unverified callers.
    pub fn is_well_formed(&self) -> (b: bool)
        ensures
            b == self.wf(),
    {
        -SCALE <= self.wobble_cos && self.wobble_cos <= SCALE && -SCALE <= self.wobble_sin
            && self.wobble_sin <= SCALE && -SCALE <= self.tilt_cos && self.tilt_cos <= SCALE
            && -SCALE <= self.tilt_sin && self.tilt_sin <= SCALE && 2 * SCALE <= self.flicker
            && self.flicker <= 3 * SCALE
    }
}

/// The geometry of one particle's shape, in pixels.
#[derive(Copy, Clone, Debug, PartialEq, Eq, Structural)]
pub enum DrawShape {
    /// An ellipse around the particle center: radii in fixed-point pixels
    /// and a rotation of `rotation` fixed-point radians (the wobble
    /// phase), swept over the full circle.
    Ellipse { radius_x: i64, radius_y: i64, rotation: i64 },
    /// A closed quadrilateral through four whole-pixel points, in drawing
    /// order.
    Quad { x0: i64, y0: i64, x1: i64, y1: i64, x2: i64, y2: i64, x3: i64, y3: i64 },
}

/// Everything the canvas needs to draw one particle.
#[derive(Debug)]
pub struct DrawCommand {
    /// CSS fill color.
    pub color: String,
    /// Opacity, fixed-point from 0 (transparent) to `SCALE` (opaque): the
    /// fraction of the particle's life remaining.
    pub alpha: i64,
    /// Particle center, fixed-point pixels from the canvas left edge.
    pub center_x: i64,
    /// Particle center, fixed-point pixels from the canvas top edge.
    pub center_y: i64,
    /// The geometry to fill.
    pub shape: DrawShape,
}

/// Horizontal particle center in fixed-point pixels: the normalized `x`
/// mapped over the canvas width.
pub open spec fn center_x_of(p: Particle, props: ConfettiProps) -> int {
    p.x * props.width
}

/// Vertical particle center in fixed-point pixels: the normalized `y`
/// mapped over the canvas height, flipped so `y == 0` is the bottom edge.
pub open spec fn center_y_of(p: Particle, props: ConfettiProps) -> int {
    props.height * (SCALE - p.y)
}

/// Horizontal wobble anchor: the center offset by the wobble cosine times
/// the particle size.
pub open spec fn wobble_x_of(p: Particle, props: ConfettiProps, samp: RenderSample) -> int {
    center_x_of(p, props) + fix_mul(samp.wobble_cos as int, props.scalar as int)
}

/// Vertical wobble anchor.
pub open spec fn wobble_y_of(p: Particle, props: ConfettiProps, samp: RenderSample) -> int {
    center_y_of(p, props) + fix_mul(samp.wobble_sin as int, props.scalar as int)
}

/// Horizontal tilt offset: the tilt cosine times the flicker length.
pub open spec fn tilt_dx_of(samp: RenderSample) -> int {
    fix_mul(samp.tilt_cos as int, samp.flicker as int)
}

/// Vertical tilt offset.
pub open spec fn tilt_dy_of(samp: RenderSample) -> int {
    fix_mul(samp.tilt_sin as int, samp.flicker as int)
}

/// Opacity: the fraction of life remaining, fixed-point.
pub open spec fn alpha_of(p: Particle) -> int {
    p.life_remaining_ms() * SCALE / (p.lifespan_ms as int)
}

/// A fixed-point pixel coordinate floored to a whole pixel.
pub open spec fn pixel_of(v: int) -> int {
    v / (SCALE as int)
}

/// The draw command for one particle, given the pre-computed render
/// sample.
pub fn draw_command(p: &Particle, props: &ConfettiProps, samp: &RenderSample) -> (cmd:
    DrawCommand)
    requires
        p.wf(),
        props.wf(),
        samp.wf(),
        p.lifespan_ms >= 1,
    ensures
        cmd.color == p.color,
        cmd.alpha as int == alpha_of(*p),
        0 <= cmd.alpha <= SCALE,
        cmd.center_x as int == center_x_of(*p, *props),
        cmd.center_y as int == center_y_of(*p, *props),
        p.shape == Shape::Circle ==> cmd.shape == (DrawShape::Ellipse {
            radius_x: (abs(fix_mul(samp.wobble_cos as int, props.scalar as int)) / 2) as i64,
            radius_y: (abs(fix_mul(samp.wobble_sin as int, props.scalar as int)) / 2) as i64,
            rotation: p.wobble,
        }),
        p.shape == Shape::Square ==> cmd.shape == (DrawShape::Quad {
            x0: pixel_of(center_x_of(*p, *props)) as i64,
            y0: pixel_of(center_y_of(*p, *props)) as i64,
            x1: pixel_of(wobble_x_of(*p, *props, *samp)) as i64,
            y1: pixel_of(center_y_of(*p, *props) + tilt_dy_of(*samp)) as i64,
            x2: pixel_of(wobble_x_of(*p, *props, *samp) + tilt_dx_of(*samp)) as i64,
            y2: pixel_of(wobble_y_of(*p, *props, *samp) + tilt_dy_of(*samp)) as i64,
            x3: pixel_of(center_x_of(*p, *props) + tilt_dx_of(*samp)) as i64,
            y3: pixel_of(wobble_y_of(*p, *props, *samp)) as i64,
        }),
{
    let width_fix: i64 = (props.width as i64) * SCALE;
    let height_fix: i64 = (props.height as i64) * SCALE;
    proof {
        assert(p.x as int * (width_fix as int) == (SCALE as int) * (p.x as int
            * props.width as int) && -200_000_000_000_000_000 <= p.x as int
            * props.width as int <= 200_000_000_000_000_000) by (nonlinear_arith)
            requires
                -20_000_000_000_000 <= p.x as int <= 20_000_000_000_000,
                0 < props.width as int <= 8192,
                width_fix as int == props.width as int * (SCALE as int),
                SCALE == 1_000_000,
        ;
        lemma_div_multiples_vanish(p.x as int * props.width as int, SCALE as int);
    }
    let center_x: i64 = map_ranges(p.x, 0, SCALE, 0, width_fix);
    proof {
        assert((p.y as int - 0) * (0 - height_fix as int) == (SCALE as int) * (-(p.y as int
            * props.height as int)) && -200_000_000_000_000_000 <= p.y as int
            * props.height as int <= 200_000_000_000_000_000 && height_fix as int + (-(
        p.y as int * props.height as int)) == props.height as int * (SCALE as int
            - p.y as int)) by (nonlinear_arith)
            requires
                -20_000_000_000_000 <= p.y as int <= 20_000_000_000_000,
                0 < props.height as int <= 8192,
                height_fix as int == props.height as int * (SCALE as int),
                SCALE == 1_000_000,
        ;
        lemma_div_multiples_vanish(-(p.y as int * props.height as int), SCALE as int);
    }
    let center_y: i64 = map_ranges(p.y, 0, SCALE, height_fix, 0);
    proof {
        assert(samp.wobble_cos as int * (props.scalar as int) <= 2_000_000_000_000_000
            && samp.wobble_cos as int * (props.scalar as int) >= -2_000_000_000_000_000
            && samp.wobble_sin as int * (props.scalar as int) <= 2_000_000_000_000_000
            && samp.wobble_sin as int * (props.scalar as int) >= -2_000_000_000_000_000)
            by (nonlinear_arith)
            requires
                -1_000_000 <= samp.wobble_cos as int <= 1_000_000,
                -1_000_000 <= samp.wobble_sin as int <= 1_000_000,
                0 <= props.scalar as int <= 1_000_000_000,
        ;
        lemma_fix_mul_unit_bound(samp.wobble_cos as int, props.scalar as int);
        lemma_fix_mul_unit_bound(samp.wobble_sin as int, props.scalar as int);
        assert(samp.tilt_cos as int * (samp.flicker as int) <= 4_000_000_000_000
            && samp.tilt_cos as int * (samp.flicker as int) >= -4_000_000_000_000
            && samp.tilt_sin as int * (samp.flicker as int) <= 4_000_000_000_000
            && samp.tilt_sin as int * (samp.flicker as int) >= -4_000_000_000_000)
            by (nonlinear_arith)
            requires
                -1_000_000 <= samp.tilt_cos as int <= 1_000_000,
                -1_000_000 <= samp.tilt_sin as int <= 1_000_000,
                0 <= samp.flicker as int <= 3_000_000,
        ;
        lemma_fix_mul_unit_bound(samp.tilt_cos as int, samp.flicker as int);
        lemma_fix_mul_unit_bound(samp.tilt_sin as int, samp.flicker as int);
    }
    let wobble_dx: i64 = mul_fixed(samp.wobble_cos, props.scalar);
    let wobble_dy: i64 = mul_fixed(samp.wobble_sin, props.scalar);
    let tilt_dx: i64 = mul_fixed(samp.tilt_cos, samp.flicker);
    let tilt_dy: i64 = mul_fixed(samp.tilt_sin, samp.flicker);
    let wobble_x: i64 = center_x + wobble_dx;
    let wobble_y: i64 = center_y + wobble_dy;

    let life_ms: u64 = if p.age_ms < p.lifespan_ms {
        p.lifespan_ms - p.age_ms
    } else {
        0
    };
    proof {
        assert(life_ms as int * (SCALE as int) <= p.lifespan_ms as int * (SCALE as int))
            by (nonlinear_arith)
            requires
                0 <= life_ms as int <= p.lifespan_ms as int,
                SCALE == 1_000_000,
        ;
        lemma_div_is_ordered(
            life_ms as int * (SCALE as int),
            p.lifespan_ms as int * (SCALE as int),
            p.lifespan_ms as int,
        );
        lemma_div_multiples_vanish(SCALE as int, p.lifespan_ms as int);
        lemma_div_pos_is_pos(life_ms as int * (SCALE as int), p.lifespan_ms as int);
    }
    let alpha: i64 = ((life_ms * (SCALE as u64)) / p.lifespan_ms) as i64;

    let shape: DrawShape = match p.shape {
        Shape::Circle => {
            let rx_raw: i64 = if wobble_dx >= 0 {
                wobble_dx
            } else {
                -wobble_dx
            };
            let ry_raw: i64 = if wobble_dy >= 0 {
                wobble_dy
            } else {
                -wobble_dy
            };
            DrawShape::Ellipse {
                radius_x: div_floor(rx_raw, 2),
                radius_y: div_floor(ry_raw, 2),
                rotation: p.wobble,
            }
        },
        Shape::Square => DrawShape::Quad {
            x0: div_floor(center_x, SCALE),
            y0: div_floor(center_y, SCALE),
            x1: div_floor(wobble_x, SCALE),
            y1: div_floor(center_y + tilt_dy, SCALE),
            x2: div_floor(wobble_x + tilt_dx, SCALE),
            y2: div_floor(wobble_y + tilt_dy, SCALE),
            x3: div_floor(center_x + tilt_dx, SCALE),
            y3: div_floor(wobble_y, SCALE),
        },
    };
    DrawCommand { color: p.color.clone(), alpha, center_x, center_y, shape }
}

} // verus!
