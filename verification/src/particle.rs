//! One confetti particle: fixed-point state, spawning, and per-substep
//! physics.
//!
//! The vertical convention is normalized-up: `y` grows upward, so positive
//! gravity subtracts from the vertical motion. A particle keeps the
//! velocity it was launched with; its current velocity at age `t`
//! milliseconds is that initial velocity times `decay_per_ms` to the power
//! `t`, so it depends only on the particle's age, never on how the elapsed
//! time was cut into steps.

use vstd::prelude::*;

use crate::config::{Cannon, ConfettiProps, MAX_LIFESPAN_MS, MAX_MAGNITUDE, MAX_OFFSET};
use crate::fixed::{
    div_floor, fix_mul, lemma_fix_mul_fraction_bound, lemma_fix_mul_scaled_bound,
    lemma_fix_mul_unit_bound, lemma_step_bound, mul_fixed, SCALE,
};

verus! {

use vstd::arithmetic::div_mod::lemma_div_pos_is_pos;
use vstd::arithmetic::mul::lemma_mul_nonnegative;

/// Longest accepted single advance step, in milliseconds.
pub const MAX_STEP_MS: u64 = 1_000_000;

/// Particle shape.
#[derive(Copy, Clone, PartialEq, Eq, Debug, Structural)]
pub enum Shape {
    Circle,
    Square,
}

/// The random ingredients of one spawned particle, pre-sampled by the
/// caller: the direction cosine and sine after the cone jitter, the factor
/// on the cannon's velocity, the initial wobble phase and speed, the
/// initial tilt, and which entries of the cannon's palettes to use.
#[derive(Copy, Clone, Debug)]
pub struct SpawnSeed {
    /// Cosine of the jittered launch direction, fixed-point.
    pub dir_x: i64,
    /// Sine of the jittered launch direction, fixed-point.
    pub dir_y: i64,
    /// Fixed-point factor on the cannon's velocity (nominally 0.8 to 1.0).
    pub speed_factor: i64,
    /// Initial wobble phase, fixed-point radians (nominally 0 to 1).
    pub wobble: i64,
    /// Wobble speed, fixed-point radians per second (nominally 0.01 to
    /// 0.015).
    pub wobble_speed: i64,
    /// Initial tilt angle, fixed-point radians (nominally 0 to 2 pi).
    pub tilt_angle: i64,
    /// Which of the cannon's colors this particle wears.
    pub color_index: usize,
    /// Which of the cannon's shapes this particle has.
    pub shape_index: usize,
}

impl SpawnSeed {
    /// Range bounds, and palette indices that exist in the given cannon.
    pub open spec fn wf(&self, cannon: Cannon) -> bool {
        &&& -SCALE <= self.dir_x <= SCALE
        &&& -SCALE <= self.dir_y <= SCALE
        &&& 0 <= self.speed_factor <= 2 * (SCALE as int)
        &&& 0 <= self.wobble <= SCALE
        &&& 0 <= self.wobble_speed <= 100_000
        &&& 0 <= self.tilt_angle <= 8 * (SCALE as int)
        &&& self.color_index < cannon.colors@.len()
        &&& self.shape_index < cannon.shapes@.len()
    }

    /// Runtime check of [`SpawnSeed::wf`], for unverified callers.
    pub fn is_well_formed(&self, cannon: &Cannon) -> (b: bool)
        ensures
            b == self.wf(*cannon),
    {
        -SCALE <= self.dir_x && self.dir_x <= SCALE && -SCALE <= self.dir_y && self.dir_y <= SCALE
            && 0 <= self.speed_factor && self.speed_factor <= 2 * SCALE && 0 <= self.wobble
            && self.wobble <= SCALE && 0 <= self.wobble_speed && self.wobble_speed <= 100_000 && 0
            <= self.tilt_angle && self.tilt_angle <= 8 * SCALE && self.color_index
            < cannon.colors.len() && self.shape_index < cannon.shapes.len()
    }
}

/// One live confetti particle.
#[derive(Debug)]
pub struct Particle {
    /// Horizontal position, fixed-point normalized (`0` left, `SCALE`
    /// right).
    pub x: i64,
    /// Vertical position, fixed-point normalized (`0` bottom, `SCALE`
    /// top).
    pub y: i64,
    /// Wobble phase, fixed-point radians.
    pub wobble: i64,
    /// Wobble speed, fixed-point radians per second.
    pub wobble_speed: i64,
    /// The velocity the particle was launched with, fixed-point units per
    /// second; the current velocity follows from it and the age.
    pub initial_velocity: i64,
    /// Cosine of the direction of travel, fixed-point.
    pub dir_x: i64,
    /// Sine of the direction of travel, fixed-point.
    pub dir_y: i64,
    /// Tilt angle for shape orientation, fixed-point radians.
    pub tilt_angle: i64,
    /// CSS color.
    pub color: String,
    /// Shape.
    pub shape: Shape,
    /// Milliseconds lived so far.
    pub age_ms: u64,
    /// Total milliseconds to live.
    pub lifespan_ms: u64,
}

/// `factor` raised to the power `n`, in fixed-point arithmetic by
/// squaring; the decay model of the simulation.
pub open spec fn decay_pow(factor: i64, n: u64) -> int
    decreases n,
{
    if n == 0 {
        SCALE as int
    } else if n % 2 == 0 {
        fix_mul(decay_pow(factor, n / 2), decay_pow(factor, n / 2))
    } else {
        fix_mul(factor as int, decay_pow(factor, (n - 1) as u64))
    }
}

/// A decay factor of at most one keeps every power between zero and one.
pub proof fn lemma_decay_pow_bounds(factor: i64, n: u64)
    requires
        0 <= factor <= SCALE,
    ensures
        0 <= decay_pow(factor, n) <= SCALE,
    decreases n,
{
    if n == 0 {
    } else if n % 2 == 0 {
        lemma_decay_pow_bounds(factor, n / 2);
        lemma_fix_mul_fraction_bound(decay_pow(factor, n / 2), decay_pow(factor, n / 2));
    } else {
        lemma_decay_pow_bounds(factor, (n - 1) as u64);
        lemma_fix_mul_fraction_bound(factor as int, decay_pow(factor, (n - 1) as u64));
        lemma_fix_mul_unit_bound(factor as int, decay_pow(factor, (n - 1) as u64));
    }
}

/// Exec mirror of [`decay_pow`].
pub fn decay_factor(factor: i64, n: u64) -> (r: i64)
    requires
        0 <= factor <= SCALE,
    ensures
        r as int == decay_pow(factor, n),
        0 <= r <= SCALE,
    decreases n,
{
    proof {
        lemma_decay_pow_bounds(factor, n);
    }
    if n == 0 {
        SCALE
    } else if n % 2 == 0 {
        let half: i64 = decay_factor(factor, n / 2);
        proof {
            assert(half * half <= 1_000_000_000_000) by (nonlinear_arith)
                requires
                    0 <= half <= 1_000_000,
            ;
        }
        mul_fixed(half, half)
    } else {
        let rest: i64 = decay_factor(factor, n - 1);
        proof {
            assert(factor * rest <= 1_000_000_000_000) by (nonlinear_arith)
                requires
                    0 <= factor <= 1_000_000,
                    0 <= rest <= 1_000_000,
            ;
        }
        mul_fixed(factor, rest)
    }
}

/// The particle's current velocity: the launch velocity decayed once per
/// millisecond of age.
pub open spec fn velocity_of(p: Particle, props: ConfettiProps) -> int {
    fix_mul(p.initial_velocity as int, decay_pow(props.decay_per_ms, p.age_ms))
}

/// The particle after one advance of `dt_ms` milliseconds: it moves along
/// its direction at the current velocity plus drift sideways and minus
/// gravity vertically, wobbles and tilts on, and ages.
pub open spec fn advanced(p: Particle, dt_ms: u64, props: ConfettiProps) -> Particle {
    let vel = velocity_of(p, props);
    Particle {
        x: (p.x + (fix_mul(p.dir_x as int, vel) + props.drift) * dt_ms / 1000) as i64,
        y: (p.y + (fix_mul(p.dir_y as int, vel) - props.gravity) * dt_ms / 1000) as i64,
        wobble: (p.wobble + p.wobble_speed * dt_ms / 1000) as i64,
        tilt_angle: (p.tilt_angle + (SCALE as int) / 10 * dt_ms / 1000) as i64,
        age_ms: (p.age_ms + dt_ms) as u64,
        ..p
    }
}

impl Particle {
    /// Largest coordinate magnitude a particle of this age can have
    /// reached: it starts within [`MAX_OFFSET`] and moves at most
    /// 4 fixed-point units per millisecond.
    pub open spec fn coord_limit(&self) -> int {
        MAX_OFFSET + 4_000_000 * (self.age_ms as int)
    }

    /// Range bounds that spawning establishes and advancing preserves.
    pub open spec fn wf(&self) -> bool {
        &&& -SCALE <= self.dir_x <= SCALE
        &&& -SCALE <= self.dir_y <= SCALE
        &&& 0 <= self.initial_velocity <= 2 * (MAX_MAGNITUDE as int)
        &&& 0 <= self.wobble_speed <= 100_000
        &&& self.lifespan_ms <= MAX_LIFESPAN_MS
        &&& self.age_ms <= self.lifespan_ms + MAX_STEP_MS
        &&& -self.coord_limit() <= self.x <= self.coord_limit()
        &&& -self.coord_limit() <= self.y <= self.coord_limit()
        &&& 0 <= self.wobble <= SCALE + 100 * (self.age_ms as int)
        &&& 0 <= self.tilt_angle <= 8 * (SCALE as int) + 100 * (self.age_ms as int)
    }

    /// Milliseconds of life left; zero once the lifespan has elapsed.
    pub open spec fn life_remaining_ms(&self) -> int {
        if self.age_ms < self.lifespan_ms {
            self.lifespan_ms - self.age_ms
        } else {
            0
        }
    }

    /// Whether the particle is still alive (to be kept and drawn).
    pub open spec fn is_alive(&self) -> bool {
        self.age_ms < self.lifespan_ms
    }
}

impl Clone for Particle {
    /// An exact copy.
    fn clone(&self) -> (p: Self)
        ensures
            p == *self,
    {
        Particle {
            x: self.x,
            y: self.y,
            wobble: self.wobble,
            wobble_speed: self.wobble_speed,
            initial_velocity: self.initial_velocity,
            dir_x: self.dir_x,
            dir_y: self.dir_y,
            tilt_angle: self.tilt_angle,
            color: self.color.clone(),
            shape: self.shape,
            age_ms: self.age_ms,
            lifespan_ms: self.lifespan_ms,
        }
    }
}

/// The particle a seed, a cannon and the global configuration determine:
/// it starts at the cannon's position with the cannon's velocity scaled by
/// the seed's factor, wears the indexed color and shape, and has the
/// configured lifespan ahead of it.
pub open spec fn spawn_spec(seed: SpawnSeed, cannon: Cannon, props: ConfettiProps) -> Particle {
    Particle {
        x: cannon.x,
        y: cannon.y,
        wobble: seed.wobble,
        wobble_speed: seed.wobble_speed,
        initial_velocity: fix_mul(cannon.velocity as int, seed.speed_factor as int) as i64,
        dir_x: seed.dir_x,
        dir_y: seed.dir_y,
        tilt_angle: seed.tilt_angle,
        color: cannon.colors@[seed.color_index as int],
        shape: cannon.shapes@[seed.shape_index as int],
        age_ms: 0,
        lifespan_ms: props.lifespan_ms,
    }
}

impl Particle {
    /// Create one particle from pre-sampled randomness.
    pub fn spawn(seed: &SpawnSeed, cannon: &Cannon, props: &ConfettiProps) -> (p: Particle)
        requires
            seed.wf(*cannon),
            cannon.wf(),
            props.wf(),
        ensures
            p == spawn_spec(*seed, *cannon, *props),
            p.wf(),
            p.is_alive(),
    {
        proof {
            assert(cannon.velocity * seed.speed_factor <= 2_000_000_000_000_000)
                by (nonlinear_arith)
                requires
                    0 <= cannon.velocity <= 1_000_000_000,
                    0 <= seed.speed_factor <= 2_000_000,
            ;
            lemma_fix_mul_scaled_bound(cannon.velocity as int, seed.speed_factor as int, 2);
        }
        let initial_velocity: i64 = mul_fixed(cannon.velocity, seed.speed_factor);
        let color: String = cannon.colors[seed.color_index].clone();
        let shape: Shape = cannon.shapes[seed.shape_index];
        Particle {
            x: cannon.x,
            y: cannon.y,
            wobble: seed.wobble,
            wobble_speed: seed.wobble_speed,
            initial_velocity,
            dir_x: seed.dir_x,
            dir_y: seed.dir_y,
            tilt_angle: seed.tilt_angle,
            color,
            shape,
            age_ms: 0,
            lifespan_ms: props.lifespan_ms,
        }
    }

    /// The particle's current velocity: the launch velocity decayed once
    /// per millisecond of age.
    pub fn current_velocity(&self, props: &ConfettiProps) -> (v: i64)
        requires
            self.wf(),
            props.wf(),
        ensures
            v as int == velocity_of(*self, *props),
            0 <= v <= self.initial_velocity,
    {
        let decayed: i64 = decay_factor(props.decay_per_ms, self.age_ms);
        proof {
            assert(self.initial_velocity * decayed <= 2_000_000_000_000_000)
                by (nonlinear_arith)
                requires
                    0 <= self.initial_velocity <= 2_000_000_000,
                    0 <= decayed <= 1_000_000,
            ;
            lemma_fix_mul_fraction_bound(self.initial_velocity as int, decayed as int);
        }
        mul_fixed(self.initial_velocity, decayed)
    }

    /// Advance the particle by `dt_ms` milliseconds of simulated time and
    /// report whether it is still alive. Life remaining never grows, and
    /// the particle reports dead exactly when its lifespan has elapsed.
    pub fn advance(&mut self, dt_ms: u64, props: &ConfettiProps) -> (alive: bool)
        requires
            old(self).wf(),
            old(self).is_alive(),
            props.wf(),
            dt_ms <= MAX_STEP_MS,
        ensures
            *final(self) == advanced(*old(self), dt_ms, *props),
            final(self).wf(),
            final(self).life_remaining_ms() <= old(self).life_remaining_ms(),
            alive == (final(self).life_remaining_ms() > 0),
            alive == final(self).is_alive(),
    {
        let ghost pre: Particle = *self;
        let dt: i64 = dt_ms as i64;
        let decayed: i64 = decay_factor(props.decay_per_ms, self.age_ms);
        proof {
            assert(pre.initial_velocity * decayed <= 2_000_000_000_000_000) by (nonlinear_arith)
                requires
                    0 <= pre.initial_velocity <= 2_000_000_000,
                    0 <= decayed <= 1_000_000,
            ;
            lemma_fix_mul_fraction_bound(pre.initial_velocity as int, decayed as int);
        }
        let vel: i64 = mul_fixed(self.initial_velocity, decayed);
        proof {
            assert(pre.dir_x * vel <= 2_000_000_000_000_000
                && pre.dir_x * vel >= -2_000_000_000_000_000 && pre.dir_y * vel
                <= 2_000_000_000_000_000 && pre.dir_y * vel >= -2_000_000_000_000_000)
                by (nonlinear_arith)
                requires
                    -1_000_000 <= pre.dir_x <= 1_000_000,
                    -1_000_000 <= pre.dir_y <= 1_000_000,
                    0 <= vel <= 2_000_000_000,
            ;
            lemma_fix_mul_unit_bound(pre.dir_x as int, vel as int);
            lemma_fix_mul_unit_bound(pre.dir_y as int, vel as int);
        }
        let rate_x: i64 = mul_fixed(self.dir_x, vel) + props.drift;
        let rate_y: i64 = mul_fixed(self.dir_y, vel) - props.gravity;
        proof {
            assert(rate_x * dt <= 3_000_000_000_000_000 && rate_x * dt >= -3_000_000_000_000_000
                && rate_y * dt <= 3_000_000_000_000_000 && rate_y * dt
                >= -3_000_000_000_000_000) by (nonlinear_arith)
                requires
                    -3_000_000_000 <= rate_x <= 3_000_000_000,
                    -3_000_000_000 <= rate_y <= 3_000_000_000,
                    0 <= dt <= 1_000_000,
            ;
            lemma_step_bound(rate_x as int, dt as int, 3_000_000_000);
            lemma_step_bound(rate_y as int, dt as int, 3_000_000_000);
            lemma_step_bound(pre.wobble_speed as int, dt as int, 100_000);
            lemma_step_bound(100_000, dt as int, 100_000);
            lemma_mul_nonnegative(pre.wobble_speed as int, dt as int);
            lemma_div_pos_is_pos(pre.wobble_speed as int * dt as int, 1000);
            lemma_div_pos_is_pos(100_000 * dt as int, 1000);
        }
        let sx: i64 = div_floor(rate_x * dt, 1000);
        let sy: i64 = div_floor(rate_y * dt, 1000);
        proof {
            assert(-3_000_000 * (dt as int) <= sx as int <= 3_000_000 * (dt as int));
            assert(-3_000_000 * (dt as int) <= sy as int <= 3_000_000 * (dt as int));
        }
        self.x = self.x + sx;
        self.y = self.y + sy;
        self.wobble = self.wobble + div_floor(self.wobble_speed * dt, 1000);
        self.tilt_angle = self.tilt_angle + div_floor(100_000 * dt, 1000);
        self.age_ms = self.age_ms + dt_ms;
        self.age_ms < self.lifespan_ms
    }
}

/// Life remaining never grows: every advance, by however little or much,
/// leaves a particle with at most the life it had, and a particle is dead
/// exactly when its life remaining has reached zero.
pub proof fn lemma_life_remaining_non_increasing(p: Particle, dt_ms: u64, props: ConfettiProps)
    requires
        p.age_ms + dt_ms <= u64::MAX,
    ensures
        advanced(p, dt_ms, props).life_remaining_ms() <= p.life_remaining_ms(),
        advanced(p, dt_ms, props).is_alive() <==> advanced(p, dt_ms, props).life_remaining_ms()
            > 0,
{
}

/// Total of a sequence of step durations, in milliseconds.
pub open spec fn total_ms(dts: Seq<u64>) -> int
    decreases dts.len(),
{
    if dts.len() == 0 {
        0
    } else {
        dts[0] + total_ms(dts.drop_first())
    }
}

/// The particle after advancing through each step duration in order.
pub open spec fn advanced_many(p: Particle, dts: Seq<u64>, props: ConfettiProps) -> Particle
    decreases dts.len(),
{
    if dts.len() == 0 {
        p
    } else {
        advanced_many(advanced(p, dts[0], props), dts.drop_first(), props)
    }
}

proof fn lemma_total_ms_nonneg(dts: Seq<u64>)
    ensures
        total_ms(dts) >= 0,
    decreases dts.len(),
{
    if dts.len() > 0 {
        lemma_total_ms_nonneg(dts.drop_first());
    }
}

/// Advancing never touches the launch velocity, and ages the particle by
/// exactly the total elapsed time.
proof fn lemma_advanced_many_age(p: Particle, dts: Seq<u64>, props: ConfettiProps)
    requires
        p.age_ms + total_ms(dts) <= u64::MAX,
    ensures
        advanced_many(p, dts, props).initial_velocity == p.initial_velocity,
        advanced_many(p, dts, props).age_ms == p.age_ms + total_ms(dts),
    decreases dts.len(),
{
    if dts.len() > 0 {
        lemma_total_ms_nonneg(dts.drop_first());
        lemma_advanced_many_age(advanced(p, dts[0], props), dts.drop_first(), props);
    }
}

/// Velocity decay is frame-rate independent: advancing a particle through
/// any two breakdowns of the same total elapsed time leaves it with the
/// same velocity, because the current velocity is a function of the
/// particle's age alone. (Positions may differ slightly: each step
/// integrates position with the velocity current at its start.)
pub proof fn lemma_velocity_frame_rate_independent(
    p: Particle,
    dts1: Seq<u64>,
    dts2: Seq<u64>,
    props: ConfettiProps,
)
    requires
        total_ms(dts1) == total_ms(dts2),
        p.age_ms + total_ms(dts1) <= u64::MAX,
    ensures
        velocity_of(advanced_many(p, dts1, props), props) == velocity_of(
            advanced_many(p, dts2, props),
            props,
        ),
{
    lemma_advanced_many_age(p, dts1, props);
    lemma_advanced_many_age(p, dts2, props);
}

} // verus!
