//! Global simulation configuration and emitter configuration.
//!
//! Continuous quantities are fixed-point micro-units ([`SCALE`] is `1.0`),
//! times are milliseconds. Positions are normalized: `0` is the left/bottom
//! edge of the canvas, [`SCALE`] the right/top edge, and `y` grows upward.

use vstd::prelude::*;

use crate::fixed::SCALE;
use crate::mode::{Mode, ModeImpl};
use crate::particle::Shape;

verus! {

use vstd::string::StringExecFns;

/// Largest magnitude accepted for a configuration quantity such as a
/// velocity, an acceleration or a size (1000.0 in real units).
pub const MAX_MAGNITUDE: i64 = 1_000_000_000;

/// Largest magnitude accepted for an emitter position or angle
/// (16.0 in real units; positions slightly outside the canvas are fine).
pub const MAX_OFFSET: i64 = 16_000_000;

/// Longest accepted particle lifespan, in milliseconds (one hour).
pub const MAX_LIFESPAN_MS: u64 = 3_600_000;

/// Largest accepted canvas resolution, in pixels.
pub const MAX_RESOLUTION: u32 = 8192;

/// Confetti animation options.
#[derive(Copy, Clone, Debug, PartialEq, Eq, Structural)]
pub struct ConfettiProps {
    /// Horizontal resolution of the canvas.
    pub width: u32,
    /// Vertical resolution of the canvas.
    pub height: u32,
    /// Fixed-point fraction of its velocity a particle retains after one
    /// millisecond (`SCALE` means no decay). Applying it once per elapsed
    /// millisecond gives continuous exponential decay, so the result does
    /// not depend on how the elapsed time is cut into frames.
    pub decay_per_ms: i64,
    /// Downward acceleration, fixed-point units per second.
    pub gravity: i64,
    /// Rightward acceleration, fixed-point units per second.
    pub drift: i64,
    /// Number of milliseconds each particle lasts.
    pub lifespan_ms: u64,
    /// Particle size, fixed-point pixels.
    pub scalar: i64,
    /// Don't show any confetti if the user prefers reduced motion.
    pub disable_for_reduced_motion: bool,
}

impl ConfettiProps {
    /// Bounds under which every computation of the simulation fits in 64
    /// bits.
    pub open spec fn wf(&self) -> bool {
        &&& 0 < self.width <= MAX_RESOLUTION
        &&& 0 < self.height <= MAX_RESOLUTION
        &&& 0 <= self.decay_per_ms <= SCALE
        &&& -MAX_MAGNITUDE <= self.gravity <= MAX_MAGNITUDE
        &&& -MAX_MAGNITUDE <= self.drift <= MAX_MAGNITUDE
        &&& 1 <= self.lifespan_ms <= MAX_LIFESPAN_MS
        &&& 0 <= self.scalar <= MAX_MAGNITUDE
    }

    /// Runtime check of [`ConfettiProps::wf`], for unverified callers.
    pub fn is_well_formed(&self) -> (b: bool)
        ensures
            b == self.wf(),
    {
        0 < self.width && self.width <= MAX_RESOLUTION && 0 < self.height && self.height
            <= MAX_RESOLUTION && 0 <= self.decay_per_ms && self.decay_per_ms <= SCALE
            && -MAX_MAGNITUDE <= self.gravity && self.gravity <= MAX_MAGNITUDE && -MAX_MAGNITUDE
            <= self.drift && self.drift <= MAX_MAGNITUDE && 1 <= self.lifespan_ms
            && self.lifespan_ms <= MAX_LIFESPAN_MS && 0 <= self.scalar && self.scalar
            <= MAX_MAGNITUDE
    }

    /// Whether the animation may run, given whether the user prefers
    /// reduced motion (sampled by the host once, at loop start).
    pub fn animation_enabled(&self, prefers_reduced_motion: bool) -> (b: bool)
        ensures
            b == (!self.disable_for_reduced_motion || !prefers_reduced_motion),
    {
        !self.disable_for_reduced_motion || !prefers_reduced_motion
    }
}

impl Default for ConfettiProps {
    /// A 256 by 256 canvas; velocity decays to 30% over each second
    /// (998_797 is the per-millisecond equivalent of that); gravity of one
    /// unit per second, no drift; particles last 2.5 seconds at size 5.0;
    /// reduced motion honored.
    fn default() -> (props: Self)
        ensures
            props == (ConfettiProps {
                width: 256,
                height: 256,
                decay_per_ms: 998_797,
                gravity: 1_000_000,
                drift: 0,
                lifespan_ms: 2500,
                scalar: 5_000_000,
                disable_for_reduced_motion: true,
            }),
            props.wf(),
    {
        ConfettiProps {
            width: 256,
            height: 256,
            decay_per_ms: 998_797,
            gravity: 1_000_000,
            drift: 0,
            lifespan_ms: 2500,
            scalar: 5_000_000,
            disable_for_reduced_motion: true,
        }
    }
}

/// Confetti emitter options.
#[derive(Clone, Debug)]
pub struct Cannon {
    /// Emitter horizontal position. `0` means left edge, `SCALE` right edge.
    pub x: i64,
    /// Emitter vertical position. `0` means bottom edge, `SCALE` top edge.
    pub y: i64,
    /// Launch angle, fixed-point radians (0 = right, pi/2 = up, etc.).
    pub angle: i64,
    /// Random variation in launch angle, fixed-point radians (the jitter
    /// cone is half this wide on each side).
    pub spread: i64,
    /// Initial velocity, fixed-point units per second.
    pub velocity: i64,
    /// CSS color probability distribution. Repeated colors are more likely.
    pub colors: Vec<String>,
    /// Shape probability distribution. Repeated shapes are more likely.
    pub shapes: Vec<Shape>,
    /// How to emit particles.
    pub mode: Mode,
}

impl Cannon {
    /// Bounds under which spawning fits in 64 bits; the palettes must not
    /// be empty, since a spawned particle samples one entry of each.
    pub open spec fn wf(&self) -> bool {
        &&& -MAX_OFFSET <= self.x <= MAX_OFFSET
        &&& -MAX_OFFSET <= self.y <= MAX_OFFSET
        &&& -MAX_OFFSET <= self.angle <= MAX_OFFSET
        &&& -MAX_OFFSET <= self.spread <= MAX_OFFSET
        &&& 0 <= self.velocity <= MAX_MAGNITUDE
        &&& self.colors@.len() >= 1
        &&& self.shapes@.len() >= 1
    }

    /// Runtime check of [`Cannon::wf`], for unverified callers.
    pub fn is_well_formed(&self) -> (b: bool)
        ensures
            b == self.wf(),
    {
        -MAX_OFFSET <= self.x && self.x <= MAX_OFFSET && -MAX_OFFSET <= self.y && self.y
            <= MAX_OFFSET && -MAX_OFFSET <= self.angle && self.angle <= MAX_OFFSET && -MAX_OFFSET
            <= self.spread && self.spread <= MAX_OFFSET && 0 <= self.velocity && self.velocity
            <= MAX_MAGNITUDE && self.colors.len() >= 1 && self.shapes.len() >= 1
    }
}

impl Default for Cannon {
    /// A cannon at the canvas center firing upward (90 degrees) with a 45
    /// degree spread at two units per second, the default palette of seven
    /// colors, both shapes, and the default continuous mode.
    fn default() -> (cannon: Self)
        ensures
            cannon.x == 500_000,
            cannon.y == 500_000,
            cannon.angle == 1_570_796,
            cannon.spread == 785_398,
            cannon.velocity == 2_000_000,
            cannon.colors@.len() == 7,
            cannon.colors@[0]@ == "#26ccff"@,
            cannon.colors@[1]@ == "#a25afd"@,
            cannon.colors@[2]@ == "#ff5e7e"@,
            cannon.colors@[3]@ == "#88ff5a"@,
            cannon.colors@[4]@ == "#fcff42"@,
            cannon.colors@[5]@ == "#ffa62d"@,
            cannon.colors@[6]@ == "#ff36ff"@,
            cannon.shapes@ == seq![Shape::Circle, Shape::Square],
            cannon.mode@ == (ModeImpl::Continuous { rate: 100, start: 0, end: u64::MAX }),
            cannon.wf(),
    {
        let mut colors: Vec<String> = Vec::new();
        colors.push(String::from_str("#26ccff"));
        colors.push(String::from_str("#a25afd"));
        colors.push(String::from_str("#ff5e7e"));
        colors.push(String::from_str("#88ff5a"));
        colors.push(String::from_str("#fcff42"));
        colors.push(String::from_str("#ffa62d"));
        colors.push(String::from_str("#ff36ff"));
        let mut shapes: Vec<Shape> = Vec::new();
        shapes.push(Shape::Circle);
        shapes.push(Shape::Square);
        proof {
            assert(shapes@ =~= seq![Shape::Circle, Shape::Square]);
        }
        Cannon {
            x: 500_000,
            y: 500_000,
            angle: 1_570_796,
            spread: 785_398,
            velocity: 2_000_000,
            colors,
            shapes,
            mode: Mode::default(),
        }
    }
}

} // verus!
