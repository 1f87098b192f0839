//! Core of a confetti-animation widget: emitter configuration, millisecond
//! emission scheduling, particle physics, and draw-command generation.
//!
//! All quantities are integers. Continuous quantities (positions, angles,
//! velocities) are fixed-point numbers in micro-units: the value `1.0` is
//! stored as [`fixed::SCALE`] (one million). Times are in milliseconds.
//! The surrounding widget (canvas access, frame scheduling, random sampling)
//! converts at the boundary.

pub mod config;
pub mod draw;
pub mod fixed;
pub mod mode;
pub mod particle;
pub mod sim;

pub use config::{Cannon, ConfettiProps};
pub use draw::{draw_command, DrawCommand, DrawShape, RenderSample};
pub use fixed::SCALE;
pub use mode::{Mode, ModeImpl};
pub use particle::{Particle, Shape, SpawnSeed};
pub use sim::Simulation;
