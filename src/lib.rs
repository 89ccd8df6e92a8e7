//! Particle trails driven by a vector field: a bounded ring buffer, per-particle
//! position histories with a growing/draining lifecycle, and an ensemble of
//! such histories that is read back one age offset at a time.

pub mod history;
pub mod limited_list;
pub mod particle;

pub use history::History;
pub use limited_list::LimitedList;
pub use particle::{Particle, Phase, TrailModel};
