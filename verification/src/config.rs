//! Simulation limits, tunable per-flock constants, and construction errors.

use vstd::prelude::*;
use crate::math::abs_i;

verus! {

/// Largest accepted arena side length, in arena units.
pub const ARENA_LIMIT: i64 = 100_000;

/// Hard safety bound on agent coordinates; far outside any accepted arena.
pub const POS_LIMIT: i64 = 1_000_000;

/// Largest accepted speed bound, in arena units per second.
pub const SPEED_LIMIT: i64 = 100_000;

/// Largest time step accepted for one frame, in milliseconds.
pub const DT_LIMIT: i64 = 1000;

/// Largest magnitude accepted for a behavior weight.
pub const WEIGHT_LIMIT: i64 = 100;

/// Largest accepted interaction radius.
pub const RADIUS_LIMIT: i64 = 1_000_000;

/// Numerator scale of the inverse-distance separation weighting.
pub const SEP_SCALE: i64 = 10_000;

/// Largest agent count a flock will hold.
pub const MAX_AGENTS: usize = 1000;

/// Saturation bound on velocity components before the speed clamp.
pub const VEL_CAP: i64 = 1_000_000_000;

/// Saturation bound on steering acceleration components.
pub const ACC_LIMIT: i64 = 3_000_000_000_000_000;

/// Per-flock tunable constants: interaction radii, behavior blend weights,
/// and the speed bounds enforced after every integration step.
#[derive(Clone, Copy, PartialEq, Eq, Structural, Debug)]
pub struct Config {
    /// Lower bound on agent speed, arena units per second.
    pub min_speed: i64,
    /// Upper bound on agent speed, arena units per second.
    pub max_speed: i64,
    /// Radius of the separation behavior.
    pub separation_radius: i64,
    /// Radius of the alignment behavior.
    pub alignment_radius: i64,
    /// Radius of the cohesion behavior.
    pub cohesion_radius: i64,
    /// Radius of effect of the point of interest.
    pub poi_radius: i64,
    /// Blend weight of separation.
    pub separation_weight: i64,
    /// Blend weight of alignment.
    pub alignment_weight: i64,
    /// Blend weight of cohesion.
    pub cohesion_weight: i64,
    /// Blend weight of boundary avoidance.
    pub boundary_weight: i64,
    /// Blend weight of the point-of-interest response; positive repels,
    /// negative attracts.
    pub poi_weight: i64,
}

impl Config {
    /// The ranges within which every field must lie.
    pub open spec fn valid(self) -> bool {
        &&& 1 <= self.min_speed as int
        &&& self.min_speed as int <= self.max_speed as int
        &&& self.max_speed as int <= SPEED_LIMIT as int
        &&& 0 <= self.separation_radius as int <= RADIUS_LIMIT as int
        &&& 0 <= self.alignment_radius as int <= RADIUS_LIMIT as int
        &&& 0 <= self.cohesion_radius as int <= RADIUS_LIMIT as int
        &&& 0 <= self.poi_radius as int <= RADIUS_LIMIT as int
        &&& abs_i(self.separation_weight as int) <= WEIGHT_LIMIT as int
        &&& abs_i(self.alignment_weight as int) <= WEIGHT_LIMIT as int
        &&& abs_i(self.cohesion_weight as int) <= WEIGHT_LIMIT as int
        &&& abs_i(self.boundary_weight as int) <= WEIGHT_LIMIT as int
        &&& abs_i(self.poi_weight as int) <= WEIGHT_LIMIT as int
    }

    /// Runtime check of `valid`.
    pub fn is_valid(&self) -> (r: bool)
        ensures
            r == self.valid(),
    {
        1 <= self.min_speed && self.min_speed <= self.max_speed && self.max_speed <= SPEED_LIMIT
            && 0 <= self.separation_radius && self.separation_radius <= RADIUS_LIMIT
            && 0 <= self.alignment_radius && self.alignment_radius <= RADIUS_LIMIT
            && 0 <= self.cohesion_radius && self.cohesion_radius <= RADIUS_LIMIT
            && 0 <= self.poi_radius && self.poi_radius <= RADIUS_LIMIT
            && -WEIGHT_LIMIT <= self.separation_weight && self.separation_weight <= WEIGHT_LIMIT
            && -WEIGHT_LIMIT <= self.alignment_weight && self.alignment_weight <= WEIGHT_LIMIT
            && -WEIGHT_LIMIT <= self.cohesion_weight && self.cohesion_weight <= WEIGHT_LIMIT
            && -WEIGHT_LIMIT <= self.boundary_weight && self.boundary_weight <= WEIGHT_LIMIT
            && -WEIGHT_LIMIT <= self.poi_weight && self.poi_weight <= WEIGHT_LIMIT
    }
}

/// The configuration a flock is given when none is chosen by the caller.
pub open spec fn standard_config() -> Config {
    Config {
        min_speed: 30,
        max_speed: 200,
        separation_radius: 50,
        alignment_radius: 100,
        cohesion_radius: 100,
        poi_radius: 150,
        separation_weight: 8,
        alignment_weight: 1,
        cohesion_weight: 1,
        boundary_weight: 20,
        poi_weight: 2,
    }
}

pub proof fn lemma_standard_config_valid()
    ensures
        standard_config().valid(),
{
}

impl Default for Config {
    /// The standard tuning.
    fn default() -> (r: Config)
        ensures
            r == standard_config(),
            r.valid(),
    {
        Config {
            min_speed: 30,
            max_speed: 200,
            separation_radius: 50,
            alignment_radius: 100,
            cohesion_radius: 100,
            poi_radius: 150,
            separation_weight: 8,
            alignment_weight: 1,
            cohesion_weight: 1,
            boundary_weight: 20,
            poi_weight: 2,
        }
    }
}

/// Why constructing a flock failed.
#[derive(Clone, Copy, PartialEq, Eq, Structural, Debug)]
pub enum FlockError {
    /// The requested agent count was zero.
    ZeroAgents,
    /// The requested agent count exceeds `MAX_AGENTS`.
    TooManyAgents,
    /// The initial arena size was not in `[1, ARENA_LIMIT]`.
    InvalidArenaSize,
    /// A supplied configuration field was out of range.
    InvalidConfig,
    /// A supplied agent was outside the safety bounds.
    InvalidAgent,
}

} // verus!
