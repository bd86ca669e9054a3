//! A 2D boids simulation on integer arithmetic: a `Flock` of agents steered
//! each frame by separation, alignment, cohesion, boundary avoidance and a
//! point of interest, integrated with a semi-implicit Euler step and a hard
//! speed clamp, and emitted as colored vertices for an external renderer.

pub mod agent;
pub mod config;
pub mod flock;
pub mod math;
pub mod render;
pub mod speed;
pub mod steer;
