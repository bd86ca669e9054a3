//! The per-boid kinematic state: position, velocity and last heading, all in
//! bounded integer arena units, together with its mathematical model.

use vstd::prelude::*;
use crate::math::{abs_i, sat, sat_e};
use crate::config::{POS_LIMIT, SPEED_LIMIT};

verus! {

/// A plain 2D integer vector, used for positions and velocities at the API.
#[derive(Clone, Copy, PartialEq, Eq, Structural, Debug)]
pub struct Vec2 {
    pub x: i64,
    pub y: i64,
}

impl Vec2 {
    pub fn new(x: i64, y: i64) -> (r: Vec2)
        ensures
            r.x == x,
            r.y == y,
    {
        Vec2 { x, y }
    }
}

/// The mathematical model of an agent: its kinematic state over the integers.
pub ghost struct AgentModel {
    pub px: int,
    pub py: int,
    pub vx: int,
    pub vy: int,
    pub hx: int,
    pub hy: int,
}

/// Well-formedness of an agent model: coordinates within the hard safety
/// bounds, and a heading that is never the zero vector.
pub open spec fn agent_wf(a: AgentModel) -> bool {
    &&& abs_i(a.px) <= POS_LIMIT as int
    &&& abs_i(a.py) <= POS_LIMIT as int
    &&& abs_i(a.vx) <= SPEED_LIMIT as int
    &&& abs_i(a.vy) <= SPEED_LIMIT as int
    &&& abs_i(a.hx) <= SPEED_LIMIT as int
    &&& abs_i(a.hy) <= SPEED_LIMIT as int
    &&& !(a.hx == 0 && a.hy == 0)
}

/// The state `Agent::new` produces: inputs saturated into the safety bounds,
/// the heading taken from the velocity, or pointing along the positive x
/// axis when the velocity is zero.
pub open spec fn agent_new_model(px: int, py: int, vx: int, vy: int) -> AgentModel {
    let sx = sat(px, POS_LIMIT as int);
    let sy = sat(py, POS_LIMIT as int);
    let wx = sat(vx, SPEED_LIMIT as int);
    let wy = sat(vy, SPEED_LIMIT as int);
    AgentModel {
        px: sx,
        py: sy,
        vx: wx,
        vy: wy,
        hx: if wx == 0 && wy == 0 {
            1
        } else {
            wx
        },
        hy: if wx == 0 && wy == 0 {
            0
        } else {
            wy
        },
    }
}

/// Crate-internal bridge between an agent's fields and its model.
pub(crate) broadcast proof fn lemma_agent_view(a: Agent)
    ensures
        #[trigger] a@ == (AgentModel {
            px: a.px as int,
            py: a.py as int,
            vx: a.vx as int,
            vy: a.vy as int,
            hx: a.hx as int,
            hy: a.hy as int,
        }),
{
}

/// The models of a sequence of agents, in the same order.
pub open spec fn models(s: Seq<Agent>) -> Seq<AgentModel> {
    s.map_values(|a: Agent| a@)
}

/// One boid: immutable from outside, mutated only by `Flock::update`.
#[derive(Clone, Copy, PartialEq, Eq, Structural, Debug)]
pub struct Agent {
    pub(crate) px: i64,
    pub(crate) py: i64,
    pub(crate) vx: i64,
    pub(crate) vy: i64,
    pub(crate) hx: i64,
    pub(crate) hy: i64,
}

impl View for Agent {
    type V = AgentModel;

    closed spec fn view(&self) -> AgentModel {
        AgentModel {
            px: self.px as int,
            py: self.py as int,
            vx: self.vx as int,
            vy: self.vy as int,
            hx: self.hx as int,
            hy: self.hy as int,
        }
    }
}

impl Agent {
    /// Build an agent from a requested position and velocity. Out-of-range
    /// coordinates are saturated into the safety bounds rather than rejected.
    pub fn new(px: i64, py: i64, vx: i64, vy: i64) -> (a: Agent)
        ensures
            a@ == agent_new_model(px as int, py as int, vx as int, vy as int),
            agent_wf(a@),
    {
        let sx = sat_e(px, POS_LIMIT);
        let sy = sat_e(py, POS_LIMIT);
        let wx = sat_e(vx, SPEED_LIMIT);
        let wy = sat_e(vy, SPEED_LIMIT);
        let zero_vel = wx == 0 && wy == 0;
        Agent {
            px: sx,
            py: sy,
            vx: wx,
            vy: wy,
            hx: if zero_vel {
                1
            } else {
                wx
            },
            hy: if zero_vel {
                0
            } else {
                wy
            },
        }
    }

    /// Internal constructor for verified code that already has a model.
    pub(crate) fn from_parts(px: i64, py: i64, vx: i64, vy: i64, hx: i64, hy: i64) -> (a: Agent)
        ensures
            a@ == (AgentModel {
                px: px as int,
                py: py as int,
                vx: vx as int,
                vy: vy as int,
                hx: hx as int,
                hy: hy as int,
            }),
    {
        Agent { px, py, vx, vy, hx, hy }
    }

    /// Runtime check of `agent_wf`.
    pub fn is_wf(&self) -> (r: bool)
        ensures
            r == agent_wf(self@),
    {
        -POS_LIMIT <= self.px && self.px <= POS_LIMIT && -POS_LIMIT <= self.py && self.py
            <= POS_LIMIT && -SPEED_LIMIT <= self.vx && self.vx <= SPEED_LIMIT && -SPEED_LIMIT
            <= self.vy && self.vy <= SPEED_LIMIT && -SPEED_LIMIT <= self.hx && self.hx
            <= SPEED_LIMIT && -SPEED_LIMIT <= self.hy && self.hy <= SPEED_LIMIT && !(self.hx == 0
            && self.hy == 0)
    }

    /// Current position.
    pub fn position(&self) -> (r: Vec2)
        ensures
            r.x as int == self@.px,
            r.y as int == self@.py,
    {
        Vec2 { x: self.px, y: self.py }
    }

    /// Current velocity.
    pub fn velocity(&self) -> (r: Vec2)
        ensures
            r.x as int == self@.vx,
            r.y as int == self@.vy,
    {
        Vec2 { x: self.vx, y: self.vy }
    }

    /// Last non-degenerate heading direction (not normalized).
    pub fn heading(&self) -> (r: Vec2)
        ensures
            r.x as int == self@.hx,
            r.y as int == self@.hy,
    {
        Vec2 { x: self.hx, y: self.hy }
    }
}

} // verus!
