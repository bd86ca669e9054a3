//! The flock: owns the agents, advances them one frame at a time in two
//! strictly separated phases (steer from pre-update state, then integrate),
//! and enforces the speed invariant after every step.

use vstd::prelude::*;
use vstd::seq_lib::group_to_multiset_ensures;
use crate::math::{abs_i, div_q, sat, div_q_e, sat_e};
use crate::math::lemma_mul_abs_bound;
use crate::agent::{Agent, AgentModel, Vec2, agent_wf, models};
use crate::config::{
    Config, FlockError, standard_config, ACC_LIMIT, ARENA_LIMIT, DT_LIMIT, MAX_AGENTS, POS_LIMIT,
    SPEED_LIMIT, VEL_CAP,
};
use crate::speed::{clamp_spec, clamp_e, speed_in_range, lemma_clamp_in_range,
    lemma_range_component_bounds};
use crate::steer::{steer, steer_e, lemma_flock_contrib_permutation};
use crate::render::{ColorVertex, flock_vertices, push_agent_vertices};

verus! {

broadcast use crate::agent::lemma_agent_view;

/// The frame time step after sanitization: negative steps are treated as
/// zero, oversized ones cut to `DT_LIMIT` milliseconds.
pub open spec fn san_dt(dt: int) -> int {
    if dt < 0 {
        0
    } else if dt > DT_LIMIT as int {
        DT_LIMIT as int
    } else {
        dt
    }
}

/// The arena side after sanitization, always in `[1, ARENA_LIMIT]`.
pub open spec fn san_arena(a: int) -> int {
    if a < 1 {
        1
    } else if a > ARENA_LIMIT as int {
        ARENA_LIMIT as int
    } else {
        a
    }
}

/// The border band width after sanitization: non-negative and at most half
/// the arena.
pub open spec fn san_border(b: int, arena: int) -> int {
    if b < 0 {
        0
    } else if 2 * b > arena {
        arena / 2
    } else {
        b
    }
}

/// A point-of-interest coordinate after sanitization.
pub open spec fn san_coord(c: int) -> int {
    sat(c, POS_LIMIT as int)
}

/// Semi-implicit Euler integration of one agent: the acceleration scaled by
/// `dt` milliseconds is added to the velocity, the velocity is clamped into
/// the configured speed band, and the position advances by the new velocity;
/// the heading follows the velocity whenever it is non-zero.
pub open spec fn integrate_model(
    cfg: Config,
    me: AgentModel,
    accx: int,
    accy: int,
    dt: int,
) -> AgentModel {
    let vx1 = sat(me.vx + div_q(accx * dt, 1000), VEL_CAP as int);
    let vy1 = sat(me.vy + div_q(accy * dt, 1000), VEL_CAP as int);
    let v2 = clamp_spec(cfg, vx1, vy1, me.hx, me.hy);
    let px1 = sat(me.px + div_q(v2.0 * dt, 1000), POS_LIMIT as int);
    let py1 = sat(me.py + div_q(v2.1 * dt, 1000), POS_LIMIT as int);
    AgentModel {
        px: px1,
        py: py1,
        vx: v2.0,
        vy: v2.1,
        hx: if v2.0 == 0 && v2.1 == 0 {
            me.hx
        } else {
            v2.0
        },
        hy: if v2.0 == 0 && v2.1 == 0 {
            me.hy
        } else {
            v2.1
        },
    }
}

/// One full frame step of a single agent: steering computed against the
/// pre-update models of all other agents, then integration.
pub open spec fn step_agent(
    cfg: Config,
    arena: int,
    border: int,
    poix: int,
    poiy: int,
    dt: int,
    me: AgentModel,
    others: Seq<AgentModel>,
) -> AgentModel {
    let a = steer(cfg, arena, border, poix, poiy, me, others);
    integrate_model(cfg, me, a.0, a.1, dt)
}

/// A stepped agent is well formed and observes the speed invariant.
pub proof fn lemma_step_agent_wf(
    cfg: Config,
    arena: int,
    border: int,
    poix: int,
    poiy: int,
    dt: int,
    me: AgentModel,
    others: Seq<AgentModel>,
)
    requires
        cfg.valid(),
        agent_wf(me),
    ensures
        agent_wf(step_agent(cfg, arena, border, poix, poiy, dt, me, others)),
        speed_in_range(
            cfg,
            step_agent(cfg, arena, border, poix, poiy, dt, me, others).vx,
            step_agent(cfg, arena, border, poix, poiy, dt, me, others).vy,
        ),
{
    let a = steer(cfg, arena, border, poix, poiy, me, others);
    let vx1 = sat(me.vx + div_q(a.0 * dt, 1000), VEL_CAP as int);
    let vy1 = sat(me.vy + div_q(a.1 * dt, 1000), VEL_CAP as int);
    lemma_clamp_in_range(cfg, vx1, vy1, me.hx, me.hy);
    let v2 = clamp_spec(cfg, vx1, vy1, me.hx, me.hy);
    lemma_range_component_bounds(cfg, v2.0, v2.1);
    assert(cfg.min_speed as int * cfg.min_speed as int >= 1) by (nonlinear_arith)
        requires
            cfg.min_speed as int >= 1,
    ;
    assert(!(v2.0 == 0 && v2.1 == 0));
}

/// Order-invariance of one agent's step: the result depends only on the
/// multiset of the other agents, never on the order they are stored in.
pub proof fn lemma_step_agent_order_invariant(
    cfg: Config,
    arena: int,
    border: int,
    poix: int,
    poiy: int,
    dt: int,
    me: AgentModel,
    s1: Seq<AgentModel>,
    s2: Seq<AgentModel>,
)
    requires
        s1.to_multiset() == s2.to_multiset(),
    ensures
        step_agent(cfg, arena, border, poix, poiy, dt, me, s1) == step_agent(
            cfg,
            arena,
            border,
            poix,
            poiy,
            dt,
            me,
            s2,
        ),
{
    lemma_flock_contrib_permutation(cfg, me, s1, s2);
}

/// Order-invariance of a whole update: if two flocks hold the same agents
/// in different orders, an agent present in both steps to the same state in
/// both. Permuting the internal ordering before an update therefore yields
/// the same post-update states, merely enumerated in the permuted order.
pub proof fn lemma_update_order_invariant(
    cfg: Config,
    arena: int,
    border: int,
    poix: int,
    poiy: int,
    dt: int,
    s1: Seq<AgentModel>,
    s2: Seq<AgentModel>,
    i: int,
    j: int,
)
    requires
        s1.to_multiset() == s2.to_multiset(),
        0 <= i < s1.len(),
        0 <= j < s2.len(),
        s1[i] == s2[j],
    ensures
        step_agent(cfg, arena, border, poix, poiy, dt, s1[i], s1.remove(i)) == step_agent(
            cfg,
            arena,
            border,
            poix,
            poiy,
            dt,
            s2[j],
            s2.remove(j),
        ),
{
    broadcast use group_to_multiset_ensures;

    assert(s1.remove(i).to_multiset() =~= s1.to_multiset().remove(s1[i]));
    assert(s2.remove(j).to_multiset() =~= s2.to_multiset().remove(s2[j]));
    lemma_step_agent_order_invariant(
        cfg,
        arena,
        border,
        poix,
        poiy,
        dt,
        s1[i],
        s1.remove(i),
        s2.remove(j),
    );
}

/// Executable integration of one agent.
fn integrate_e(cfg: &Config, a: Agent, accx: i64, accy: i64, dt: i64) -> (r: Agent)
    requires
        cfg.valid(),
        agent_wf(a@),
        abs_i(accx as int) <= ACC_LIMIT as int,
        abs_i(accy as int) <= ACC_LIMIT as int,
        0 <= dt as int <= DT_LIMIT as int,
    ensures
        r@ == integrate_model(*cfg, a@, accx as int, accy as int, dt as int),
        agent_wf(r@),
        speed_in_range(*cfg, r@.vx, r@.vy),
{
    proof {
        lemma_mul_abs_bound(accx as int, dt as int, ACC_LIMIT as int, DT_LIMIT as int);
        lemma_mul_abs_bound(accy as int, dt as int, ACC_LIMIT as int, DT_LIMIT as int);
    }
    let dvx: i64 = div_q_e(accx * dt, 1000);
    let dvy: i64 = div_q_e(accy * dt, 1000);
    let vx1: i64 = sat_e(a.vx + dvx, VEL_CAP);
    let vy1: i64 = sat_e(a.vy + dvy, VEL_CAP);
    let v2 = clamp_e(cfg, vx1, vy1, a.hx, a.hy);
    proof {
        lemma_range_component_bounds(*cfg, v2.x as int, v2.y as int);
        lemma_mul_abs_bound(v2.x as int, dt as int, SPEED_LIMIT as int, DT_LIMIT as int);
        lemma_mul_abs_bound(v2.y as int, dt as int, SPEED_LIMIT as int, DT_LIMIT as int);
        assert(cfg.min_speed as int * cfg.min_speed as int >= 1) by (nonlinear_arith)
            requires
                cfg.min_speed as int >= 1,
        ;
    }
    let px1: i64 = sat_e(a.px + div_q_e(v2.x * dt, 1000), POS_LIMIT);
    let py1: i64 = sat_e(a.py + div_q_e(v2.y * dt, 1000), POS_LIMIT);
    let keep_heading = v2.x == 0 && v2.y == 0;
    let hx: i64 = if keep_heading {
        a.hx
    } else {
        v2.x
    };
    let hy: i64 = if keep_heading {
        a.hy
    } else {
        v2.y
    };
    Agent::from_parts(px1, py1, v2.x, v2.y, hx, hy)
}

/// The flock: a fixed set of agents and the tuning they move under.
pub struct Flock {
    agents: Vec<Agent>,
    cfg: Config,
}

impl View for Flock {
    type V = Seq<AgentModel>;

    closed spec fn view(&self) -> Seq<AgentModel> {
        models(self.agents@)
    }
}

impl Flock {
    /// The configuration the flock was built with.
    pub closed spec fn spec_config(&self) -> Config {
        self.cfg
    }

    /// Well-formedness: a valid configuration and between 1 and
    /// `MAX_AGENTS` well-formed agents.
    pub closed spec fn wf(&self) -> bool {
        &&& self.cfg.valid()
        &&& 1 <= self@.len() <= MAX_AGENTS as int
        &&& forall|k: int| 0 <= k < self@.len() ==> agent_wf(#[trigger] self@[k])
    }

    /// The configuration, readable at run time.
    pub fn config(&self) -> (c: Config)
        ensures
            c == self.spec_config(),
    {
        self.cfg
    }

    /// How many agents the flock holds; fixed for its whole lifetime.
    pub fn agent_count(&self) -> (n: usize)
        ensures
            n as int == self@.len(),
    {
        self.agents.len()
    }

    /// A copy of agent `i`.
    pub fn agent(&self, i: usize) -> (a: Agent)
        requires
            (i as int) < self@.len(),
        ensures
            a@ == self@[i as int],
    {
        self.agents[i]
    }

    /// Build a flock from explicitly placed agents and a configuration.
    /// Fails on an empty or oversized agent set and on an out-of-range
    /// configuration; an `Ok` flock holds exactly the given agents.
    #[verifier::loop_isolation(false)]
    pub fn from_agents(agents: Vec<Agent>, cfg: Config) -> (r: Result<Flock, FlockError>)
        ensures
            (r is Ok) <==> (1 <= agents@.len() <= MAX_AGENTS as int && cfg.valid() && (forall|
                k: int,
            |
                0 <= k < agents@.len() ==> agent_wf(#[trigger] agents@[k]@))),
            (r matches Ok(f) ==> f.wf() && f@ == models(agents@) && f.spec_config() == cfg),
            (r matches Err(e) ==> e == construction_error(
                agents@.len() as int,
                cfg.valid(),
                forall|k: int| 0 <= k < agents@.len() ==> agent_wf(#[trigger] agents@[k]@),
            )),
    {
        let n = agents.len();
        if n == 0 {
            return Err(FlockError::ZeroAgents);
        }
        if n > MAX_AGENTS {
            return Err(FlockError::TooManyAgents);
        }
        if !cfg.is_valid() {
            return Err(FlockError::InvalidConfig);
        }
        let mut k: usize = 0;
        while k < n
            invariant
                k <= n,
                n == agents@.len(),
                forall|t: int| 0 <= t < k as int ==> agent_wf(#[trigger] agents@[t]@),
            decreases n - k,
        {
            if !agents[k].is_wf() {
                proof {
                    assert(!agent_wf(agents@[k as int]@));
                    assert(!(forall|t: int|
                        0 <= t < agents@.len() ==> agent_wf(#[trigger] agents@[t]@)));
                }
                return Err(FlockError::InvalidAgent);
            }
            k = k + 1;
        }
        Ok(Flock { agents, cfg })
    }

    /// Build a flock of `count` agents with the standard configuration,
    /// placed by a fixed-seed generator uniformly inside the square arena,
    /// with velocities drawn inside the speed band. Fails exactly on a zero
    /// or oversized count and on an arena size outside `[1, ARENA_LIMIT]`.
    #[verifier::loop_isolation(false)]
    #[verifier::rlimit(100)]
    pub fn new(count: usize, arena_size: i64) -> (r: Result<Flock, FlockError>)
        ensures
            (r is Ok) <==> (1 <= count as int <= MAX_AGENTS as int && 1 <= arena_size as int
                <= ARENA_LIMIT as int),
            (r matches Ok(f) ==> {
                &&& f.wf()
                &&& f.spec_config() == standard_config()
                &&& f@.len() == count as int
                &&& forall|i: int|
                    0 <= i < count as int ==> 0 <= #[trigger] f@[i].px <= arena_size as int && 0
                        <= f@[i].py <= arena_size as int
                &&& forall|i: int|
                    0 <= i < count as int ==> speed_in_range(
                        standard_config(),
                        #[trigger] f@[i].vx,
                        f@[i].vy,
                    )
            }),
            (r matches Err(e) ==> e == (if count == 0 {
                FlockError::ZeroAgents
            } else if count as int > MAX_AGENTS as int {
                FlockError::TooManyAgents
            } else {
                FlockError::InvalidArenaSize
            })),
    {
        if count == 0 {
            return Err(FlockError::ZeroAgents);
        }
        if count > MAX_AGENTS {
            return Err(FlockError::TooManyAgents);
        }
        if arena_size < 1 || arena_size > ARENA_LIMIT {
            return Err(FlockError::InvalidArenaSize);
        }
        let cfg = Config::default();
        let v = init_agents(&cfg, count, arena_size);
        Ok(Flock { agents: v, cfg })
    }

    /// Emit the current frame's geometry: one triangle per agent, oriented
    /// along its motion. A pure read: the result is a function of the
    /// flock's state alone, so two draws without an intervening update
    /// produce identical geometry.
    #[verifier::loop_isolation(false)]
    pub fn draw(&self) -> (r: Vec<ColorVertex>)
        requires
            self.wf(),
        ensures
            r@.len() == 3 * self@.len(),
            r@.map_values(|v: ColorVertex| v@) == flock_vertices(self.spec_config(), self@),
    {
        let n: usize = self.agents.len();
        let mut out: Vec<ColorVertex> = Vec::new();
        let mut i: usize = 0;
        while i < n
            invariant
                i <= n,
                out@.len() == 3 * i as int,
                out@.map_values(|v: ColorVertex| v@) == flock_vertices(
                    self.spec_config(),
                    self@.take(i as int),
                ),
            decreases n - i,
        {
            let a: Agent = self.agents[i];
            let zero_v = a.vx == 0 && a.vy == 0;
            let ux: i64 = if zero_v {
                a.hx
            } else {
                a.vx
            };
            let uy: i64 = if zero_v {
                a.hy
            } else {
                a.vy
            };
            proof {
                assert(agent_wf(self@[i as int]));
                assert(self@.take(i as int + 1).drop_last() =~= self@.take(i as int));
                assert(self@.take(i as int + 1).last() == self@[i as int]);
            }
            push_agent_vertices(&self.cfg, a.px, a.py, ux, uy, &mut out, Ghost(self@[i as int]));
            i = i + 1;
        }
        proof {
            assert(self@.take(n as int) =~= self@);
        }
        out
    }

    /// Advance the simulation by `dt_ms` milliseconds. All inputs are
    /// sanitized first; then every agent is steered against the pre-update
    /// state of all others, and integrated. Order of storage never affects
    /// the outcome, and every agent leaves with its speed in the configured
    /// band.
    #[verifier::loop_isolation(false)]
    pub fn update(&mut self, dt_ms: i64, arena_size: i64, border_thickness: i64, poi: Vec2)
        requires
            old(self).wf(),
        ensures
            final(self).wf(),
            final(self).spec_config() == old(self).spec_config(),
            final(self)@.len() == old(self)@.len(),
            forall|k: int|
                0 <= k < old(self)@.len() ==> final(self)@[k] == step_agent(
                    old(self).spec_config(),
                    san_arena(arena_size as int),
                    san_border(border_thickness as int, san_arena(arena_size as int)),
                    san_coord(poi.x as int),
                    san_coord(poi.y as int),
                    san_dt(dt_ms as int),
                    old(self)@[k],
                    old(self)@.remove(k),
                ),
            forall|k: int|
                0 <= k < final(self)@.len() ==> speed_in_range(
                    old(self).spec_config(),
                    #[trigger] final(self)@[k].vx,
                    final(self)@[k].vy,
                ),
    {
        let ghost ms = self@;
        let dt: i64 = if dt_ms < 0 {
            0
        } else if dt_ms > DT_LIMIT {
            DT_LIMIT
        } else {
            dt_ms
        };
        let arena: i64 = if arena_size < 1 {
            1
        } else if arena_size > ARENA_LIMIT {
            ARENA_LIMIT
        } else {
            arena_size
        };
        let border: i64 = if border_thickness < 0 {
            0
        } else if border_thickness > ARENA_LIMIT || 2 * border_thickness > arena {
            div_q_e(arena, 2)
        } else {
            border_thickness
        };
        proof {
            assert(border as int == san_border(border_thickness as int, arena as int));
        }
        let poix: i64 = sat_e(poi.x, POS_LIMIT);
        let poiy: i64 = sat_e(poi.y, POS_LIMIT);
        let n: usize = self.agents.len();
        proof {
            assert forall|k: int| 0 <= k < self.agents@.len() implies agent_wf(
                #[trigger] self.agents@[k]@,
            ) by {
                assert(self@[k] == self.agents@[k]@);
            }
        }
        let mut accs: Vec<Vec2> = Vec::new();
        let mut idx: usize = 0;
        while idx < n
            invariant
                idx <= n,
                accs@.len() == idx as int,
                forall|k: int|
                    0 <= k < idx as int ==> ((#[trigger] accs@[k]).x as int, accs@[k].y as int)
                        == steer(
                        self.cfg,
                        arena as int,
                        border as int,
                        poix as int,
                        poiy as int,
                        ms[k],
                        ms.remove(k),
                    ),
                forall|k: int|
                    0 <= k < idx as int ==> abs_i((#[trigger] accs@[k]).x as int) <= ACC_LIMIT
                        as int && abs_i(accs@[k].y as int) <= ACC_LIMIT as int,
            decreases n - idx,
        {
            let a = steer_e(&self.cfg, arena, border, poix, poiy, &self.agents, idx);
            accs.push(a);
            idx = idx + 1;
        }
        let mut idx: usize = 0;
        while idx < n
            invariant
                idx <= n,
                self.agents@.len() == n as int,
                self.cfg == old(self).spec_config(),
                forall|k: int| idx as int <= k < n as int ==> self.agents@[k] == old(
                    self,
                ).agents@[k],
                forall|k: int|
                    0 <= k < idx as int ==> #[trigger] self.agents@[k]@ == step_agent(
                        self.cfg,
                        arena as int,
                        border as int,
                        poix as int,
                        poiy as int,
                        dt as int,
                        ms[k],
                        ms.remove(k),
                    ),
                forall|k: int|
                    0 <= k < idx as int ==> agent_wf(#[trigger] self.agents@[k]@)
                        && speed_in_range(
                        self.cfg,
                        self.agents@[k]@.vx,
                        self.agents@[k]@.vy,
                    ),
            decreases n - idx,
        {
            let a: Agent = self.agents[idx];
            let acc: Vec2 = accs[idx];
            let na = integrate_e(&self.cfg, a, acc.x, acc.y, dt);
            self.agents.set(idx, na);
            idx = idx + 1;
        }
    }
}

/// The product one generator step forms stays far inside the machine range.
proof fn lemma_lcg_mul_ok(x: int)
    requires
        0 <= x <= 2147483646,
    ensures
        0 <= x * 48271 <= 2147483646 * 48271,
{
    assert(0 <= x * 48271 <= 2147483646 * 48271) by (nonlinear_arith)
        requires
            0 <= x <= 2147483646,
    ;
}

/// Draw the whole initial population from the fixed seed.
#[verifier::loop_isolation(false)]
#[verifier::rlimit(100)]
fn init_agents(cfg: &Config, count: usize, arena_size: i64) -> (v: Vec<Agent>)
    requires
        cfg.valid(),
        1 <= count as int <= MAX_AGENTS as int,
        1 <= arena_size as int <= ARENA_LIMIT as int,
    ensures
        v@.len() == count as int,
        forall|k: int| 0 <= k < count as int ==> agent_wf(#[trigger] v@[k]@),
        forall|k: int|
            0 <= k < count as int ==> 0 <= (#[trigger] v@[k]@).px <= arena_size as int && 0
                <= v@[k]@.py <= arena_size as int,
        forall|k: int|
            0 <= k < count as int ==> speed_in_range(*cfg, (#[trigger] v@[k]@).vx, v@[k]@.vy),
{
    let mut s: u64 = INIT_SEED;
    let mut v: Vec<Agent> = Vec::new();
    let mut i: usize = 0;
    while i < count
        invariant
            i <= count,
            v@.len() == i as int,
            0 <= s as int <= 2147483646,

            forall|k: int| 0 <= k < i as int ==> agent_wf(#[trigger] v@[k]@),
            forall|k: int|
                0 <= k < i as int ==> 0 <= (#[trigger] v@[k]@).px <= arena_size as int && 0
                    <= v@[k]@.py <= arena_size as int,
            forall|k: int|
                0 <= k < i as int ==> speed_in_range(*cfg, (#[trigger] v@[k]@).vx, v@[k]@.vy),
        decreases count - i,
    {
        let drawn = draw_agent(cfg, s, arena_size);
        let a = drawn.0;
        v.push(a);
        s = drawn.1;
        i = i + 1;
    }
    v
}

/// The seed the standard constructor draws its agent placement from.
pub const INIT_SEED: u64 = 123456789;

/// Draw one agent and the follow-on seed from the current seed.
#[verifier::rlimit(100)]
fn draw_agent(cfg: &Config, s: u64, arena_size: i64) -> (r: (Agent, u64))
    requires
        cfg.valid(),
        0 <= s as int <= 2147483646,
        1 <= arena_size as int <= ARENA_LIMIT as int,
    ensures
        r.0@ == agent_from_seed(s as int, arena_size as int, *cfg),
        r.1 as int == seed_after(s as int),
        0 <= r.1 as int <= 2147483646,
        agent_wf(r.0@),
        0 <= r.0@.px <= arena_size as int,
        0 <= r.0@.py <= arena_size as int,
        speed_in_range(*cfg, r.0@.vx, r.0@.vy),
{
    proof {
        reveal(agent_from_seed);
        lemma_lcg_mul_ok(s as int);
    }
    let s1: u64 = (s * 48271) % 2147483647;
    proof {
        lemma_lcg_mul_ok(s1 as int);
    }
    let s2: u64 = (s1 * 48271) % 2147483647;
    proof {
        lemma_lcg_mul_ok(s2 as int);
    }
    let s3: u64 = (s2 * 48271) % 2147483647;
    proof {
        lemma_lcg_mul_ok(s3 as int);
    }
    let s4: u64 = (s3 * 48271) % 2147483647;
    let px: i64 = (s1 % ((arena_size as u64) + 1)) as i64;
    let py: i64 = (s2 % ((arena_size as u64) + 1)) as i64;
    let range: u64 = (2 * cfg.max_speed + 1) as u64;
    let rvx: i64 = (s3 % range) as i64 - cfg.max_speed;
    let rvy: i64 = (s4 % range) as i64 - cfg.max_speed;
    let vv = clamp_e(cfg, rvx, rvy, 1, 0);
    proof {
        lemma_range_component_bounds(*cfg, vv.x as int, vv.y as int);
        assert(cfg.min_speed as int * cfg.min_speed as int >= 1) by (nonlinear_arith)
            requires
                cfg.min_speed as int >= 1,
        ;
    }
    let a = Agent::from_parts(px, py, vv.x, vv.y, vv.x, vv.y);
    (a, s4)
}

/// One step of the Lehmer pseudo-random generator used to place agents.
pub open spec fn lcg_next(s: int) -> int {
    (s * 48271) % 2147483647
}

/// The seed after the four draws one agent consumes.
pub open spec fn seed_after(s: int) -> int {
    lcg_next(lcg_next(lcg_next(lcg_next(s))))
}

/// The agent drawn from seed `s`: position uniform in `[0, arena]` on both
/// axes, velocity drawn in `[-max_speed, max_speed]` per component and then
/// clamped into the speed band, heading along the velocity.
#[verifier::opaque]
pub open spec fn agent_from_seed(s: int, arena: int, cfg: Config) -> AgentModel {
    let s1 = lcg_next(s);
    let s2 = lcg_next(s1);
    let s3 = lcg_next(s2);
    let s4 = lcg_next(s3);
    let px = s1 % (arena + 1);
    let py = s2 % (arena + 1);
    let range = 2 * cfg.max_speed as int + 1;
    let rvx = s3 % range - cfg.max_speed as int;
    let rvy = s4 % range - cfg.max_speed as int;
    let v = clamp_spec(cfg, rvx, rvy, 1, 0);
    AgentModel { px: px, py: py, vx: v.0, vy: v.1, hx: v.0, hy: v.1 }
}

/// Which construction error an invalid agent set or configuration earns.
pub open spec fn construction_error(len: int, cfg_ok: bool, agents_ok: bool) -> FlockError {
    if len == 0 {
        FlockError::ZeroAgents
    } else if len > MAX_AGENTS as int {
        FlockError::TooManyAgents
    } else if !cfg_ok {
        FlockError::InvalidConfig
    } else {
        FlockError::InvalidAgent
    }
}

} // verus!
