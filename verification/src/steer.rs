//! Steering: per-pair neighbor contributions, their order-insensitive sum
//! over a flock, and the blended acceleration of one agent from separation,
//! alignment, cohesion, boundary avoidance and the point of interest.

use vstd::prelude::*;
use vstd::seq_lib::{commutative_foldr, lemma_fold_right_permutation};
use crate::math::{abs_i, div_q, sat, div_q_e, sat_e};
use crate::math::{lemma_mul_abs_bound, lemma_div_q_abs_le, lemma_div_q_bound};
use crate::agent::{Agent, AgentModel, Vec2, agent_wf, models};
use crate::config::{Config, ACC_LIMIT, ARENA_LIMIT, MAX_AGENTS, POS_LIMIT, SPEED_LIMIT, SEP_SCALE};

verus! {

broadcast use crate::agent::lemma_agent_view;

/// Squared Euclidean distance between two agents' positions.
pub open spec fn dist_sq(a: AgentModel, b: AgentModel) -> int {
    (a.px - b.px) * (a.px - b.px) + (a.py - b.py) * (a.py - b.py)
}

/// What one neighbor adds to an agent's steering: the inverse-distance
/// separation push, and the velocity and position sums (with counts) that
/// alignment and cohesion average.
pub ghost struct Contrib {
    pub sx: int,
    pub sy: int,
    pub ax: int,
    pub ay: int,
    pub an: int,
    pub cx: int,
    pub cy: int,
    pub cn: int,
}

pub open spec fn contrib_zero() -> Contrib {
    Contrib { sx: 0, sy: 0, ax: 0, ay: 0, an: 0, cx: 0, cy: 0, cn: 0 }
}

pub open spec fn contrib_add(a: Contrib, b: Contrib) -> Contrib {
    Contrib {
        sx: a.sx + b.sx,
        sy: a.sy + b.sy,
        ax: a.ax + b.ax,
        ay: a.ay + b.ay,
        an: a.an + b.an,
        cx: a.cx + b.cx,
        cy: a.cy + b.cy,
        cn: a.cn + b.cn,
    }
}

/// The contribution of the single neighbor `o` to the steering of `me`.
/// A neighbor beyond a behavior's radius contributes nothing to it; the
/// separation push away from `o` is weighted inversely by distance.
pub open spec fn pair_contrib(cfg: Config, me: AgentModel, o: AgentModel) -> Contrib {
    let dx = me.px - o.px;
    let dy = me.py - o.py;
    let dsq = dx * dx + dy * dy;
    let m = if dsq == 0 {
        1
    } else {
        dsq
    };
    let in_sep = dsq <= cfg.separation_radius as int * cfg.separation_radius as int;
    let in_align = dsq <= cfg.alignment_radius as int * cfg.alignment_radius as int;
    let in_coh = dsq <= cfg.cohesion_radius as int * cfg.cohesion_radius as int;
    Contrib {
        sx: if in_sep {
            div_q(dx * SEP_SCALE as int, m)
        } else {
            0
        },
        sy: if in_sep {
            div_q(dy * SEP_SCALE as int, m)
        } else {
            0
        },
        ax: if in_align {
            o.vx
        } else {
            0
        },
        ay: if in_align {
            o.vy
        } else {
            0
        },
        an: if in_align {
            1
        } else {
            0
        },
        cx: if in_coh {
            o.px
        } else {
            0
        },
        cy: if in_coh {
            o.py
        } else {
            0
        },
        cn: if in_coh {
            1
        } else {
            0
        },
    }
}

/// The fold operator summing neighbor contributions for `me`.
pub open spec fn contrib_f(cfg: Config, me: AgentModel) -> spec_fn(AgentModel, Contrib) -> Contrib {
    |o: AgentModel, acc: Contrib| contrib_add(acc, pair_contrib(cfg, me, o))
}

/// The summed contribution of every agent of `others` to the steering of
/// `me`. Addition is commutative, so the value depends only on the multiset
/// of `others` (`lemma_flock_contrib_permutation`).
pub open spec fn flock_contrib(cfg: Config, me: AgentModel, others: Seq<AgentModel>) -> Contrib {
    others.fold_right(contrib_f(cfg, me), contrib_zero())
}

pub proof fn lemma_contrib_f_commutative(cfg: Config, me: AgentModel)
    ensures
        commutative_foldr(contrib_f(cfg, me)),
{
    let f = contrib_f(cfg, me);
    assert forall|x: AgentModel, y: AgentModel, v: Contrib| #[trigger]
        f(x, f(y, v)) == f(y, f(x, v)) by {
    }
}

/// Appending one more neighbor adds exactly its pair contribution.
pub proof fn lemma_flock_contrib_snoc(cfg: Config, me: AgentModel, s: Seq<AgentModel>)
    requires
        s.len() > 0,
    ensures
        flock_contrib(cfg, me, s) == contrib_add(
            flock_contrib(cfg, me, s.drop_last()),
            pair_contrib(cfg, me, s.last()),
        ),
{
    let f = contrib_f(cfg, me);
    lemma_contrib_f_commutative(cfg, me);
    s.drop_last().lemma_fold_right_commute_one(s.last(), f, contrib_zero());
}

/// The neighbor sum is invariant under any permutation of the neighbors:
/// steering depends only on which agents are present, not on their order.
pub proof fn lemma_flock_contrib_permutation(
    cfg: Config,
    me: AgentModel,
    s1: Seq<AgentModel>,
    s2: Seq<AgentModel>,
)
    requires
        s1.to_multiset() == s2.to_multiset(),
    ensures
        flock_contrib(cfg, me, s1) == flock_contrib(cfg, me, s2),
{
    lemma_contrib_f_commutative(cfg, me);
    lemma_fold_right_permutation(s1, s2, contrib_f(cfg, me), contrib_zero());
}

/// An agent with no neighbor inside any interaction radius receives the zero
/// contribution: isolated agents feel no separation, alignment or cohesion.
pub proof fn lemma_isolated_contrib_zero(cfg: Config, me: AgentModel, others: Seq<AgentModel>)
    requires
        forall|j: int|
            0 <= j < others.len() ==> #[trigger] dist_sq(me, others[j]) > cfg.separation_radius
                as int * cfg.separation_radius as int,
        forall|j: int|
            0 <= j < others.len() ==> #[trigger] dist_sq(me, others[j]) > cfg.alignment_radius
                as int * cfg.alignment_radius as int,
        forall|j: int|
            0 <= j < others.len() ==> #[trigger] dist_sq(me, others[j]) > cfg.cohesion_radius
                as int * cfg.cohesion_radius as int,
    ensures
        flock_contrib(cfg, me, others) == contrib_zero(),
    decreases others.len(),
{
    if others.len() > 0 {
        lemma_flock_contrib_snoc(cfg, me, others);
        assert(dist_sq(me, others.last()) > cfg.separation_radius as int * cfg.separation_radius
            as int);
        assert(pair_contrib(cfg, me, others.last()) == contrib_zero());
        lemma_isolated_contrib_zero(cfg, me, others.drop_last());
    }
}

/// An isolated agent feels none of the three flocking behaviors: with no
/// neighbor inside any interaction radius, the separation, alignment and
/// cohesion accelerations are all zero.
pub proof fn lemma_isolated_behaviors_zero(cfg: Config, me: AgentModel, others: Seq<AgentModel>)
    requires
        forall|j: int|
            0 <= j < others.len() ==> #[trigger] dist_sq(me, others[j]) > cfg.separation_radius
                as int * cfg.separation_radius as int,
        forall|j: int|
            0 <= j < others.len() ==> #[trigger] dist_sq(me, others[j]) > cfg.alignment_radius
                as int * cfg.alignment_radius as int,
        forall|j: int|
            0 <= j < others.len() ==> #[trigger] dist_sq(me, others[j]) > cfg.cohesion_radius
                as int * cfg.cohesion_radius as int,
    ensures
        separation_of(cfg, flock_contrib(cfg, me, others)) == (0int, 0int),
        alignment_of(cfg, me, flock_contrib(cfg, me, others)) == (0int, 0int),
        cohesion_of(cfg, me, flock_contrib(cfg, me, others)) == (0int, 0int),
{
    lemma_isolated_contrib_zero(cfg, me, others);
    assert(0int * cfg.separation_weight as int == 0) by (nonlinear_arith);
}

/// Magnitude bounds on one neighbor's contribution, used to rule out
/// overflow when contributions are summed.
pub proof fn lemma_pair_contrib_bounds(cfg: Config, me: AgentModel, o: AgentModel)
    requires
        cfg.valid(),
        abs_i(me.px) <= POS_LIMIT as int,
        abs_i(me.py) <= POS_LIMIT as int,
        abs_i(o.px) <= POS_LIMIT as int,
        abs_i(o.py) <= POS_LIMIT as int,
        abs_i(o.vx) <= SPEED_LIMIT as int,
        abs_i(o.vy) <= SPEED_LIMIT as int,
    ensures
        (pair_contrib(cfg, me, o).an == 0 ==> pair_contrib(cfg, me, o).ax == 0 && pair_contrib(
            cfg,
            me,
            o,
        ).ay == 0),
        (pair_contrib(cfg, me, o).cn == 0 ==> pair_contrib(cfg, me, o).cx == 0 && pair_contrib(
            cfg,
            me,
            o,
        ).cy == 0),
        0 <= pair_contrib(cfg, me, o).an <= 1,
        0 <= pair_contrib(cfg, me, o).cn <= 1,
        abs_i(pair_contrib(cfg, me, o).sx) <= 20_000_000_000,
        abs_i(pair_contrib(cfg, me, o).sy) <= 20_000_000_000,
        abs_i(pair_contrib(cfg, me, o).ax) <= pair_contrib(cfg, me, o).an * SPEED_LIMIT as int,
        abs_i(pair_contrib(cfg, me, o).ay) <= pair_contrib(cfg, me, o).an * SPEED_LIMIT as int,
        abs_i(pair_contrib(cfg, me, o).cx) <= pair_contrib(cfg, me, o).cn * POS_LIMIT as int,
        abs_i(pair_contrib(cfg, me, o).cy) <= pair_contrib(cfg, me, o).cn * POS_LIMIT as int,
    decreases 0int,
{
    let dx = me.px - o.px;
    let dy = me.py - o.py;
    let dsq = dx * dx + dy * dy;
    let m = if dsq == 0 {
        1int
    } else {
        dsq
    };
    assert(dx * dx + dy * dy >= 0) by (nonlinear_arith);
    crate::math::lemma_mul_abs_bound(dx, SEP_SCALE as int, 2 * POS_LIMIT as int, SEP_SCALE as int);
    crate::math::lemma_mul_abs_bound(dy, SEP_SCALE as int, 2 * POS_LIMIT as int, SEP_SCALE as int);
    crate::math::lemma_div_q_abs_le(dx * SEP_SCALE as int, m);
    crate::math::lemma_div_q_abs_le(dy * SEP_SCALE as int, m);
}

/// The separation acceleration blended from the summed contribution.
pub open spec fn separation_of(cfg: Config, c: Contrib) -> (int, int) {
    (c.sx * cfg.separation_weight as int, c.sy * cfg.separation_weight as int)
}

/// The alignment acceleration: steer toward the average neighbor velocity;
/// zero when no neighbor was inside the alignment radius.
pub open spec fn alignment_of(cfg: Config, me: AgentModel, c: Contrib) -> (int, int) {
    if c.an > 0 {
        (
            (div_q(c.ax, c.an) - me.vx) * cfg.alignment_weight as int,
            (div_q(c.ay, c.an) - me.vy) * cfg.alignment_weight as int,
        )
    } else {
        (0, 0)
    }
}

/// The cohesion acceleration: steer toward the neighbor centroid; zero when
/// no neighbor was inside the cohesion radius.
pub open spec fn cohesion_of(cfg: Config, me: AgentModel, c: Contrib) -> (int, int) {
    if c.cn > 0 {
        (
            (div_q(c.cx, c.cn) - me.px) * cfg.cohesion_weight as int,
            (div_q(c.cy, c.cn) - me.py) * cfg.cohesion_weight as int,
        )
    } else {
        (0, 0)
    }
}

/// Boundary avoidance: an inward push proportional to how deep the agent
/// stands inside the border band of width `border`; zero farther than
/// `border` from every edge.
pub open spec fn boundary_accel(cfg: Config, arena: int, border: int, me: AgentModel) -> (
    int,
    int,
) {
    let bx = (if me.px < border {
        border - me.px
    } else {
        0
    }) + (if me.px > arena - border {
        (arena - border) - me.px
    } else {
        0
    });
    let by = (if me.py < border {
        border - me.py
    } else {
        0
    }) + (if me.py > arena - border {
        (arena - border) - me.py
    } else {
        0
    });
    (bx * cfg.boundary_weight as int, by * cfg.boundary_weight as int)
}

/// Point-of-interest response: a push along the offset from the point,
/// scaled by the configured weight (positive repels, negative attracts);
/// zero outside the radius of effect.
pub open spec fn poi_accel(cfg: Config, poix: int, poiy: int, me: AgentModel) -> (int, int) {
    let dx = me.px - poix;
    let dy = me.py - poiy;
    let dsq = dx * dx + dy * dy;
    if dsq <= cfg.poi_radius as int * cfg.poi_radius as int {
        (dx * cfg.poi_weight as int, dy * cfg.poi_weight as int)
    } else {
        (0, 0)
    }
}

/// The blended steering acceleration of `me` among `others`: the weighted
/// sum of all five behavior contributions, saturated into the acceleration
/// safety bound.
pub open spec fn steer(
    cfg: Config,
    arena: int,
    border: int,
    poix: int,
    poiy: int,
    me: AgentModel,
    others: Seq<AgentModel>,
) -> (int, int) {
    let c = flock_contrib(cfg, me, others);
    let s = separation_of(cfg, c);
    let al = alignment_of(cfg, me, c);
    let co = cohesion_of(cfg, me, c);
    let b = boundary_accel(cfg, arena, border, me);
    let p = poi_accel(cfg, poix, poiy, me);
    (
        sat(s.0 + al.0 + co.0 + b.0 + p.0, ACC_LIMIT as int),
        sat(s.1 + al.1 + co.1 + b.1 + p.1, ACC_LIMIT as int),
    )
}

/// How many entries of `others = models.remove(i)` the scan has passed once
/// the index `j` of the full agent sequence has been reached.
pub open spec fn prefix_count(j: int, i: int) -> int {
    if j <= i {
        j
    } else {
        j - 1
    }
}

/// Executable steering of agent `i`: computes `steer` of its model against
/// the models of all other agents, reading only pre-update state.
#[verifier::loop_isolation(false)]
#[verifier::rlimit(100)]
pub(crate) fn steer_e(
    cfg: &Config,
    arena: i64,
    border: i64,
    poix: i64,
    poiy: i64,
    agents: &Vec<Agent>,
    i: usize,
) -> (r: Vec2)
    requires
        cfg.valid(),
        1 <= arena as int <= ARENA_LIMIT as int,
        0 <= border as int,
        2 * (border as int) <= arena as int,
        abs_i(poix as int) <= POS_LIMIT as int,
        abs_i(poiy as int) <= POS_LIMIT as int,
        (i as int) < agents@.len(),
        agents@.len() <= MAX_AGENTS as int,
        forall|k: int| 0 <= k < agents@.len() ==> agent_wf(#[trigger] agents@[k]@),
    ensures
        (r.x as int, r.y as int) == steer(
            *cfg,
            arena as int,
            border as int,
            poix as int,
            poiy as int,
            agents@[i as int]@,
            models(agents@).remove(i as int),
        ),
        abs_i(r.x as int) <= ACC_LIMIT as int,
        abs_i(r.y as int) <= ACC_LIMIT as int,
{
    let ghost ms = models(agents@);
    let ghost others = ms.remove(i as int);
    let me: Agent = agents[i];
    let n: usize = agents.len();
    proof {
        ms.remove_ensures(i as int);
        assert(agent_wf(me@));
    }
    proof {
        lemma_mul_abs_bound(
            cfg.separation_radius as int,
            cfg.separation_radius as int,
            1_000_000,
            1_000_000,
        );
        lemma_mul_abs_bound(
            cfg.alignment_radius as int,
            cfg.alignment_radius as int,
            1_000_000,
            1_000_000,
        );
        lemma_mul_abs_bound(
            cfg.cohesion_radius as int,
            cfg.cohesion_radius as int,
            1_000_000,
            1_000_000,
        );
        lemma_mul_abs_bound(cfg.poi_radius as int, cfg.poi_radius as int, 1_000_000, 1_000_000);
    }
    let sep_rr: i64 = cfg.separation_radius * cfg.separation_radius;
    let align_rr: i64 = cfg.alignment_radius * cfg.alignment_radius;
    let coh_rr: i64 = cfg.cohesion_radius * cfg.cohesion_radius;
    let poi_rr: i64 = cfg.poi_radius * cfg.poi_radius;
    let mut sx: i64 = 0;
    let mut sy: i64 = 0;
    let mut ax: i64 = 0;
    let mut ay: i64 = 0;
    let mut an: i64 = 0;
    let mut cx: i64 = 0;
    let mut cy: i64 = 0;
    let mut cn: i64 = 0;
    let mut j: usize = 0;
    while j < n
        invariant
            j <= n,
            0 <= prefix_count(j as int, i as int) <= others.len(),
            abs_i(sx as int) <= prefix_count(j as int, i as int) * 20_000_000_000,
            abs_i(sy as int) <= prefix_count(j as int, i as int) * 20_000_000_000,
            0 <= an as int <= prefix_count(j as int, i as int),
            0 <= cn as int <= prefix_count(j as int, i as int),
            abs_i(ax as int) <= (an as int) * (SPEED_LIMIT as int),
            abs_i(ay as int) <= (an as int) * (SPEED_LIMIT as int),
            abs_i(cx as int) <= (cn as int) * (POS_LIMIT as int),
            abs_i(cy as int) <= (cn as int) * (POS_LIMIT as int),
            (Contrib {
                sx: sx as int,
                sy: sy as int,
                ax: ax as int,
                ay: ay as int,
                an: an as int,
                cx: cx as int,
                cy: cy as int,
                cn: cn as int,
            }) == flock_contrib(*cfg, me@, others.take(prefix_count(j as int, i as int))),
        decreases n - j,
    {
        if j != i {
            let ghost p = prefix_count(j as int, i as int);
            proof {
                assert(others[p] == ms[j as int]);
                assert(others.take(p + 1).drop_last() =~= others.take(p));
                assert(others.take(p + 1).last() == others[p]);
                lemma_flock_contrib_snoc(*cfg, me@, others.take(p + 1));
                lemma_pair_contrib_bounds(*cfg, me@, agents@[j as int]@);
            }
            let o: Agent = agents[j];
            let dx: i64 = me.px - o.px;
            let dy: i64 = me.py - o.py;
            proof {
                lemma_mul_abs_bound(dx as int, dx as int, 2_000_000, 2_000_000);
                lemma_mul_abs_bound(dy as int, dy as int, 2_000_000, 2_000_000);
                lemma_mul_abs_bound(dx as int, SEP_SCALE as int, 2_000_000, SEP_SCALE as int);
                lemma_mul_abs_bound(dy as int, SEP_SCALE as int, 2_000_000, SEP_SCALE as int);
                assert((dx as int) * (dx as int) >= 0) by (nonlinear_arith);
                assert((dy as int) * (dy as int) >= 0) by (nonlinear_arith);
            }
            let dsq: i64 = dx * dx + dy * dy;
            let m: i64 = if dsq == 0 {
                1
            } else {
                dsq
            };
            if dsq <= sep_rr {
                proof {
                    lemma_div_q_abs_le((dx as int) * (SEP_SCALE as int), m as int);
                    lemma_div_q_abs_le((dy as int) * (SEP_SCALE as int), m as int);
                }
                sx = sx + div_q_e(dx * SEP_SCALE, m);
                sy = sy + div_q_e(dy * SEP_SCALE, m);
            }
            if dsq <= align_rr {
                ax = ax + o.vx;
                ay = ay + o.vy;
                an = an + 1;
            }
            if dsq <= coh_rr {
                cx = cx + o.px;
                cy = cy + o.py;
                cn = cn + 1;
            }
        }
        j = j + 1;
    }
    let ghost c = flock_contrib(*cfg, me@, others);
    proof {
        assert(others.take(prefix_count(n as int, i as int)) =~= others);
    }
    proof {
        lemma_mul_abs_bound(
            sx as int,
            cfg.separation_weight as int,
            20_000_000_000_000,
            100,
        );
        lemma_mul_abs_bound(
            sy as int,
            cfg.separation_weight as int,
            20_000_000_000_000,
            100,
        );
    }
    let sep_x: i64 = sx * cfg.separation_weight;
    let sep_y: i64 = sy * cfg.separation_weight;
    let mut al_x: i64 = 0;
    let mut al_y: i64 = 0;
    if an > 0 {
        proof {
            lemma_div_q_bound(ax as int, an as int, SPEED_LIMIT as int);
            lemma_div_q_bound(ay as int, an as int, SPEED_LIMIT as int);
        }
        let avx: i64 = div_q_e(ax, an);
        let avy: i64 = div_q_e(ay, an);
        proof {
            lemma_mul_abs_bound(
                (avx as int) - (me.vx as int),
                cfg.alignment_weight as int,
                200_000,
                100,
            );
            lemma_mul_abs_bound(
                (avy as int) - (me.vy as int),
                cfg.alignment_weight as int,
                200_000,
                100,
            );
        }
        al_x = (avx - me.vx) * cfg.alignment_weight;
        al_y = (avy - me.vy) * cfg.alignment_weight;
    }
    let mut co_x: i64 = 0;
    let mut co_y: i64 = 0;
    if cn > 0 {
        proof {
            lemma_div_q_bound(cx as int, cn as int, POS_LIMIT as int);
            lemma_div_q_bound(cy as int, cn as int, POS_LIMIT as int);
        }
        let cvx: i64 = div_q_e(cx, cn);
        let cvy: i64 = div_q_e(cy, cn);
        proof {
            lemma_mul_abs_bound(
                (cvx as int) - (me.px as int),
                cfg.cohesion_weight as int,
                2_000_000,
                100,
            );
            lemma_mul_abs_bound(
                (cvy as int) - (me.py as int),
                cfg.cohesion_weight as int,
                2_000_000,
                100,
            );
        }
        co_x = (cvx - me.px) * cfg.cohesion_weight;
        co_y = (cvy - me.py) * cfg.cohesion_weight;
    }
    let mut bx: i64 = 0;
    let mut by: i64 = 0;
    if me.px < border {
        bx = bx + (border - me.px);
    }
    if me.px > arena - border {
        bx = bx + ((arena - border) - me.px);
    }
    if me.py < border {
        by = by + (border - me.py);
    }
    if me.py > arena - border {
        by = by + ((arena - border) - me.py);
    }
    proof {
        lemma_mul_abs_bound(bx as int, cfg.boundary_weight as int, 3_000_000, 100);
        lemma_mul_abs_bound(by as int, cfg.boundary_weight as int, 3_000_000, 100);
    }
    let bnd_x: i64 = bx * cfg.boundary_weight;
    let bnd_y: i64 = by * cfg.boundary_weight;
    let pdx: i64 = me.px - poix;
    let pdy: i64 = me.py - poiy;
    proof {
        lemma_mul_abs_bound(pdx as int, pdx as int, 2_000_000, 2_000_000);
        lemma_mul_abs_bound(pdy as int, pdy as int, 2_000_000, 2_000_000);
        assert((pdx as int) * (pdx as int) >= 0) by (nonlinear_arith);
        assert((pdy as int) * (pdy as int) >= 0) by (nonlinear_arith);
        lemma_mul_abs_bound(pdx as int, cfg.poi_weight as int, 2_000_000, 100);
        lemma_mul_abs_bound(pdy as int, cfg.poi_weight as int, 2_000_000, 100);
    }
    let pdsq: i64 = pdx * pdx + pdy * pdy;
    let mut poi_x: i64 = 0;
    let mut poi_y: i64 = 0;
    if pdsq <= poi_rr {
        poi_x = pdx * cfg.poi_weight;
        poi_y = pdy * cfg.poi_weight;
    }
    let tot_x: i64 = sep_x + al_x + co_x + bnd_x + poi_x;
    let tot_y: i64 = sep_y + al_y + co_y + bnd_y + poi_y;
    Vec2 { x: sat_e(tot_x, ACC_LIMIT), y: sat_e(tot_y, ACC_LIMIT) }
}

} // verus!
