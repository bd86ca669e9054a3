//! The hard speed clamp: after integration every agent's velocity magnitude
//! is brought into `[min_speed, max_speed]` by rescaling, with an exact
//! axis-aligned fallback for the degenerate cases integer rounding leaves.

use vstd::prelude::*;
use crate::math::{abs_i, div_q, div_away, isqrt, div_q_e, div_away_e, isqrt_e};
use crate::math::{lemma_mul_abs_bound, lemma_component_bound, lemma_div_q_bound};
use crate::agent::Vec2;
use crate::config::{Config, SPEED_LIMIT, VEL_CAP};

verus! {

/// Squared magnitude of a velocity.
pub open spec fn norm_sq(vx: int, vy: int) -> int {
    vx * vx + vy * vy
}

/// The speed invariant: magnitude within `[min_speed, max_speed]`.
pub open spec fn speed_in_range(cfg: Config, vx: int, vy: int) -> bool {
    cfg.min_speed as int * cfg.min_speed as int <= norm_sq(vx, vy) <= cfg.max_speed as int
        * cfg.max_speed as int
}

/// A vector of magnitude exactly `m` along the dominant axis of `(vx, vy)`,
/// or of the stored heading when the velocity is zero.
pub open spec fn axis_fallback(vx: int, vy: int, hx: int, hy: int, m: int) -> (int, int) {
    let ax = if vx != 0 || vy != 0 {
        vx
    } else {
        hx
    };
    let ay = if vx != 0 || vy != 0 {
        vy
    } else {
        hy
    };
    if abs_i(ax) >= abs_i(ay) {
        (
            if ax >= 0 {
                m
            } else {
                -m
            },
            0,
        )
    } else {
        (
            0,
            if ay >= 0 {
                m
            } else {
                -m
            },
        )
    }
}

/// The clamped velocity. A velocity already in range is kept unchanged; one
/// too fast is scaled down with the rounded-up square root, one too slow is
/// scaled up with rounding away from zero; if integer rounding still leaves
/// the magnitude out of range, the axis-aligned fallback of magnitude
/// `min_speed` is taken.
pub open spec fn clamp_spec(cfg: Config, vx: int, vy: int, hx: int, hy: int) -> (int, int) {
    let minsq = cfg.min_speed as int * cfg.min_speed as int;
    let maxsq = cfg.max_speed as int * cfg.max_speed as int;
    let n = norm_sq(vx, vy);
    if minsq <= n && n <= maxsq {
        (vx, vy)
    } else if n > maxsq {
        let r = isqrt(n as nat) as int;
        let s = if r * r == n {
            r
        } else {
            r + 1
        };
        let cx = div_q(vx * cfg.max_speed as int, s);
        let cy = div_q(vy * cfg.max_speed as int, s);
        if minsq <= norm_sq(cx, cy) && norm_sq(cx, cy) <= maxsq {
            (cx, cy)
        } else {
            axis_fallback(vx, vy, hx, hy, cfg.min_speed as int)
        }
    } else if n > 0 {
        let s = isqrt(n as nat) as int;
        let cx = div_away(vx * cfg.min_speed as int, s);
        let cy = div_away(vy * cfg.min_speed as int, s);
        if minsq <= norm_sq(cx, cy) && norm_sq(cx, cy) <= maxsq {
            (cx, cy)
        } else {
            axis_fallback(vx, vy, hx, hy, cfg.min_speed as int)
        }
    } else {
        axis_fallback(vx, vy, hx, hy, cfg.min_speed as int)
    }
}

/// The fallback has magnitude exactly `min_speed`, which is in range.
proof fn lemma_fallback_in_range(cfg: Config, vx: int, vy: int, hx: int, hy: int)
    requires
        cfg.valid(),
    ensures
        speed_in_range(
            cfg,
            axis_fallback(vx, vy, hx, hy, cfg.min_speed as int).0,
            axis_fallback(vx, vy, hx, hy, cfg.min_speed as int).1,
        ),
{
    let m = cfg.min_speed as int;
    let f = axis_fallback(vx, vy, hx, hy, m);
    assert((-m) * (-m) == m * m) by (nonlinear_arith);
    assert(m * m <= cfg.max_speed as int * cfg.max_speed as int) by (nonlinear_arith)
        requires
            1 <= m <= cfg.max_speed as int,
    ;
    assert(norm_sq(f.0, f.1) == m * m);
}

/// The clamp establishes the speed invariant for every input velocity, and
/// never touches a velocity whose magnitude is already in range.
pub proof fn lemma_clamp_in_range(cfg: Config, vx: int, vy: int, hx: int, hy: int)
    requires
        cfg.valid(),
    ensures
        speed_in_range(
            cfg,
            clamp_spec(cfg, vx, vy, hx, hy).0,
            clamp_spec(cfg, vx, vy, hx, hy).1,
        ),
        speed_in_range(cfg, vx, vy) ==> clamp_spec(cfg, vx, vy, hx, hy) == (vx, vy),
{
    lemma_fallback_in_range(cfg, vx, vy, hx, hy);
}

/// Components of an in-range velocity are bounded by `max_speed`.
pub proof fn lemma_range_component_bounds(cfg: Config, vx: int, vy: int)
    requires
        cfg.valid(),
        norm_sq(vx, vy) <= cfg.max_speed as int * cfg.max_speed as int,
    ensures
        abs_i(vx) <= cfg.max_speed as int,
        abs_i(vy) <= cfg.max_speed as int,
{
    let mx = cfg.max_speed as int;
    assert(vx * vx >= 0) by (nonlinear_arith);
    assert(vy * vy >= 0) by (nonlinear_arith);
    assert(mx * mx < (mx + 1) * (mx + 1)) by (nonlinear_arith)
        requires
            mx >= 0,
    ;
    lemma_component_bound(vx, mx * mx, mx);
    lemma_component_bound(vy, mx * mx, mx);
}

/// Rounded-away division stays at most `c` when the numerator magnitude is
/// at most `b * c`.
proof fn lemma_div_away_bound(a: int, b: int, c: int)
    requires
        b >= 1,
        c >= 0,
        abs_i(a) <= b * c,
    ensures
        abs_i(div_away(a, b)) <= c,
{
    let m = abs_i(a);
    assert(0 <= (m + b - 1) / b <= c) by (nonlinear_arith)
        requires
            b >= 1,
            c >= 0,
            0 <= m <= b * c,
    ;
}

/// Executable speed clamp.
pub fn clamp_e(cfg: &Config, vx: i64, vy: i64, hx: i64, hy: i64) -> (r: Vec2)
    requires
        cfg.valid(),
        abs_i(vx as int) <= VEL_CAP as int,
        abs_i(vy as int) <= VEL_CAP as int,
        abs_i(hx as int) <= SPEED_LIMIT as int,
        abs_i(hy as int) <= SPEED_LIMIT as int,
    ensures
        (r.x as int, r.y as int) == clamp_spec(*cfg, vx as int, vy as int, hx as int, hy as int),
        speed_in_range(*cfg, r.x as int, r.y as int),
        abs_i(r.x as int) <= cfg.max_speed as int,
        abs_i(r.y as int) <= cfg.max_speed as int,
{
    proof {
        lemma_clamp_in_range(*cfg, vx as int, vy as int, hx as int, hy as int);
        lemma_mul_abs_bound(vx as int, vx as int, VEL_CAP as int, VEL_CAP as int);
        lemma_mul_abs_bound(vy as int, vy as int, VEL_CAP as int, VEL_CAP as int);
        assert(vx as int * vx as int >= 0) by (nonlinear_arith);
        assert(vy as int * vy as int >= 0) by (nonlinear_arith);
    }
    let n: i64 = vx * vx + vy * vy;
    proof {
        lemma_mul_abs_bound(
            cfg.min_speed as int,
            cfg.min_speed as int,
            SPEED_LIMIT as int,
            SPEED_LIMIT as int,
        );
        lemma_mul_abs_bound(
            cfg.max_speed as int,
            cfg.max_speed as int,
            SPEED_LIMIT as int,
            SPEED_LIMIT as int,
        );
    }
    let minsq: i64 = cfg.min_speed * cfg.min_speed;
    let maxsq: i64 = cfg.max_speed * cfg.max_speed;
    let res: Vec2 = if minsq <= n && n <= maxsq {
        Vec2 { x: vx, y: vy }
    } else if n > maxsq {
        let root: u64 = isqrt_e(n as u64);
        let r: i64 = root as i64;
        let s: i64 = if r * r == n {
            r
        } else {
            r + 1
        };
        proof {
            assert(s >= 1);
            assert((vx as int) * (vx as int) <= n as int);
            assert((n as int) < ((s as int) + 1) * ((s as int) + 1)) by (nonlinear_arith)
                requires
                    (n as int) < ((r as int) + 1) * ((r as int) + 1),
                    r as int <= s as int,
                    r as int >= 0,
            ;
            lemma_component_bound(vx as int, n as int, s as int);
            lemma_component_bound(vy as int, n as int, s as int);
            assert((s as int) * (cfg.max_speed as int) <= 1_600_000_001 * 100_000int)
                by (nonlinear_arith)
                requires
                    0 <= s as int <= 1_600_000_001,
                    0 <= cfg.max_speed as int <= 100_000,
            ;
            lemma_mul_abs_bound(vx as int, cfg.max_speed as int, s as int, cfg.max_speed as int);
            lemma_mul_abs_bound(vy as int, cfg.max_speed as int, s as int, cfg.max_speed as int);
            lemma_div_q_bound(vx as int * cfg.max_speed as int, s as int, cfg.max_speed as int);
            lemma_div_q_bound(vy as int * cfg.max_speed as int, s as int, cfg.max_speed as int);
        }
        let cx: i64 = div_q_e(vx * cfg.max_speed, s);
        let cy: i64 = div_q_e(vy * cfg.max_speed, s);
        proof {
            lemma_mul_abs_bound(cx as int, cx as int, SPEED_LIMIT as int, SPEED_LIMIT as int);
            lemma_mul_abs_bound(cy as int, cy as int, SPEED_LIMIT as int, SPEED_LIMIT as int);
        }
        let csq: i64 = cx * cx + cy * cy;
        if minsq <= csq && csq <= maxsq {
            Vec2 { x: cx, y: cy }
        } else {
            fallback_e(cfg, vx, vy, hx, hy)
        }
    } else if n > 0 {
        let root: u64 = isqrt_e(n as u64);
        let s: i64 = root as i64;
        proof {
            assert(s >= 1) by {
                if root == 0 {
                    assert(((root as int) + 1) * ((root as int) + 1) == 1) by (nonlinear_arith)
                        requires
                            root as int == 0,
                    ;
                }
            };
            assert((vx as int) * (vx as int) <= n as int);
            lemma_component_bound(vx as int, n as int, s as int);
            lemma_component_bound(vy as int, n as int, s as int);
            lemma_mul_abs_bound(vx as int, cfg.min_speed as int, s as int, cfg.min_speed as int);
            lemma_mul_abs_bound(vy as int, cfg.min_speed as int, s as int, cfg.min_speed as int);
            assert((s as int) * (cfg.min_speed as int) <= 1_600_000_001 * 100_000int)
                by (nonlinear_arith)
                requires
                    0 <= s as int <= 1_600_000_001,
                    0 <= cfg.min_speed as int <= 100_000,
            ;
            lemma_div_away_bound(vx as int * cfg.min_speed as int, s as int, cfg.min_speed as int);
            lemma_div_away_bound(vy as int * cfg.min_speed as int, s as int, cfg.min_speed as int);
        }
        let cx: i64 = div_away_e(vx * cfg.min_speed, s);
        let cy: i64 = div_away_e(vy * cfg.min_speed, s);
        proof {
            lemma_mul_abs_bound(cx as int, cx as int, SPEED_LIMIT as int, SPEED_LIMIT as int);
            lemma_mul_abs_bound(cy as int, cy as int, SPEED_LIMIT as int, SPEED_LIMIT as int);
        }
        let csq: i64 = cx * cx + cy * cy;
        if minsq <= csq && csq <= maxsq {
            Vec2 { x: cx, y: cy }
        } else {
            fallback_e(cfg, vx, vy, hx, hy)
        }
    } else {
        fallback_e(cfg, vx, vy, hx, hy)
    };
    proof {
        lemma_range_component_bounds(*cfg, res.x as int, res.y as int);
    }
    res
}

/// Executable axis-aligned fallback of magnitude `min_speed`.
fn fallback_e(cfg: &Config, vx: i64, vy: i64, hx: i64, hy: i64) -> (r: Vec2)
    requires
        cfg.valid(),
        abs_i(vx as int) <= VEL_CAP as int,
        abs_i(vy as int) <= VEL_CAP as int,
        abs_i(hx as int) <= SPEED_LIMIT as int,
        abs_i(hy as int) <= SPEED_LIMIT as int,
    ensures
        (r.x as int, r.y as int) == axis_fallback(
            vx as int,
            vy as int,
            hx as int,
            hy as int,
            cfg.min_speed as int,
        ),
{
    let m = cfg.min_speed;
    let zero_v = vx == 0 && vy == 0;
    let ax: i64 = if zero_v {
        hx
    } else {
        vx
    };
    let ay: i64 = if zero_v {
        hy
    } else {
        vy
    };
    let abs_ax: i64 = if ax >= 0 {
        ax
    } else {
        -ax
    };
    let abs_ay: i64 = if ay >= 0 {
        ay
    } else {
        -ay
    };
    if abs_ax >= abs_ay {
        Vec2 {
            x: if ax >= 0 {
                m
            } else {
                -m
            },
            y: 0,
        }
    } else {
        Vec2 {
            x: 0,
            y: if ay >= 0 {
                m
            } else {
                -m
            },
        }
    }
}

} // verus!
