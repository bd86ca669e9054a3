//! Geometry emission: each agent as a triangle oriented along its motion,
//! plus the static arena border and outline, as plain colored vertices for
//! an external renderer.

use vstd::prelude::*;
use crate::math::{abs_i, div_q, div_q_e, lemma_mul_abs_bound};
use crate::agent::AgentModel;
use crate::config::Config;

verus! {

/// Color of the agent triangles.
pub const AGENT_COLOR: u32 = 0xffcc00ff;

/// Color of the arena border band.
pub const BORDER_COLOR: u32 = 0x222222ff;

/// Color of the inner border outline.
pub const OUTLINE_COLOR: u32 = 0xffffffff;

/// Half-length of an agent triangle at full speed, in arena units.
pub const AGENT_SIZE: i64 = 10;

/// One renderer vertex: a position, a packed RGBA color, and the spare
/// scalar slot the vertex format carries.
#[derive(Clone, Copy, PartialEq, Eq, Structural, Debug)]
pub struct ColorVertex {
    pub x: i64,
    pub y: i64,
    pub color: u32,
    pub scalar: i64,
}

/// The mathematical model of a vertex.
pub ghost struct VertexModel {
    pub x: int,
    pub y: int,
    pub color: int,
    pub scalar: int,
}

impl View for ColorVertex {
    type V = VertexModel;

    open spec fn view(&self) -> VertexModel {
        VertexModel {
            x: self.x as int,
            y: self.y as int,
            color: self.color as int,
            scalar: self.scalar as int,
        }
    }
}

/// A vertex model at a position, with a color and a zero scalar.
pub open spec fn vert(x: int, y: int, color: int) -> VertexModel {
    VertexModel { x: x, y: y, color: color, scalar: 0 }
}

/// The oriented offset an agent is drawn with: its velocity (or, when the
/// velocity is zero, its stored heading) scaled by `AGENT_SIZE` over the
/// configured top speed, so faster agents get longer triangles.
pub open spec fn agent_dir(cfg: Config, a: AgentModel) -> (int, int) {
    let ux = if a.vx == 0 && a.vy == 0 {
        a.hx
    } else {
        a.vx
    };
    let uy = if a.vx == 0 && a.vy == 0 {
        a.hy
    } else {
        a.vy
    };
    (div_q(ux * AGENT_SIZE as int, cfg.max_speed as int), div_q(
        uy * AGENT_SIZE as int,
        cfg.max_speed as int,
    ))
}

/// The three vertices of one agent's triangle: a tip along the direction of
/// motion and two base corners behind it.
pub open spec fn agent_vertices(cfg: Config, a: AgentModel) -> Seq<VertexModel> {
    let d = agent_dir(cfg, a);
    let hx = div_q(d.1, 2);
    let hy = div_q(d.0, 2);
    seq![
        vert(a.px + d.0, a.py + d.1, AGENT_COLOR as int),
        vert(a.px - d.0 - hx, a.py - d.1 + hy, AGENT_COLOR as int),
        vert(a.px - d.0 + hx, a.py - d.1 - hy, AGENT_COLOR as int),
    ]
}

/// The triangles of a whole agent sequence, in order.
pub open spec fn flock_vertices(cfg: Config, ms: Seq<AgentModel>) -> Seq<VertexModel>
    decreases ms.len(),
{
    if ms.len() == 0 {
        Seq::empty()
    } else {
        flock_vertices(cfg, ms.drop_last()) + agent_vertices(cfg, ms.last())
    }
}

/// Executable emission of one agent's triangle vertices onto `out`.
pub(crate) fn push_agent_vertices(cfg: &Config, px: i64, py: i64, ux: i64, uy: i64, out: &mut Vec<
    ColorVertex,
>, Ghost(a): Ghost<AgentModel>)
    requires
        cfg.valid(),
        abs_i(px as int) <= 1_000_000,
        abs_i(py as int) <= 1_000_000,
        abs_i(ux as int) <= 1_000_000,
        abs_i(uy as int) <= 1_000_000,
        px as int == a.px,
        py as int == a.py,
        ux as int == (if a.vx == 0 && a.vy == 0 {
            a.hx
        } else {
            a.vx
        }),
        uy as int == (if a.vx == 0 && a.vy == 0 {
            a.hy
        } else {
            a.vy
        }),
    ensures
        final(out)@.len() == old(out)@.len() + 3,
        final(out)@.map_values(|v: ColorVertex| v@) =~= old(out)@.map_values(|v: ColorVertex| v@)
            + agent_vertices(*cfg, a),
{
    proof {
        lemma_mul_abs_bound(ux as int, AGENT_SIZE as int, 1_000_000, AGENT_SIZE as int);
        lemma_mul_abs_bound(uy as int, AGENT_SIZE as int, 1_000_000, AGENT_SIZE as int);
    }
    let dx: i64 = div_q_e(ux * AGENT_SIZE, cfg.max_speed);
    let dy: i64 = div_q_e(uy * AGENT_SIZE, cfg.max_speed);
    let hx: i64 = div_q_e(dy, 2);
    let hy: i64 = div_q_e(dx, 2);
    out.push(ColorVertex { x: px + dx, y: py + dy, color: AGENT_COLOR, scalar: 0 });
    out.push(ColorVertex { x: px - dx - hx, y: py - dy + hy, color: AGENT_COLOR, scalar: 0 });
    out.push(ColorVertex { x: px - dx + hx, y: py - dy - hy, color: AGENT_COLOR, scalar: 0 });
}

/// The 24 vertices (four quads of two triangles) of the arena border band.
pub open spec fn border_vertices_model(arena: int, b: int) -> Seq<VertexModel> {
    let c = BORDER_COLOR as int;
    seq![
        vert(0, 0, c),
        vert(b, 0, c),
        vert(0, arena, c),
        vert(0, arena, c),
        vert(b, arena, c),
        vert(b, 0, c),
        vert(arena - b, 0, c),
        vert(arena, 0, c),
        vert(arena - b, arena, c),
        vert(arena - b, arena, c),
        vert(arena, arena, c),
        vert(arena, 0, c),
        vert(0, 0, c),
        vert(0, b, c),
        vert(arena, 0, c),
        vert(arena, 0, c),
        vert(arena, b, c),
        vert(0, b, c),
        vert(0, arena - b, c),
        vert(0, arena, c),
        vert(arena, arena - b, c),
        vert(arena, arena - b, c),
        vert(arena, arena, c),
        vert(0, arena, c),
    ]
}

/// The four corners of the inner border outline, as a line loop.
pub open spec fn outline_vertices_model(arena: int, b: int) -> Seq<VertexModel> {
    let c = OUTLINE_COLOR as int;
    seq![
        vert(b, b, c),
        vert(arena - b, b, c),
        vert(arena - b, arena - b, c),
        vert(b, arena - b, c),
    ]
}

/// The static border band geometry, generated from the arena size and the
/// border thickness.
pub fn border_vertices(arena: i64, border: i64) -> (r: Vec<ColorVertex>)
    requires
        1 <= arena as int <= 100_000,
        0 <= border as int,
        2 * (border as int) <= arena as int,
    ensures
        r@.map_values(|v: ColorVertex| v@) =~= border_vertices_model(arena as int, border as int),
{
    let c = BORDER_COLOR;
    let a = arena;
    let b = border;
    let ab: i64 = a - b;
    let v: Vec<ColorVertex> = vec![
        ColorVertex { x: 0, y: 0, color: c, scalar: 0 },
        ColorVertex { x: b, y: 0, color: c, scalar: 0 },
        ColorVertex { x: 0, y: a, color: c, scalar: 0 },
        ColorVertex { x: 0, y: a, color: c, scalar: 0 },
        ColorVertex { x: b, y: a, color: c, scalar: 0 },
        ColorVertex { x: b, y: 0, color: c, scalar: 0 },
        ColorVertex { x: ab, y: 0, color: c, scalar: 0 },
        ColorVertex { x: a, y: 0, color: c, scalar: 0 },
        ColorVertex { x: ab, y: a, color: c, scalar: 0 },
        ColorVertex { x: ab, y: a, color: c, scalar: 0 },
        ColorVertex { x: a, y: a, color: c, scalar: 0 },
        ColorVertex { x: a, y: 0, color: c, scalar: 0 },
        ColorVertex { x: 0, y: 0, color: c, scalar: 0 },
        ColorVertex { x: 0, y: b, color: c, scalar: 0 },
        ColorVertex { x: a, y: 0, color: c, scalar: 0 },
        ColorVertex { x: a, y: 0, color: c, scalar: 0 },
        ColorVertex { x: a, y: b, color: c, scalar: 0 },
        ColorVertex { x: 0, y: b, color: c, scalar: 0 },
        ColorVertex { x: 0, y: ab, color: c, scalar: 0 },
        ColorVertex { x: 0, y: a, color: c, scalar: 0 },
        ColorVertex { x: a, y: ab, color: c, scalar: 0 },
        ColorVertex { x: a, y: ab, color: c, scalar: 0 },
        ColorVertex { x: a, y: a, color: c, scalar: 0 },
        ColorVertex { x: 0, y: a, color: c, scalar: 0 },
    ];
    v
}

/// The static outline geometry, generated from the arena size and the
/// border thickness.
pub fn outline_vertices(arena: i64, border: i64) -> (r: Vec<ColorVertex>)
    requires
        1 <= arena as int <= 100_000,
        0 <= border as int,
        2 * (border as int) <= arena as int,
    ensures
        r@.map_values(|v: ColorVertex| v@) =~= outline_vertices_model(arena as int, border as int),
{
    let c = OUTLINE_COLOR;
    let a = arena;
    let b = border;
    let ab: i64 = a - b;
    let v: Vec<ColorVertex> = vec![
        ColorVertex { x: b, y: b, color: c, scalar: 0 },
        ColorVertex { x: ab, y: b, color: c, scalar: 0 },
        ColorVertex { x: ab, y: ab, color: c, scalar: 0 },
        ColorVertex { x: b, y: ab, color: c, scalar: 0 },
    ];
    v
}

} // verus!
