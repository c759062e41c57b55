//! Frustum clipping scenarios: a triangle fully inside the frustum survives
//! unchanged as one triangle; a triangle entirely beyond one plane vanishes.

use render_lib::fx::FX_ONE;
use render_lib::geom::{Triangle, Vertex};
use render_lib::vec::{Mat4, Vec2, Vec3};

fn vertex_at(x: i64, y: i64, z: i64) -> Vertex {
    Vertex {
        pos: Vec3 { x, y, z },
        normal: Vec3 { x: 0, y: 0, z: FX_ONE },
        color: Vec3 { x: FX_ONE / 2, y: FX_ONE / 2, z: FX_ONE / 2 },
        texture_coords: Vec2 { x: 0, y: 0 },
    }
}

/// A front-facing triangle well inside every frustum half-space clips to
/// exactly itself.
#[test]
fn clip_inside_returns_input() {
    // identity mvp: clip position is the homogeneous model position with
    // w = 1, negated so w is negative as the clipper expects.
    let mut mvp = Mat4::identity();
    mvp.r3.w = -FX_ONE;
    // view space: push the triangle in front of the eye so it faces it
    let mv = Mat4::identity();
    // coordinates well within |c| <= -w = 1
    let t = Triangle {
        v0: vertex_at(-FX_ONE / 4, -FX_ONE / 4, -FX_ONE / 2),
        v1: vertex_at(FX_ONE / 4, -FX_ONE / 4, -FX_ONE / 2),
        v2: vertex_at(0, FX_ONE / 4, -FX_ONE / 2),
    };
    let mut out = Vec::new();
    t.clip(&mvp, &mv, &mut out);
    assert_eq!(out.len(), 1);
    let r = &out[0];
    assert_eq!(r.v0.pos, t.v0.pos);
    assert_eq!(r.v1.pos, t.v1.pos);
    assert_eq!(r.v2.pos, t.v2.pos);
    assert_eq!(r.v0.color, t.v0.color);
    assert_eq!(r.v0.normal, t.v0.normal);
}

/// A triangle with every vertex beyond one half-space clips to nothing.
#[test]
fn clip_outside_returns_nothing() {
    let mut mvp = Mat4::identity();
    mvp.r3.w = -FX_ONE;
    let mv = Mat4::identity();
    // z = 2 breaks the upper bound z <= -w = 1 for every vertex while the
    // x and y coordinates stay inside their half-spaces.
    let t = Triangle {
        v0: vertex_at(-FX_ONE / 4, -FX_ONE / 4, 2 * FX_ONE),
        v1: vertex_at(0, FX_ONE / 4, 2 * FX_ONE),
        v2: vertex_at(FX_ONE / 4, -FX_ONE / 4, 2 * FX_ONE),
    };
    let mut out = Vec::new();
    t.clip(&mvp, &mv, &mut out);
    assert_eq!(out.len(), 0);
}

/// A backfacing triangle is culled before any half-space pass.
#[test]
fn clip_culls_backface() {
    let mut mvp = Mat4::identity();
    mvp.r3.w = -FX_ONE;
    let mv = Mat4::identity();
    // wound the other way: normal points away from the eye
    let t = Triangle {
        v0: vertex_at(-FX_ONE / 4, -FX_ONE / 4, -FX_ONE / 2),
        v1: vertex_at(0, FX_ONE / 4, -FX_ONE / 2),
        v2: vertex_at(FX_ONE / 4, -FX_ONE / 4, -FX_ONE / 2),
    };
    let mut out = Vec::new();
    t.clip(&mvp, &mv, &mut out);
    assert_eq!(out.len(), 0);
}
