//! Frustum clipping: backface culling, six sequential half-space clips of the
//! clip-space polygon, and re-triangulation of the result as a fan.
//!
//! A clip-space point is inside the frustum when every coordinate c of x, y, z
//! satisfies w <= c <= -w (w is negative for points in front of the camera).
//! Each half-space pass walks the polygon's edges: an edge fully inside keeps
//! its left vertex, an edge crossing the boundary also emits the intersection
//! vertex with all attributes interpolated.

use vstd::prelude::*;

use crate::fx::{fadd, fdiv, fneg, fsub, fx_add, fx_div, fx_neg, fx_sub, FX_EPS};
use crate::geom::{vertex_r_from_vertex, vertex_r_lerp, Triangle, TriangleG, TriangleRG,
    TriangleRasterization, VertexRG, VertexRasterization};
use crate::vec::{cross3, dot3, homog, homogeneous, mul4v, sub3, xyz, Mat4, M4, V4};

verus! {

/// The clip-space coordinate tested by a given axis (0 = x, 1 = y, 2 = z).
pub open spec fn tp_comp(p: V4, axis: int) -> int {
    if axis == 0 {
        p.x
    } else if axis == 1 {
        p.y
    } else {
        p.z
    }
}

/// Whether a clip-stage vertex lies inside one frustum half-space: the lower
/// bound `c >= w` when `is_less`, the upper bound `c <= -w` otherwise.
pub open spec fn vertex_inside(v: VertexRG, axis: int, is_less: bool) -> bool {
    if is_less {
        tp_comp(v.transform_pos, axis) >= v.transform_pos.w
    } else {
        tp_comp(v.transform_pos, axis) <= fneg(v.transform_pos.w)
    }
}

/// The signed boundary function of a half-space: nonnegative inside for the
/// lower bound, nonpositive inside for the upper bound.
pub open spec fn boundary_dist(v: VertexRG, axis: int, is_less: bool) -> int {
    if is_less {
        fsub(tp_comp(v.transform_pos, axis), v.transform_pos.w)
    } else {
        fadd(tp_comp(v.transform_pos, axis), v.transform_pos.w)
    }
}

/// The interpolation parameter where an edge crosses the half-space boundary.
pub open spec fn clip_param(l: VertexRG, r: VertexRG, axis: int, is_less: bool) -> int {
    fdiv(
        boundary_dist(l, axis, is_less),
        fsub(boundary_dist(l, axis, is_less), boundary_dist(r, axis, is_less)),
    )
}

/// What edge i of the polygon contributes to one half-space pass.
pub open spec fn edge_output(poly: Seq<VertexRG>, i: int, axis: int, is_less: bool)
    -> Seq<VertexRG>
    recommends
        0 <= i < poly.len(),
{
    let l = poly[i];
    let r = poly[if i + 1 == poly.len() { 0int } else { i + 1 }];
    let il = vertex_inside(l, axis, is_less);
    let ir = vertex_inside(r, axis, is_less);
    if il && ir {
        seq![l]
    } else if il {
        seq![l, vertex_r_lerp(l, r, clip_param(l, r, axis, is_less))]
    } else if ir {
        seq![vertex_r_lerp(l, r, clip_param(l, r, axis, is_less))]
    } else {
        seq![]
    }
}

/// The concatenated contributions of the first `n` edges.
pub open spec fn edges_output_up_to(poly: Seq<VertexRG>, axis: int, is_less: bool, n: int)
    -> Seq<VertexRG>
    decreases n,
{
    if n <= 0 {
        seq![]
    } else {
        edges_output_up_to(poly, axis, is_less, n - 1) + edge_output(poly, n - 1, axis, is_less)
    }
}

/// What one half-space pass leaves of a polygon; fewer than three vertices
/// clip to nothing.
pub open spec fn clip_polygon(poly: Seq<VertexRG>, axis: int, is_less: bool) -> Seq<VertexRG> {
    if poly.len() < 3 {
        seq![]
    } else {
        edges_output_up_to(poly, axis, is_less, poly.len() as int)
    }
}

/// The pass order of the six half-space clips: z, then y, then x, the lower
/// bound before the upper bound of each axis.
pub open spec fn plane_axis(k: int) -> int {
    2 - k / 2
}

/// Whether pass k tests the lower bound.
pub open spec fn plane_is_less(k: int) -> bool {
    k % 2 == 0
}

/// The polygon left after the first `k` half-space passes.
pub open spec fn clip_planes_up_to(poly: Seq<VertexRG>, k: int) -> Seq<VertexRG>
    decreases k,
{
    if k <= 0 {
        poly
    } else {
        clip_polygon(clip_planes_up_to(poly, k - 1), plane_axis(k - 1), plane_is_less(k - 1))
    }
}

/// Whether the triangle faces away from the eye in view space: the face
/// normal (cross product of two edges) points toward any vertex.
pub open spec fn backfacing(tri: TriangleG, mv: M4) -> bool {
    let p0 = xyz(mul4v(mv, homog(tri.v0.pos)));
    let p1 = xyz(mul4v(mv, homog(tri.v1.pos)));
    let p2 = xyz(mul4v(mv, homog(tri.v2.pos)));
    let n = cross3(sub3(p1, p0), sub3(p2, p1));
    dot3(n, p0) > FX_EPS as int || dot3(n, p1) > FX_EPS as int || dot3(n, p2) > FX_EPS as int
}

/// The three clip-stage vertices a triangle enters the clip passes with.
pub open spec fn initial_polygon(tri: TriangleG, mvp: M4) -> Seq<VertexRG> {
    seq![
        vertex_r_from_vertex(tri.v0, mul4v(mvp, homog(tri.v0.pos))),
        vertex_r_from_vertex(tri.v1, mul4v(mvp, homog(tri.v1.pos))),
        vertex_r_from_vertex(tri.v2, mul4v(mvp, homog(tri.v2.pos))),
    ]
}

/// The fan triangulation of a polygon around its first vertex.
pub open spec fn fan_triangles(poly: Seq<VertexRG>) -> Seq<TriangleRG> {
    if poly.len() < 3 {
        seq![]
    } else {
        Seq::new((poly.len() - 2) as nat, |i: int| TriangleRG {
            v0: poly[0],
            v1: poly[i + 1],
            v2: poly[i + 2],
        })
    }
}

/// What clipping one triangle produces: nothing if it is backfacing, else the
/// fan triangulation of the polygon left by the six half-space passes.
pub open spec fn clip_triangle(tri: TriangleG, mvp: M4, mv: M4) -> Seq<TriangleRG> {
    if backfacing(tri, mv) {
        seq![]
    } else {
        fan_triangles(clip_planes_up_to(initial_polygon(tri, mvp), 6))
    }
}

/// Whether every vertex of a polygon is inside one frustum half-space.
pub open spec fn polygon_inside_plane(poly: Seq<VertexRG>, axis: int, is_less: bool) -> bool {
    forall|i: int| 0 <= i < poly.len() ==> vertex_inside(#[trigger] poly[i], axis, is_less)
}

/// Whether every vertex of a polygon is outside one frustum half-space.
pub open spec fn polygon_outside_plane(poly: Seq<VertexRG>, axis: int, is_less: bool) -> bool {
    forall|i: int| 0 <= i < poly.len() ==> !vertex_inside(#[trigger] poly[i], axis, is_less)
}

proof fn lemma_edges_all_inside(poly: Seq<VertexRG>, axis: int, is_less: bool, n: int)
    requires
        0 <= n <= poly.len(),
        polygon_inside_plane(poly, axis, is_less),
    ensures
        edges_output_up_to(poly, axis, is_less, n) == poly.take(n),
    decreases n,
{
    if n > 0 {
        lemma_edges_all_inside(poly, axis, is_less, n - 1);
        assert(edge_output(poly, n - 1, axis, is_less) =~= seq![poly[n - 1]]);
        assert(poly.take(n) =~= poly.take(n - 1) + seq![poly[n - 1]]);
    } else {
        assert(edges_output_up_to(poly, axis, is_less, n) =~= poly.take(n));
    }
}

/// A half-space pass leaves a polygon unchanged when every vertex is inside
/// that half-space.
pub proof fn lemma_clip_polygon_inside(poly: Seq<VertexRG>, axis: int, is_less: bool)
    requires
        poly.len() >= 3,
        polygon_inside_plane(poly, axis, is_less),
    ensures
        clip_polygon(poly, axis, is_less) == poly,
{
    lemma_edges_all_inside(poly, axis, is_less, poly.len() as int);
    assert(poly.take(poly.len() as int) =~= poly);
}

proof fn lemma_edges_all_outside(poly: Seq<VertexRG>, axis: int, is_less: bool, n: int)
    requires
        0 <= n <= poly.len(),
        polygon_outside_plane(poly, axis, is_less),
    ensures
        edges_output_up_to(poly, axis, is_less, n) == Seq::<VertexRG>::empty(),
    decreases n,
{
    if n > 0 {
        lemma_edges_all_outside(poly, axis, is_less, n - 1);
        assert(edge_output(poly, n - 1, axis, is_less) =~= Seq::<VertexRG>::empty());
        assert(edges_output_up_to(poly, axis, is_less, n) =~= Seq::<VertexRG>::empty());
    } else {
        assert(edges_output_up_to(poly, axis, is_less, n) =~= Seq::<VertexRG>::empty());
    }
}

/// A half-space pass deletes a polygon whose vertices all lie outside that
/// half-space.
pub proof fn lemma_clip_polygon_outside(poly: Seq<VertexRG>, axis: int, is_less: bool)
    requires
        polygon_outside_plane(poly, axis, is_less),
    ensures
        clip_polygon(poly, axis, is_less) == Seq::<VertexRG>::empty(),
{
    if poly.len() >= 3 {
        lemma_edges_all_outside(poly, axis, is_less, poly.len() as int);
    }
}

proof fn lemma_planes_identity_up_to(poly: Seq<VertexRG>, k: int)
    requires
        0 <= k <= 6,
        poly.len() >= 3,
        forall|j: int| 0 <= j < k ==> #[trigger] polygon_inside_plane(
            poly,
            plane_axis(j),
            plane_is_less(j),
        ),
    ensures
        clip_planes_up_to(poly, k) == poly,
    decreases k,
{
    if k > 0 {
        lemma_planes_identity_up_to(poly, k - 1);
        let j = k - 1;
        assert(polygon_inside_plane(poly, plane_axis(j), plane_is_less(j)));
        lemma_clip_polygon_inside(poly, plane_axis(j), plane_is_less(j));
    }
}

proof fn lemma_planes_stay_empty(poly: Seq<VertexRG>, k1: int, k2: int)
    requires
        0 <= k1 < k2 <= 6,
        clip_planes_up_to(poly, k1).len() < 3,
    ensures
        clip_planes_up_to(poly, k2) == Seq::<VertexRG>::empty(),
    decreases k2 - k1,
{
    if k2 == k1 + 1 {
        assert(clip_polygon(clip_planes_up_to(poly, k1), plane_axis(k1), plane_is_less(k1))
            =~= Seq::<VertexRG>::empty());
    } else {
        lemma_planes_stay_empty(poly, k1, k2 - 1);
        assert(clip_polygon(clip_planes_up_to(poly, k2 - 1), plane_axis(k2 - 1), plane_is_less(
            k2 - 1,
        )) =~= Seq::<VertexRG>::empty());
    }
}

/// A triangle that faces the eye and lies fully inside the view frustum clips
/// to exactly one triangle, carrying the input triangle's position, normal,
/// color and texture coordinate unchanged: every half-space pass is the
/// identity and the fan triangulation of three vertices is the triangle
/// itself.
pub proof fn lemma_clip_fully_inside(tri: TriangleG, mvp: M4, mv: M4)
    requires
        !backfacing(tri, mv),
        forall|j: int| 0 <= j < 6 ==> #[trigger] polygon_inside_plane(
            initial_polygon(tri, mvp),
            plane_axis(j),
            plane_is_less(j),
        ),
    ensures
        clip_triangle(tri, mvp, mv) == seq![
            TriangleRG {
                v0: initial_polygon(tri, mvp)[0],
                v1: initial_polygon(tri, mvp)[1],
                v2: initial_polygon(tri, mvp)[2],
            },
        ],
        initial_polygon(tri, mvp)[0] == vertex_r_from_vertex(
            tri.v0,
            mul4v(mvp, homog(tri.v0.pos)),
        ),
        initial_polygon(tri, mvp)[1] == vertex_r_from_vertex(
            tri.v1,
            mul4v(mvp, homog(tri.v1.pos)),
        ),
        initial_polygon(tri, mvp)[2] == vertex_r_from_vertex(
            tri.v2,
            mul4v(mvp, homog(tri.v2.pos)),
        ),
{
    let p = initial_polygon(tri, mvp);
    lemma_planes_identity_up_to(p, 6);
    assert(fan_triangles(p) =~= seq![TriangleRG { v0: p[0], v1: p[1], v2: p[2] }]);
}

/// A triangle entirely beyond one frustum half-space clips to zero triangles,
/// provided its vertices are inside the half-spaces the pipeline tests before
/// that one (the passes run z, y, x, lower bound before upper bound; a
/// triangle beyond the far plane is inside the near half-space, so the far
/// case is covered with k = 1).
pub proof fn lemma_clip_outside_halfspace(tri: TriangleG, mvp: M4, mv: M4, k: int)
    requires
        0 <= k < 6,
        polygon_outside_plane(initial_polygon(tri, mvp), plane_axis(k), plane_is_less(k)),
        forall|j: int| 0 <= j < k ==> #[trigger] polygon_inside_plane(
            initial_polygon(tri, mvp),
            plane_axis(j),
            plane_is_less(j),
        ),
    ensures
        clip_triangle(tri, mvp, mv) == Seq::<TriangleRG>::empty(),
{
    if !backfacing(tri, mv) {
        let p = initial_polygon(tri, mvp);
        lemma_planes_identity_up_to(p, k);
        lemma_clip_polygon_outside(p, plane_axis(k), plane_is_less(k));
        assert(clip_planes_up_to(p, k + 1) == Seq::<VertexRG>::empty());
        if k + 1 < 6 {
            lemma_planes_stay_empty(p, k + 1, 6);
        }
        assert(fan_triangles(clip_planes_up_to(p, 6)) =~= Seq::<TriangleRG>::empty());
    }
}

/// The ghost view of a polygon of clip-stage vertices.
pub open spec fn poly_view(s: Seq<VertexRasterization>) -> Seq<VertexRG> {
    s.map_values(|v: VertexRasterization| v@)
}

/// The ghost view of a batch of screen-bound triangles.
pub open spec fn tri_seq_view(s: Seq<TriangleRasterization>) -> Seq<TriangleRG> {
    s.map_values(|t: TriangleRasterization| t@)
}

fn vertex_inside_exec(v: &VertexRasterization, axis: usize, is_less: bool) -> (r: bool)
    requires
        axis < 3,
    ensures
        r == vertex_inside(v@, axis as int, is_less),
{
    let c = if axis == 0 {
        v.transform_pos.x
    } else if axis == 1 {
        v.transform_pos.y
    } else {
        v.transform_pos.z
    };
    if is_less {
        c >= v.transform_pos.w
    } else {
        c <= fx_neg(v.transform_pos.w)
    }
}

fn boundary_dist_exec(v: &VertexRasterization, axis: usize, is_less: bool) -> (r: i64)
    requires
        axis < 3,
    ensures
        r as int == boundary_dist(v@, axis as int, is_less),
{
    let c = if axis == 0 {
        v.transform_pos.x
    } else if axis == 1 {
        v.transform_pos.y
    } else {
        v.transform_pos.z
    };
    if is_less {
        fx_sub(c, v.transform_pos.w)
    } else {
        fx_add(c, v.transform_pos.w)
    }
}

/// Clip a polygon against one frustum half-space, appending the surviving
/// vertices (and boundary intersections) to `output`.
#[verifier::rlimit(100)]
pub fn clip_vertices(
    input: &Vec<VertexRasterization>,
    axis: usize,
    is_less: bool,
    output: &mut Vec<VertexRasterization>,
)
    requires
        axis < 3,
    ensures
        poly_view(final(output)@) == poly_view(old(output)@) + clip_polygon(
            poly_view(input@),
            axis as int,
            is_less,
        ),
{
    let ghost pv = poly_view(input@);
    let ghost out0 = poly_view(output@);
    if input.len() < 3 {
        assert(poly_view(output@) =~= out0 + clip_polygon(pv, axis as int, is_less));
        return ;
    }
    let n = input.len();
    let mut i: usize = 0;
    while i < n
        invariant
            n == input.len(),
            3 <= n,
            i <= n,
            axis < 3,
            pv == poly_view(input@),
            poly_view(output@) == out0 + edges_output_up_to(pv, axis as int, is_less, i as int),
        decreases n - i,
    {
        let l = input[i];
        let ri = if i + 1 == n {
            0
        } else {
            i + 1
        };
        let r = input[ri];
        proof {
            assert(l@ == pv[i as int]);
            assert(r@ == pv[if i as int + 1 == pv.len() { 0int } else { i as int + 1 }]);
        }
        let ghost cur = edge_output(pv, i as int, axis as int, is_less);
        let ghost pre = poly_view(output@);
        let il = vertex_inside_exec(&l, axis, is_less);
        let ir = vertex_inside_exec(&r, axis, is_less);
        if il && ir {
            output.push(l);
            proof {
                assert(poly_view(output@) =~= pre.push(l@));
                assert(cur =~= seq![l@]);
                assert(poly_view(output@) =~= pre + cur);
            }
        } else if il || ir {
            let dl = boundary_dist_exec(&l, axis, is_less);
            let dr = boundary_dist_exec(&r, axis, is_less);
            let denom = fx_sub(dl, dr);
            assert(denom != 0);
            let t = fx_div(dl, denom);
            proof {
                assert(t as int == clip_param(l@, r@, axis as int, is_less));
            }
            let nv = VertexRasterization::lerp(&l, &r, t);
            if il {
                output.push(l);
                output.push(nv);
                proof {
                    assert(poly_view(output@) =~= pre.push(l@).push(nv@));
                    assert(cur =~= seq![l@, nv@]);
                    assert(poly_view(output@) =~= pre + cur);
                }
            } else {
                output.push(nv);
                proof {
                    assert(poly_view(output@) =~= pre.push(nv@));
                    assert(cur =~= seq![nv@]);
                    assert(poly_view(output@) =~= pre + cur);
                }
            }
        } else {
            proof {
                assert(cur =~= Seq::<VertexRG>::empty());
                assert(poly_view(output@) =~= pre + cur);
            }
        }
        proof {
            assert(edges_output_up_to(pv, axis as int, is_less, i as int + 1)
                == edges_output_up_to(pv, axis as int, is_less, i as int) + cur);
            assert(poly_view(output@) =~= out0 + edges_output_up_to(
                pv,
                axis as int,
                is_less,
                i as int + 1,
            ));
        }
        i = i + 1;
    }
    assert(poly_view(output@) =~= out0 + clip_polygon(pv, axis as int, is_less));
}

impl Triangle {
    /// Transform this triangle to clip space, cull it if it faces away from
    /// the eye, clip it against the six frustum half-spaces and append the
    /// fan triangulation of what is left to `output`.
    pub fn clip(
        &self,
        mvp: &Mat4,
        mv: &Mat4,
        output: &mut Vec<TriangleRasterization>,
    )
        ensures
            tri_seq_view(final(output)@) == tri_seq_view(old(output)@) + clip_triangle(
                self@,
                mvp@,
                mv@,
            ),
    {
        let ghost out0 = tri_seq_view(output@);
        let p0 = mv.mul_vec(&homogeneous(&self.v0.pos)).xyz();
        let p1 = mv.mul_vec(&homogeneous(&self.v1.pos)).xyz();
        let p2 = mv.mul_vec(&homogeneous(&self.v2.pos)).xyz();
        let nrm = p1.sub(&p0).cross(&p2.sub(&p1));
        if nrm.dot(&p0) > FX_EPS || nrm.dot(&p1) > FX_EPS || nrm.dot(&p2) > FX_EPS {
            assert(tri_seq_view(output@) =~= out0 + clip_triangle(self@, mvp@, mv@));
            return ;
        }
        let mut result: Vec<VertexRasterization> = Vec::new();
        let mut buffer: Vec<VertexRasterization> = Vec::new();
        result.push(
            VertexRasterization::from_vertex(&self.v0, mvp.mul_vec(&homogeneous(&self.v0.pos))),
        );
        result.push(
            VertexRasterization::from_vertex(&self.v1, mvp.mul_vec(&homogeneous(&self.v1.pos))),
        );
        result.push(
            VertexRasterization::from_vertex(&self.v2, mvp.mul_vec(&homogeneous(&self.v2.pos))),
        );
        proof {
            assert(poly_view(result@) =~= initial_polygon(self@, mvp@));
            assert(clip_planes_up_to(initial_polygon(self@, mvp@), 0) == initial_polygon(
                self@,
                mvp@,
            ));
        }
        clip_vertices(&result, 2, true, &mut buffer);
        proof {
            assert(poly_view(buffer@) =~= clip_planes_up_to(initial_polygon(self@, mvp@), 1));
        }
        result.clear();
        clip_vertices(&buffer, 2, false, &mut result);
        proof {
            assert(poly_view(result@) =~= clip_planes_up_to(initial_polygon(self@, mvp@), 2));
        }
        buffer.clear();
        clip_vertices(&result, 1, true, &mut buffer);
        proof {
            assert(poly_view(buffer@) =~= clip_planes_up_to(initial_polygon(self@, mvp@), 3));
        }
        result.clear();
        clip_vertices(&buffer, 1, false, &mut result);
        proof {
            assert(poly_view(result@) =~= clip_planes_up_to(initial_polygon(self@, mvp@), 4));
        }
        buffer.clear();
        clip_vertices(&result, 0, true, &mut buffer);
        proof {
            assert(poly_view(buffer@) =~= clip_planes_up_to(initial_polygon(self@, mvp@), 5));
        }
        result.clear();
        clip_vertices(&buffer, 0, false, &mut result);
        proof {
            assert(poly_view(result@) =~= clip_planes_up_to(initial_polygon(self@, mvp@), 6));
        }
        let ghost finalpoly = clip_planes_up_to(initial_polygon(self@, mvp@), 6);
        if result.len() < 3 {
            assert(tri_seq_view(output@) =~= out0 + clip_triangle(self@, mvp@, mv@));
            return ;
        }
        let count = result.len() - 2;
        let mut i: usize = 0;
        while i < count
            invariant
                count == result.len() - 2,
                3 <= result.len(),
                i <= count,
                poly_view(result@) == finalpoly,
                tri_seq_view(output@) == out0 + fan_triangles(finalpoly).take(i as int),
            decreases count - i,
        {
            proof {
                assert(result@[0]@ == finalpoly[0]);
                assert(result@[i as int + 1]@ == finalpoly[i as int + 1]);
                assert(result@[i as int + 2]@ == finalpoly[i as int + 2]);
            }
            let ghost pre = tri_seq_view(output@);
            let newt = TriangleRasterization::new(&result[0], &result[i + 1], &result[i + 2]);
            output.push(newt);
            proof {
                assert(tri_seq_view(output@) =~= pre.push(newt@));
                assert(newt@ == fan_triangles(finalpoly)[i as int]);
                assert(fan_triangles(finalpoly).take(i as int + 1) =~= fan_triangles(
                    finalpoly,
                ).take(i as int).push(newt@));
                assert(tri_seq_view(output@) =~= out0 + fan_triangles(finalpoly).take(
                    i as int + 1,
                ));
            }
            i = i + 1;
        }
        proof {
            assert(fan_triangles(finalpoly).take(count as int) =~= fan_triangles(finalpoly));
            assert(tri_seq_view(output@) =~= out0 + clip_triangle(self@, mvp@, mv@));
        }
    }
}

} // verus!
