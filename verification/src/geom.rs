//! Triangle geometry: vertices with shading attributes, model-space triangles,
//! and the per-frame clip-space records consumed by the rasterizer.

use vstd::prelude::*;

use crate::fx::{fadd, fdiv, fmul, fsub, fx_add, fx_div, fx_mul, fx_sub, FX_HALF, FX_ONE};
use crate::vec::{add2, add3, add4, homog, homogeneous, mul3v, mul4v, norm3, scale2, scale3,
    scale4, xyz, Mat3, Mat4, Vec2, Vec3, Vec4, V2, V3, V4};

verus! {

/// A model-space vertex: position, normal, vertex color and texture
/// coordinate.
#[derive(Clone, Copy, Debug, PartialEq, Eq, Structural)]
pub struct Vertex {
    pub pos: Vec3,
    pub normal: Vec3,
    pub color: Vec3,
    pub texture_coords: Vec2,
}

/// Ghost mirror of `Vertex`.
pub ghost struct VertexG {
    pub pos: V3,
    pub normal: V3,
    pub color: V3,
    pub texture_coords: V2,
}

impl View for Vertex {
    type V = VertexG;

    open spec fn view(&self) -> VertexG {
        VertexG {
            pos: self.pos@,
            normal: self.normal@,
            color: self.color@,
            texture_coords: self.texture_coords@,
        }
    }
}

impl Vertex {
    /// Build a vertex from its attributes.
    pub fn new(pos: Vec3, normal: Vec3, color: Vec3, texture_coords: Vec2) -> (r: Vertex)
        ensures
            r@ == (VertexG {
                pos: pos@,
                normal: normal@,
                color: color@,
                texture_coords: texture_coords@,
            }),
    {
        Vertex { pos, normal, color, texture_coords }
    }
}

/// What applying an affine transform (and its normal matrix) does to a vertex.
pub open spec fn vertex_transformed(v: VertexG, m: crate::vec::M4, nm: crate::vec::M3)
    -> VertexG {
    VertexG {
        pos: xyz(mul4v(m, homog(v.pos))),
        normal: mul3v(nm, v.normal),
        color: v.color,
        texture_coords: v.texture_coords,
    }
}

/// A triangle owning exactly three vertices.
#[derive(Clone, Copy, Debug, PartialEq, Eq, Structural)]
pub struct Triangle {
    pub v0: Vertex,
    pub v1: Vertex,
    pub v2: Vertex,
}

/// Ghost mirror of `Triangle`.
pub ghost struct TriangleG {
    pub v0: VertexG,
    pub v1: VertexG,
    pub v2: VertexG,
}

impl View for Triangle {
    type V = TriangleG;

    open spec fn view(&self) -> TriangleG {
        TriangleG { v0: self.v0@, v1: self.v1@, v2: self.v2@ }
    }
}

impl Triangle {
    /// Build a triangle from three vertices.
    pub fn new(v0: &Vertex, v1: &Vertex, v2: &Vertex) -> (r: Triangle)
        ensures
            r@ == (TriangleG { v0: v0@, v1: v1@, v2: v2@ }),
    {
        Triangle { v0: *v0, v1: *v1, v2: *v2 }
    }

    /// Apply an affine transform to every vertex position, and the supplied
    /// normal matrix (the transpose inverse of the transform's linear part)
    /// to every vertex normal.
    pub fn modeling(&mut self, matrix: &Mat4, normal_matrix: &Mat3)
        ensures
            final(self)@ == (TriangleG {
                v0: vertex_transformed(old(self)@.v0, matrix@, normal_matrix@),
                v1: vertex_transformed(old(self)@.v1, matrix@, normal_matrix@),
                v2: vertex_transformed(old(self)@.v2, matrix@, normal_matrix@),
            }),
    {
        self.v0 = transform_vertex(&self.v0, matrix, normal_matrix);
        self.v1 = transform_vertex(&self.v1, matrix, normal_matrix);
        self.v2 = transform_vertex(&self.v2, matrix, normal_matrix);
    }
}

fn transform_vertex(v: &Vertex, matrix: &Mat4, normal_matrix: &Mat3) -> (r: Vertex)
    ensures
        r@ == vertex_transformed(v@, matrix@, normal_matrix@),
{
    Vertex {
        pos: matrix.mul_vec(&homogeneous(&v.pos)).xyz(),
        normal: normal_matrix.mul_vec(&v.normal),
        color: v.color,
        texture_coords: v.texture_coords,
    }
}

/// A clip-stage vertex: the model attributes plus the homogeneous clip-space
/// position (`transform_pos`), regenerated every frame.
#[derive(Clone, Copy, Debug, PartialEq, Eq, Structural)]
pub struct VertexRasterization {
    pub pos: Vec3,
    pub transform_pos: Vec4,
    pub normal: Vec3,
    pub color: Vec3,
    pub texture_coords: Vec2,
}

/// Ghost mirror of `VertexRasterization`.
pub ghost struct VertexRG {
    pub pos: V3,
    pub transform_pos: V4,
    pub normal: V3,
    pub color: V3,
    pub texture_coords: V2,
}

impl View for VertexRasterization {
    type V = VertexRG;

    open spec fn view(&self) -> VertexRG {
        VertexRG {
            pos: self.pos@,
            transform_pos: self.transform_pos@,
            normal: self.normal@,
            color: self.color@,
            texture_coords: self.texture_coords@,
        }
    }
}

/// What pairing a vertex with its clip-space position gives.
pub open spec fn vertex_r_from_vertex(v: VertexG, tp: V4) -> VertexRG {
    VertexRG {
        pos: v.pos,
        transform_pos: tp,
        normal: v.normal,
        color: v.color,
        texture_coords: v.texture_coords,
    }
}

/// What interpolating all attributes at parameter `t` between two clip-stage
/// vertices gives; the blended normal is re-normalized.
#[verifier::opaque]
pub open spec fn vertex_r_lerp(a: VertexRG, b: VertexRG, t: int) -> VertexRG {
    let s = fsub(FX_ONE as int, t);
    VertexRG {
        pos: add3(scale3(s, a.pos), scale3(t, b.pos)),
        transform_pos: add4(scale4(s, a.transform_pos), scale4(t, b.transform_pos)),
        normal: norm3(add3(scale3(s, a.normal), scale3(t, b.normal))),
        color: add3(scale3(s, a.color), scale3(t, b.color)),
        texture_coords: add2(scale2(s, a.texture_coords), scale2(t, b.texture_coords)),
    }
}

impl VertexRasterization {
    /// Pair a vertex with its clip-space position.
    pub fn from_vertex(vertex: &Vertex, transform_pos: Vec4) -> (r: VertexRasterization)
        ensures
            r@ == vertex_r_from_vertex(vertex@, transform_pos@),
    {
        VertexRasterization {
            pos: vertex.pos,
            transform_pos,
            normal: vertex.normal,
            color: vertex.color,
            texture_coords: vertex.texture_coords,
        }
    }

    /// Interpolate all attributes at parameter `t` between two clip-stage
    /// vertices, re-normalizing the blended normal.
    pub fn lerp(a: &VertexRasterization, b: &VertexRasterization, t: i64) -> (r:
        VertexRasterization)
        ensures
            r@ == vertex_r_lerp(a@, b@, t as int),
    {
        proof {
            reveal(vertex_r_lerp);
        }
        let s = fx_sub(FX_ONE, t);
        VertexRasterization {
            pos: a.pos.scale(s).add(&b.pos.scale(t)),
            transform_pos: a.transform_pos.scale(s).add(&b.transform_pos.scale(t)),
            normal: a.normal.scale(s).add(&b.normal.scale(t)).normalize(),
            color: a.color.scale(s).add(&b.color.scale(t)),
            texture_coords: a.texture_coords.scale(s).add(&b.texture_coords.scale(t)),
        }
    }
}

/// A screen-bound triangle with interpolation-ready attributes.
#[derive(Clone, Copy, Debug, PartialEq, Eq, Structural)]
pub struct TriangleRasterization {
    pub v0: VertexRasterization,
    pub v1: VertexRasterization,
    pub v2: VertexRasterization,
}

/// Ghost mirror of `TriangleRasterization`.
pub ghost struct TriangleRG {
    pub v0: VertexRG,
    pub v1: VertexRG,
    pub v2: VertexRG,
}

impl View for TriangleRasterization {
    type V = TriangleRG;

    open spec fn view(&self) -> TriangleRG {
        TriangleRG { v0: self.v0@, v1: self.v1@, v2: self.v2@ }
    }
}

/// What mapping one clip-space vertex to screen coordinates does: divide x
/// and y by w and remap from [-1, 1] to pixel units; z and w are kept for
/// the later perspective-correct interpolation. A vertex with w = 0 is
/// degenerate and is left unchanged (the rasterizer rejects it).
pub open spec fn vertex_to_ndc(v: VertexRG, width: int, height: int) -> VertexRG {
    if v.transform_pos.w == 0 {
        v
    } else {
        let wv = v.transform_pos.w;
        let sx = fmul(
            fmul(fadd(fdiv(v.transform_pos.x, wv), FX_ONE as int), FX_HALF as int),
            crate::fx::sat64(width * FX_ONE as int),
        );
        let sy = fmul(
            fmul(fadd(fdiv(v.transform_pos.y, wv), FX_ONE as int), FX_HALF as int),
            crate::fx::sat64(height * FX_ONE as int),
        );
        VertexRG {
            pos: v.pos,
            transform_pos: V4 { x: sx, y: sy, z: v.transform_pos.z, w: v.transform_pos.w },
            normal: v.normal,
            color: v.color,
            texture_coords: v.texture_coords,
        }
    }
}

/// What mapping a whole triangle to screen coordinates does.
pub open spec fn triangle_to_ndc(t: TriangleRG, width: int, height: int) -> TriangleRG {
    TriangleRG {
        v0: vertex_to_ndc(t.v0, width, height),
        v1: vertex_to_ndc(t.v1, width, height),
        v2: vertex_to_ndc(t.v2, width, height),
    }
}

impl TriangleRasterization {
    /// Build a screen-bound triangle from three clip-stage vertices.
    pub fn new(v0: &VertexRasterization, v1: &VertexRasterization, v2: &VertexRasterization)
        -> (r: TriangleRasterization)
        ensures
            r@ == (TriangleRG { v0: v0@, v1: v1@, v2: v2@ }),
    {
        TriangleRasterization { v0: *v0, v1: *v1, v2: *v2 }
    }

    /// Pair a model triangle with untransformed homogeneous positions.
    pub fn from_triangle(triangle: &Triangle) -> (r: TriangleRasterization)
        ensures
            r@ == (TriangleRG {
                v0: vertex_r_from_vertex(triangle@.v0, homog(triangle@.v0.pos)),
                v1: vertex_r_from_vertex(triangle@.v1, homog(triangle@.v1.pos)),
                v2: vertex_r_from_vertex(triangle@.v2, homog(triangle@.v2.pos)),
            }),
    {
        TriangleRasterization {
            v0: VertexRasterization::from_vertex(&triangle.v0, homogeneous(&triangle.v0.pos)),
            v1: VertexRasterization::from_vertex(&triangle.v1, homogeneous(&triangle.v1.pos)),
            v2: VertexRasterization::from_vertex(&triangle.v2, homogeneous(&triangle.v2.pos)),
        }
    }

    /// Map the triangle's clip-space positions to screen coordinates.
    pub fn to_ndc(&mut self, width: i64, height: i64)
        requires
            0 <= width,
            0 <= height,
        ensures
            final(self)@ == triangle_to_ndc(old(self)@, width as int, height as int),
    {
        self.v0 = vertex_ndc(&self.v0, width, height);
        self.v1 = vertex_ndc(&self.v1, width, height);
        self.v2 = vertex_ndc(&self.v2, width, height);
    }
}

fn vertex_ndc(v: &VertexRasterization, width: i64, height: i64) -> (r: VertexRasterization)
    requires
        0 <= width,
        0 <= height,
    ensures
        r@ == vertex_to_ndc(v@, width as int, height as int),
{
    let wv = v.transform_pos.w;
    if wv == 0 {
        return *v;
    }
    let wfx = crate::fx::fx_from_int(width);
    let hfx = crate::fx::fx_from_int(height);
    let sx = fx_mul(fx_mul(fx_add(fx_div(v.transform_pos.x, wv), FX_ONE), FX_HALF), wfx);
    let sy = fx_mul(fx_mul(fx_add(fx_div(v.transform_pos.y, wv), FX_ONE), FX_HALF), hfx);
    VertexRasterization {
        pos: v.pos,
        transform_pos: Vec4 { x: sx, y: sy, z: v.transform_pos.z, w: v.transform_pos.w },
        normal: v.normal,
        color: v.color,
        texture_coords: v.texture_coords,
    }
}

} // verus!
