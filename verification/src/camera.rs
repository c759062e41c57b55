//! Transform builders: the rotation-and-translation modeling matrix, the
//! look-at view matrix, and the perspective and orthographic projections.
//!
//! Angles enter as the cosine and sine of the rotation angle, and the field
//! of view as the tangent of its half angle: evaluating the trigonometric
//! functions themselves is the caller's concern; the matrices built from
//! those values are exact.

use vstd::prelude::*;

use crate::fx::{fadd, fdiv, fmul, fneg, fsub, fx_add, fx_div, fx_mul, fx_neg, fx_sub, FX_ONE};
use crate::vec::{cross3, dot3, neg3, norm3, scale3, sub3, Mat4, Vec3, Vec4, M4, V3, V4};

verus! {

/// The modeling matrix that rotates counterclockwise about the (normalized)
/// axis by the angle whose cosine is `c` and sine is `s`, then translates by
/// `mv` (the Rodrigues rotation formula).
pub open spec fn modeling_mat(axis: V3, c: int, s: int, mv: V3) -> M4 {
    let a = norm3(axis);
    let omc = fsub(FX_ONE as int, c);
    M4 {
        r0: V4 {
            x: fadd(c, fmul(omc, fmul(a.x, a.x))),
            y: fsub(fmul(omc, fmul(a.x, a.y)), fmul(s, a.z)),
            z: fadd(fmul(omc, fmul(a.x, a.z)), fmul(s, a.y)),
            w: mv.x,
        },
        r1: V4 {
            x: fadd(fmul(omc, fmul(a.x, a.y)), fmul(s, a.z)),
            y: fadd(c, fmul(omc, fmul(a.y, a.y))),
            z: fsub(fmul(omc, fmul(a.y, a.z)), fmul(s, a.x)),
            w: mv.y,
        },
        r2: V4 {
            x: fsub(fmul(omc, fmul(a.x, a.z)), fmul(s, a.y)),
            y: fadd(fmul(omc, fmul(a.y, a.z)), fmul(s, a.x)),
            z: fadd(c, fmul(omc, fmul(a.z, a.z))),
            w: mv.z,
        },
        r3: V4 { x: 0, y: 0, z: 0, w: FX_ONE as int },
    }
}

/// Build the modeling matrix from an axis, the cosine and sine of the angle,
/// and a translation.
pub fn get_modeling_matrix(axis: &Vec3, cos_a: i64, sin_a: i64, movement: &Vec3) -> (r: Mat4)
    ensures
        r@ == modeling_mat(axis@, cos_a as int, sin_a as int, movement@),
{
    let a = axis.normalize();
    let omc = fx_sub(FX_ONE, cos_a);
    Mat4 {
        r0: Vec4 {
            x: fx_add(cos_a, fx_mul(omc, fx_mul(a.x, a.x))),
            y: fx_sub(fx_mul(omc, fx_mul(a.x, a.y)), fx_mul(sin_a, a.z)),
            z: fx_add(fx_mul(omc, fx_mul(a.x, a.z)), fx_mul(sin_a, a.y)),
            w: movement.x,
        },
        r1: Vec4 {
            x: fx_add(fx_mul(omc, fx_mul(a.x, a.y)), fx_mul(sin_a, a.z)),
            y: fx_add(cos_a, fx_mul(omc, fx_mul(a.y, a.y))),
            z: fx_sub(fx_mul(omc, fx_mul(a.y, a.z)), fx_mul(sin_a, a.x)),
            w: movement.y,
        },
        r2: Vec4 {
            x: fx_sub(fx_mul(omc, fx_mul(a.x, a.z)), fx_mul(sin_a, a.y)),
            y: fx_add(fx_mul(omc, fx_mul(a.y, a.z)), fx_mul(sin_a, a.x)),
            z: fx_add(cos_a, fx_mul(omc, fx_mul(a.z, a.z))),
            w: movement.z,
        },
        r3: Vec4 { x: 0, y: 0, z: 0, w: FX_ONE },
    }
}

/// The rotation part of a modeling matrix, used to transform normals (for a
/// rotation the transpose inverse of the linear part is the rotation itself).
pub fn get_rotation_normal_matrix(axis: &Vec3, cos_a: i64, sin_a: i64) -> (r: crate::vec::Mat3)
    ensures
        r@.r0.x == modeling_mat(axis@, cos_a as int, sin_a as int, V3 { x: 0, y: 0, z: 0 }).r0.x,
        r@.r0.y == modeling_mat(axis@, cos_a as int, sin_a as int, V3 { x: 0, y: 0, z: 0 }).r0.y,
        r@.r0.z == modeling_mat(axis@, cos_a as int, sin_a as int, V3 { x: 0, y: 0, z: 0 }).r0.z,
        r@.r1.x == modeling_mat(axis@, cos_a as int, sin_a as int, V3 { x: 0, y: 0, z: 0 }).r1.x,
        r@.r1.y == modeling_mat(axis@, cos_a as int, sin_a as int, V3 { x: 0, y: 0, z: 0 }).r1.y,
        r@.r1.z == modeling_mat(axis@, cos_a as int, sin_a as int, V3 { x: 0, y: 0, z: 0 }).r1.z,
        r@.r2.x == modeling_mat(axis@, cos_a as int, sin_a as int, V3 { x: 0, y: 0, z: 0 }).r2.x,
        r@.r2.y == modeling_mat(axis@, cos_a as int, sin_a as int, V3 { x: 0, y: 0, z: 0 }).r2.y,
        r@.r2.z == modeling_mat(axis@, cos_a as int, sin_a as int, V3 { x: 0, y: 0, z: 0 }).r2.z,
    {
    let a = axis.normalize();
    let omc = fx_sub(FX_ONE, cos_a);
    crate::vec::Mat3 {
        r0: Vec3 {
            x: fx_add(cos_a, fx_mul(omc, fx_mul(a.x, a.x))),
            y: fx_sub(fx_mul(omc, fx_mul(a.x, a.y)), fx_mul(sin_a, a.z)),
            z: fx_add(fx_mul(omc, fx_mul(a.x, a.z)), fx_mul(sin_a, a.y)),
        },
        r1: Vec3 {
            x: fx_add(fx_mul(omc, fx_mul(a.x, a.y)), fx_mul(sin_a, a.z)),
            y: fx_add(cos_a, fx_mul(omc, fx_mul(a.y, a.y))),
            z: fx_sub(fx_mul(omc, fx_mul(a.y, a.z)), fx_mul(sin_a, a.x)),
        },
        r2: Vec3 {
            x: fx_sub(fx_mul(omc, fx_mul(a.x, a.z)), fx_mul(sin_a, a.y)),
            y: fx_add(fx_mul(omc, fx_mul(a.y, a.z)), fx_mul(sin_a, a.x)),
            z: fx_add(cos_a, fx_mul(omc, fx_mul(a.z, a.z))),
        },
    }
}

/// The translation matrix moving every point by `d`.
pub open spec fn translation_mat(d: V3) -> M4 {
    M4 {
        r0: V4 { x: FX_ONE as int, y: 0, z: 0, w: d.x },
        r1: V4 { x: 0, y: FX_ONE as int, z: 0, w: d.y },
        r2: V4 { x: 0, y: 0, z: FX_ONE as int, w: d.z },
        r3: V4 { x: 0, y: 0, z: 0, w: FX_ONE as int },
    }
}

/// Build the translation matrix.
pub fn get_translation_matrix(d: &Vec3) -> (r: Mat4)
    ensures
        r@ == translation_mat(d@),
{
    Mat4 {
        r0: Vec4 { x: FX_ONE, y: 0, z: 0, w: d.x },
        r1: Vec4 { x: 0, y: FX_ONE, z: 0, w: d.y },
        r2: Vec4 { x: 0, y: 0, z: FX_ONE, w: d.z },
        r3: Vec4 { x: 0, y: 0, z: 0, w: FX_ONE },
    }
}

/// The uniform scaling matrix with factor `rate`.
pub open spec fn scaling_mat(rate: int) -> M4 {
    M4 {
        r0: V4 { x: rate, y: 0, z: 0, w: 0 },
        r1: V4 { x: 0, y: rate, z: 0, w: 0 },
        r2: V4 { x: 0, y: 0, z: rate, w: 0 },
        r3: V4 { x: 0, y: 0, z: 0, w: FX_ONE as int },
    }
}

/// Build the uniform scaling matrix.
pub fn get_scaling_matrix(rate: i64) -> (r: Mat4)
    ensures
        r@ == scaling_mat(rate as int),
{
    Mat4 {
        r0: Vec4 { x: rate, y: 0, z: 0, w: 0 },
        r1: Vec4 { x: 0, y: rate, z: 0, w: 0 },
        r2: Vec4 { x: 0, y: 0, z: rate, w: 0 },
        r3: Vec4 { x: 0, y: 0, z: 0, w: FX_ONE },
    }
}

/// The normal matrix of a uniform scaling: the transpose inverse of its
/// linear part, a uniform scaling by the inverse factor.
pub open spec fn scaling_nm(inv_rate: int) -> crate::vec::M3 {
    crate::vec::M3 {
        r0: V3 { x: inv_rate, y: 0, z: 0 },
        r1: V3 { x: 0, y: inv_rate, z: 0 },
        r2: V3 { x: 0, y: 0, z: inv_rate },
    }
}

/// Build the normal matrix of a uniform scaling.
pub fn get_scaling_normal_matrix(inv_rate: i64) -> (r: crate::vec::Mat3)
    ensures
        r@ == scaling_nm(inv_rate as int),
{
    crate::vec::Mat3 {
        r0: Vec3 { x: inv_rate, y: 0, z: 0 },
        r1: Vec3 { x: 0, y: inv_rate, z: 0 },
        r2: Vec3 { x: 0, y: 0, z: inv_rate },
    }
}

/// The identity normal matrix (for transforms that leave normals unchanged).
pub open spec fn identity_nm() -> crate::vec::M3 {
    crate::vec::M3 {
        r0: V3 { x: FX_ONE as int, y: 0, z: 0 },
        r1: V3 { x: 0, y: FX_ONE as int, z: 0 },
        r2: V3 { x: 0, y: 0, z: FX_ONE as int },
    }
}

/// The view matrix looking from `eye` along `dir`, with up taken as the
/// world y axis orthogonalized against the view direction: rows are the
/// right, up and backward directions, and the last column moves the eye to
/// the origin.
pub open spec fn view_mat(eye: V3, dir: V3) -> M4 {
    let d = norm3(dir);
    let yv = V3 { x: 0, y: FX_ONE as int, z: 0 };
    let sky = norm3(sub3(yv, scale3(dot3(yv, d), d)));
    let xd = norm3(cross3(d, sky));
    let ne = neg3(eye);
    M4 {
        r0: V4 { x: xd.x, y: xd.y, z: xd.z, w: dot3(xd, ne) },
        r1: V4 { x: sky.x, y: sky.y, z: sky.z, w: dot3(sky, ne) },
        r2: V4 { x: fneg(d.x), y: fneg(d.y), z: fneg(d.z), w: dot3(neg3(d), ne) },
        r3: V4 { x: 0, y: 0, z: 0, w: FX_ONE as int },
    }
}

/// Build the view matrix from the eye position and the view direction.
pub fn get_view_matrix(eye_pos: &Vec3, view_dir: &Vec3) -> (r: Mat4)
    ensures
        r@ == view_mat(eye_pos@, view_dir@),
{
    let d = view_dir.normalize();
    let yv = Vec3 { x: 0, y: FX_ONE, z: 0 };
    let sky = yv.sub(&d.scale(yv.dot(&d))).normalize();
    let xd = d.cross(&sky).normalize();
    let ne = eye_pos.neg();
    Mat4 {
        r0: Vec4 { x: xd.x, y: xd.y, z: xd.z, w: xd.dot(&ne) },
        r1: Vec4 { x: sky.x, y: sky.y, z: sky.z, w: sky.dot(&ne) },
        r2: Vec4 { x: fx_neg(d.x), y: fx_neg(d.y), z: fx_neg(d.z), w: d.neg().dot(&ne) },
        r3: Vec4 { x: 0, y: 0, z: 0, w: FX_ONE },
    }
}

/// The perspective projection: `tan_half_fov` is the tangent of half the
/// vertical field of view; `z_near` and `z_far` are negative view depths.
/// The x and y rows are negated because the later divide by the (negative)
/// w flips them back.
pub open spec fn projection_mat(tan_half_fov: int, aspect_ratio: int, z_near: int, z_far: int)
    -> M4
    recommends
        tan_half_fov != 0,
        aspect_ratio != 0,
        z_near != z_far,
{
    let td = fdiv(FX_ONE as int, tan_half_fov);
    let dz = fsub(z_near, z_far);
    M4 {
        r0: V4 { x: fdiv(fneg(td), aspect_ratio), y: 0, z: 0, w: 0 },
        r1: V4 { x: 0, y: fneg(td), z: 0, w: 0 },
        r2: V4 {
            x: 0,
            y: 0,
            z: fdiv(fadd(z_near, z_far), dz),
            w: fneg(fdiv(fmul(2 * FX_ONE as int, fmul(z_near, z_far)), dz)),
        },
        r3: V4 { x: 0, y: 0, z: FX_ONE as int, w: 0 },
    }
}

/// Build the perspective projection matrix.
pub fn get_projection_matrix(tan_half_fov: i64, aspect_ratio: i64, z_near: i64, z_far: i64)
    -> (r: Mat4)
    requires
        tan_half_fov != 0,
        aspect_ratio != 0,
        z_near != z_far,
    ensures
        r@ == projection_mat(tan_half_fov as int, aspect_ratio as int, z_near as int,
            z_far as int,
        ),
{
    let td = fx_div(FX_ONE, tan_half_fov);
    let dz = fx_sub(z_near, z_far);
    Mat4 {
        r0: Vec4 { x: fx_div(fx_neg(td), aspect_ratio), y: 0, z: 0, w: 0 },
        r1: Vec4 { x: 0, y: fx_neg(td), z: 0, w: 0 },
        r2: Vec4 {
            x: 0,
            y: 0,
            z: fx_div(fx_add(z_near, z_far), dz),
            w: fx_neg(fx_div(fx_mul(2 * FX_ONE, fx_mul(z_near, z_far)), dz)),
        },
        r3: Vec4 { x: 0, y: 0, z: FX_ONE, w: 0 },
    }
}

/// The orthographic projection used by directional lights: x and y scale by
/// the half extents, z maps [z_far, z_near] to [-1, 1], and w is the constant
/// -1 so the frustum tests and the screen mapping work as in the perspective
/// path.
pub open spec fn orthographic_mat(scale_x: int, scale_y: int, z_near: int, z_far: int) -> M4
    recommends
        scale_x != 0,
        scale_y != 0,
        z_near != z_far,
{
    let dz = fsub(z_near, z_far);
    M4 {
        r0: V4 { x: fneg(fdiv(FX_ONE as int, scale_x)), y: 0, z: 0, w: 0 },
        r1: V4 { x: 0, y: fneg(fdiv(FX_ONE as int, scale_y)), z: 0, w: 0 },
        r2: V4 {
            x: 0,
            y: 0,
            z: fdiv(2 * FX_ONE as int, dz),
            w: fneg(fdiv(fadd(z_near, z_far), dz)),
        },
        r3: V4 { x: 0, y: 0, z: 0, w: fneg(FX_ONE as int) },
    }
}

/// Build the orthographic projection matrix.
pub fn get_orthographic_matrix(scale_x: i64, scale_y: i64, z_near: i64, z_far: i64) -> (r: Mat4)
    requires
        scale_x != 0,
        scale_y != 0,
        z_near != z_far,
    ensures
        r@ == orthographic_mat(scale_x as int, scale_y as int, z_near as int, z_far as int),
{
    let dz = fx_sub(z_near, z_far);
    Mat4 {
        r0: Vec4 { x: fx_neg(fx_div(FX_ONE, scale_x)), y: 0, z: 0, w: 0 },
        r1: Vec4 { x: 0, y: fx_neg(fx_div(FX_ONE, scale_y)), z: 0, w: 0 },
        r2: Vec4 {
            x: 0,
            y: 0,
            z: fx_div(2 * FX_ONE, dz),
            w: fx_neg(fx_div(fx_add(z_near, z_far), dz)),
        },
        r3: Vec4 { x: 0, y: 0, z: 0, w: fx_neg(FX_ONE) },
    }
}

} // verus!
