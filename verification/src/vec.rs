//! Fixed-point vectors and matrices.
//!
//! The executable types (`Vec2`, `Vec3`, `Vec4`, `Mat3`, `Mat4`) hold
//! fixed-point `i64` components. Each executable operation is specified
//! against a ghost mirror (`V2`, `V3`, `V4`, `M3`, `M4`) whose components are
//! mathematical integers, so contracts compose without repeating component
//! formulas.

use vstd::prelude::*;

use crate::fx::{fadd, fdiv, fmul, fneg, fsqrt, fsub, fx_add, fx_div, fx_mul, fx_neg, fx_sqrt,
    fx_sub, lemma_fmul_self_nonneg, FX_ONE};

verus! {

/// A fixed-point 2-vector.
#[derive(Clone, Copy, Debug, PartialEq, Eq, Structural)]
pub struct Vec2 {
    pub x: i64,
    pub y: i64,
}

/// A fixed-point 3-vector.
#[derive(Clone, Copy, Debug, PartialEq, Eq, Structural)]
pub struct Vec3 {
    pub x: i64,
    pub y: i64,
    pub z: i64,
}

/// A fixed-point 4-vector (homogeneous coordinates).
#[derive(Clone, Copy, Debug, PartialEq, Eq, Structural)]
pub struct Vec4 {
    pub x: i64,
    pub y: i64,
    pub z: i64,
    pub w: i64,
}

/// A fixed-point 3x3 matrix, stored by rows.
#[derive(Clone, Copy, Debug, PartialEq, Eq, Structural)]
pub struct Mat3 {
    pub r0: Vec3,
    pub r1: Vec3,
    pub r2: Vec3,
}

/// A fixed-point 4x4 matrix, stored by rows.
#[derive(Clone, Copy, Debug, PartialEq, Eq, Structural)]
pub struct Mat4 {
    pub r0: Vec4,
    pub r1: Vec4,
    pub r2: Vec4,
    pub r3: Vec4,
}

/// Ghost mirror of `Vec2`.
pub ghost struct V2 {
    pub x: int,
    pub y: int,
}

/// Ghost mirror of `Vec3`.
pub ghost struct V3 {
    pub x: int,
    pub y: int,
    pub z: int,
}

/// Ghost mirror of `Vec4`.
pub ghost struct V4 {
    pub x: int,
    pub y: int,
    pub z: int,
    pub w: int,
}

/// Ghost mirror of `Mat3`.
pub ghost struct M3 {
    pub r0: V3,
    pub r1: V3,
    pub r2: V3,
}

/// Ghost mirror of `Mat4`.
pub ghost struct M4 {
    pub r0: V4,
    pub r1: V4,
    pub r2: V4,
    pub r3: V4,
}

impl View for Vec2 {
    type V = V2;

    open spec fn view(&self) -> V2 {
        V2 { x: self.x as int, y: self.y as int }
    }
}

impl View for Vec3 {
    type V = V3;

    open spec fn view(&self) -> V3 {
        V3 { x: self.x as int, y: self.y as int, z: self.z as int }
    }
}

impl View for Vec4 {
    type V = V4;

    open spec fn view(&self) -> V4 {
        V4 { x: self.x as int, y: self.y as int, z: self.z as int, w: self.w as int }
    }
}

impl View for Mat3 {
    type V = M3;

    open spec fn view(&self) -> M3 {
        M3 { r0: self.r0@, r1: self.r1@, r2: self.r2@ }
    }
}

impl View for Mat4 {
    type V = M4;

    open spec fn view(&self) -> M4 {
        M4 { r0: self.r0@, r1: self.r1@, r2: self.r2@, r3: self.r3@ }
    }
}

/// Componentwise sum of 2-vectors.
pub open spec fn add2(a: V2, b: V2) -> V2 {
    V2 { x: fadd(a.x, b.x), y: fadd(a.y, b.y) }
}

/// Componentwise difference of 2-vectors.
pub open spec fn sub2(a: V2, b: V2) -> V2 {
    V2 { x: fsub(a.x, b.x), y: fsub(a.y, b.y) }
}

/// A 2-vector scaled by a fixed-point factor.
pub open spec fn scale2(s: int, a: V2) -> V2 {
    V2 { x: fmul(s, a.x), y: fmul(s, a.y) }
}

/// Componentwise sum of 3-vectors.
pub open spec fn add3(a: V3, b: V3) -> V3 {
    V3 { x: fadd(a.x, b.x), y: fadd(a.y, b.y), z: fadd(a.z, b.z) }
}

/// Componentwise difference of 3-vectors.
pub open spec fn sub3(a: V3, b: V3) -> V3 {
    V3 { x: fsub(a.x, b.x), y: fsub(a.y, b.y), z: fsub(a.z, b.z) }
}

/// Componentwise negation of a 3-vector.
pub open spec fn neg3(a: V3) -> V3 {
    V3 { x: fneg(a.x), y: fneg(a.y), z: fneg(a.z) }
}

/// A 3-vector scaled by a fixed-point factor.
pub open spec fn scale3(s: int, a: V3) -> V3 {
    V3 { x: fmul(s, a.x), y: fmul(s, a.y), z: fmul(s, a.z) }
}

/// Componentwise product of 3-vectors.
pub open spec fn cmul3(a: V3, b: V3) -> V3 {
    V3 { x: fmul(a.x, b.x), y: fmul(a.y, b.y), z: fmul(a.z, b.z) }
}

/// A 3-vector divided componentwise by a fixed-point scalar.
pub open spec fn div_scalar3(a: V3, s: int) -> V3
    recommends
        s != 0,
{
    V3 { x: fdiv(a.x, s), y: fdiv(a.y, s), z: fdiv(a.z, s) }
}

/// Fixed-point dot product of 3-vectors.
pub open spec fn dot3(a: V3, b: V3) -> int {
    fadd(fadd(fmul(a.x, b.x), fmul(a.y, b.y)), fmul(a.z, b.z))
}

/// Fixed-point cross product of 3-vectors.
pub open spec fn cross3(a: V3, b: V3) -> V3 {
    V3 {
        x: fsub(fmul(a.y, b.z), fmul(a.z, b.y)),
        y: fsub(fmul(a.z, b.x), fmul(a.x, b.z)),
        z: fsub(fmul(a.x, b.y), fmul(a.y, b.x)),
    }
}

/// The fixed-point length of a 3-vector.
pub open spec fn len3(a: V3) -> int {
    fsqrt(dot3(a, a))
}

/// A 3-vector scaled to unit length; the zero vector if its length is zero.
pub open spec fn norm3(a: V3) -> V3 {
    let l = len3(a);
    if l == 0 {
        V3 { x: 0, y: 0, z: 0 }
    } else {
        V3 { x: fdiv(a.x, l), y: fdiv(a.y, l), z: fdiv(a.z, l) }
    }
}

/// Componentwise sum of 4-vectors.
pub open spec fn add4(a: V4, b: V4) -> V4 {
    V4 { x: fadd(a.x, b.x), y: fadd(a.y, b.y), z: fadd(a.z, b.z), w: fadd(a.w, b.w) }
}

/// A 4-vector scaled by a fixed-point factor.
pub open spec fn scale4(s: int, a: V4) -> V4 {
    V4 { x: fmul(s, a.x), y: fmul(s, a.y), z: fmul(s, a.z), w: fmul(s, a.w) }
}

/// Fixed-point dot product of 4-vectors.
pub open spec fn dot4(a: V4, b: V4) -> int {
    fadd(fadd(fadd(fmul(a.x, b.x), fmul(a.y, b.y)), fmul(a.z, b.z)), fmul(a.w, b.w))
}

/// A point lifted to homogeneous coordinates with w = 1.
pub open spec fn homog(a: V3) -> V4 {
    V4 { x: a.x, y: a.y, z: a.z, w: FX_ONE as int }
}

/// A homogeneous vector's spatial part.
pub open spec fn xyz(a: V4) -> V3 {
    V3 { x: a.x, y: a.y, z: a.z }
}

/// A homogeneous vector's screen-plane part.
pub open spec fn xy(a: V4) -> V2 {
    V2 { x: a.x, y: a.y }
}

/// A 4x4 matrix applied to a 4-vector.
pub open spec fn mul4v(m: M4, v: V4) -> V4 {
    V4 { x: dot4(m.r0, v), y: dot4(m.r1, v), z: dot4(m.r2, v), w: dot4(m.r3, v) }
}

/// A 3x3 matrix applied to a 3-vector.
pub open spec fn mul3v(m: M3, v: V3) -> V3 {
    V3 { x: dot3(m.r0, v), y: dot3(m.r1, v), z: dot3(m.r2, v) }
}

/// A column of a 4x4 matrix.
pub open spec fn col4(m: M4, j: int) -> V4
    recommends
        0 <= j < 4,
{
    if j == 0 {
        V4 { x: m.r0.x, y: m.r1.x, z: m.r2.x, w: m.r3.x }
    } else if j == 1 {
        V4 { x: m.r0.y, y: m.r1.y, z: m.r2.y, w: m.r3.y }
    } else if j == 2 {
        V4 { x: m.r0.z, y: m.r1.z, z: m.r2.z, w: m.r3.z }
    } else {
        V4 { x: m.r0.w, y: m.r1.w, z: m.r2.w, w: m.r3.w }
    }
}

/// The product of two 4x4 matrices.
pub open spec fn mul4m(a: M4, b: M4) -> M4 {
    M4 {
        r0: V4 {
            x: dot4(a.r0, col4(b, 0)),
            y: dot4(a.r0, col4(b, 1)),
            z: dot4(a.r0, col4(b, 2)),
            w: dot4(a.r0, col4(b, 3)),
        },
        r1: V4 {
            x: dot4(a.r1, col4(b, 0)),
            y: dot4(a.r1, col4(b, 1)),
            z: dot4(a.r1, col4(b, 2)),
            w: dot4(a.r1, col4(b, 3)),
        },
        r2: V4 {
            x: dot4(a.r2, col4(b, 0)),
            y: dot4(a.r2, col4(b, 1)),
            z: dot4(a.r2, col4(b, 2)),
            w: dot4(a.r2, col4(b, 3)),
        },
        r3: V4 {
            x: dot4(a.r3, col4(b, 0)),
            y: dot4(a.r3, col4(b, 1)),
            z: dot4(a.r3, col4(b, 2)),
            w: dot4(a.r3, col4(b, 3)),
        },
    }
}

/// The ghost identity matrix.
pub open spec fn ident4() -> M4 {
    M4 {
        r0: V4 { x: FX_ONE as int, y: 0, z: 0, w: 0 },
        r1: V4 { x: 0, y: FX_ONE as int, z: 0, w: 0 },
        r2: V4 { x: 0, y: 0, z: FX_ONE as int, w: 0 },
        r3: V4 { x: 0, y: 0, z: 0, w: FX_ONE as int },
    }
}

impl Vec2 {
    /// Build a 2-vector from its components.
    pub fn new(x: i64, y: i64) -> (r: Vec2)
        ensures
            r@ == (V2 { x: x as int, y: y as int }),
    {
        Vec2 { x, y }
    }

    /// Componentwise sum.
    pub fn add(&self, o: &Vec2) -> (r: Vec2)
        ensures
            r@ == add2(self@, o@),
    {
        Vec2 { x: fx_add(self.x, o.x), y: fx_add(self.y, o.y) }
    }

    /// Componentwise difference.
    pub fn sub(&self, o: &Vec2) -> (r: Vec2)
        ensures
            r@ == sub2(self@, o@),
    {
        Vec2 { x: fx_sub(self.x, o.x), y: fx_sub(self.y, o.y) }
    }

    /// This vector scaled by a fixed-point factor.
    pub fn scale(&self, s: i64) -> (r: Vec2)
        ensures
            r@ == scale2(s as int, self@),
    {
        Vec2 { x: fx_mul(s, self.x), y: fx_mul(s, self.y) }
    }
}

impl Vec3 {
    /// Build a 3-vector from its components.
    pub fn new(x: i64, y: i64, z: i64) -> (r: Vec3)
        ensures
            r@ == (V3 { x: x as int, y: y as int, z: z as int }),
    {
        Vec3 { x, y, z }
    }

    /// The zero vector.
    pub fn zero() -> (r: Vec3)
        ensures
            r@ == (V3 { x: 0, y: 0, z: 0 }),
    {
        Vec3 { x: 0, y: 0, z: 0 }
    }

    /// Componentwise sum.
    pub fn add(&self, o: &Vec3) -> (r: Vec3)
        ensures
            r@ == add3(self@, o@),
    {
        Vec3 { x: fx_add(self.x, o.x), y: fx_add(self.y, o.y), z: fx_add(self.z, o.z) }
    }

    /// Componentwise difference.
    pub fn sub(&self, o: &Vec3) -> (r: Vec3)
        ensures
            r@ == sub3(self@, o@),
    {
        Vec3 { x: fx_sub(self.x, o.x), y: fx_sub(self.y, o.y), z: fx_sub(self.z, o.z) }
    }

    /// Componentwise negation.
    pub fn neg(&self) -> (r: Vec3)
        ensures
            r@ == neg3(self@),
    {
        Vec3 { x: fx_neg(self.x), y: fx_neg(self.y), z: fx_neg(self.z) }
    }

    /// This vector scaled by a fixed-point factor.
    pub fn scale(&self, s: i64) -> (r: Vec3)
        ensures
            r@ == scale3(s as int, self@),
    {
        Vec3 { x: fx_mul(s, self.x), y: fx_mul(s, self.y), z: fx_mul(s, self.z) }
    }

    /// Componentwise product.
    pub fn cmul(&self, o: &Vec3) -> (r: Vec3)
        ensures
            r@ == cmul3(self@, o@),
    {
        Vec3 { x: fx_mul(self.x, o.x), y: fx_mul(self.y, o.y), z: fx_mul(self.z, o.z) }
    }

    /// Componentwise division by a scalar.
    pub fn div_scalar(&self, s: i64) -> (r: Vec3)
        requires
            s != 0,
        ensures
            r@ == div_scalar3(self@, s as int),
    {
        Vec3 { x: fx_div(self.x, s), y: fx_div(self.y, s), z: fx_div(self.z, s) }
    }

    /// Fixed-point dot product.
    pub fn dot(&self, o: &Vec3) -> (r: i64)
        ensures
            r as int == dot3(self@, o@),
    {
        fx_add(fx_add(fx_mul(self.x, o.x), fx_mul(self.y, o.y)), fx_mul(self.z, o.z))
    }

    /// Fixed-point cross product.
    pub fn cross(&self, o: &Vec3) -> (r: Vec3)
        ensures
            r@ == cross3(self@, o@),
    {
        Vec3 {
            x: fx_sub(fx_mul(self.y, o.z), fx_mul(self.z, o.y)),
            y: fx_sub(fx_mul(self.z, o.x), fx_mul(self.x, o.z)),
            z: fx_sub(fx_mul(self.x, o.y), fx_mul(self.y, o.x)),
        }
    }

    /// This vector scaled to unit length; the zero vector if its length is
    /// zero (degenerate input is tolerated, not an error).
    pub fn normalize(&self) -> (r: Vec3)
        ensures
            r@ == norm3(self@),
    {
        proof {
            lemma_fmul_self_nonneg(self.x as int);
            lemma_fmul_self_nonneg(self.y as int);
            lemma_fmul_self_nonneg(self.z as int);
        }
        let d = self.dot(self);
        let l = fx_sqrt(d);
        if l == 0 {
            Vec3 { x: 0, y: 0, z: 0 }
        } else {
            Vec3 { x: fx_div(self.x, l), y: fx_div(self.y, l), z: fx_div(self.z, l) }
        }
    }
}

impl Vec4 {
    /// Build a 4-vector from its components.
    pub fn new(x: i64, y: i64, z: i64, w: i64) -> (r: Vec4)
        ensures
            r@ == (V4 { x: x as int, y: y as int, z: z as int, w: w as int }),
    {
        Vec4 { x, y, z, w }
    }

    /// Componentwise sum.
    pub fn add(&self, o: &Vec4) -> (r: Vec4)
        ensures
            r@ == add4(self@, o@),
    {
        Vec4 {
            x: fx_add(self.x, o.x),
            y: fx_add(self.y, o.y),
            z: fx_add(self.z, o.z),
            w: fx_add(self.w, o.w),
        }
    }

    /// This vector scaled by a fixed-point factor.
    pub fn scale(&self, s: i64) -> (r: Vec4)
        ensures
            r@ == scale4(s as int, self@),
    {
        Vec4 {
            x: fx_mul(s, self.x),
            y: fx_mul(s, self.y),
            z: fx_mul(s, self.z),
            w: fx_mul(s, self.w),
        }
    }

    /// The spatial part.
    pub fn xyz(&self) -> (r: Vec3)
        ensures
            r@ == xyz(self@),
    {
        Vec3 { x: self.x, y: self.y, z: self.z }
    }

    /// The screen-plane part.
    pub fn xy(&self) -> (r: Vec2)
        ensures
            r@ == xy(self@),
    {
        Vec2 { x: self.x, y: self.y }
    }
}

/// A point lifted to homogeneous coordinates with w = 1.
pub fn homogeneous(v: &Vec3) -> (r: Vec4)
    ensures
        r@ == homog(v@),
{
    Vec4 { x: v.x, y: v.y, z: v.z, w: FX_ONE }
}

impl Mat3 {
    /// Build a matrix whose columns are the given vectors.
    pub fn from_cols(c0: &Vec3, c1: &Vec3, c2: &Vec3) -> (r: Mat3)
        ensures
            r@ == (M3 {
                r0: V3 { x: c0.x as int, y: c1.x as int, z: c2.x as int },
                r1: V3 { x: c0.y as int, y: c1.y as int, z: c2.y as int },
                r2: V3 { x: c0.z as int, y: c1.z as int, z: c2.z as int },
            }),
    {
        Mat3 {
            r0: Vec3 { x: c0.x, y: c1.x, z: c2.x },
            r1: Vec3 { x: c0.y, y: c1.y, z: c2.y },
            r2: Vec3 { x: c0.z, y: c1.z, z: c2.z },
        }
    }

    /// The identity matrix.
    pub fn identity() -> (r: Mat3)
        ensures
            r@ == (M3 {
                r0: V3 { x: FX_ONE as int, y: 0, z: 0 },
                r1: V3 { x: 0, y: FX_ONE as int, z: 0 },
                r2: V3 { x: 0, y: 0, z: FX_ONE as int },
            }),
    {
        Mat3 {
            r0: Vec3 { x: FX_ONE, y: 0, z: 0 },
            r1: Vec3 { x: 0, y: FX_ONE, z: 0 },
            r2: Vec3 { x: 0, y: 0, z: FX_ONE },
        }
    }

    /// This matrix applied to a 3-vector.
    pub fn mul_vec(&self, v: &Vec3) -> (r: Vec3)
        ensures
            r@ == mul3v(self@, v@),
    {
        Vec3 { x: self.r0.dot(v), y: self.r1.dot(v), z: self.r2.dot(v) }
    }
}

impl Mat4 {
    /// The identity matrix.
    pub fn identity() -> (r: Mat4)
        ensures
            r@ == ident4(),
    {
        Mat4 {
            r0: Vec4 { x: FX_ONE, y: 0, z: 0, w: 0 },
            r1: Vec4 { x: 0, y: FX_ONE, z: 0, w: 0 },
            r2: Vec4 { x: 0, y: 0, z: FX_ONE, w: 0 },
            r3: Vec4 { x: 0, y: 0, z: 0, w: FX_ONE },
        }
    }

    /// This matrix applied to a 4-vector.
    pub fn mul_vec(&self, v: &Vec4) -> (r: Vec4)
        ensures
            r@ == mul4v(self@, v@),
    {
        Vec4 {
            x: self.row_dot(&self.r0, v),
            y: self.row_dot(&self.r1, v),
            z: self.row_dot(&self.r2, v),
            w: self.row_dot(&self.r3, v),
        }
    }

    fn row_dot(&self, a: &Vec4, b: &Vec4) -> (r: i64)
        ensures
            r as int == dot4(a@, b@),
    {
        fx_add(
            fx_add(fx_add(fx_mul(a.x, b.x), fx_mul(a.y, b.y)), fx_mul(a.z, b.z)),
            fx_mul(a.w, b.w),
        )
    }

    /// The product of this matrix with another.
    pub fn mul_mat(&self, o: &Mat4) -> (r: Mat4)
        ensures
            r@ == mul4m(self@, o@),
    {
        let c0 = Vec4 { x: o.r0.x, y: o.r1.x, z: o.r2.x, w: o.r3.x };
        let c1 = Vec4 { x: o.r0.y, y: o.r1.y, z: o.r2.y, w: o.r3.y };
        let c2 = Vec4 { x: o.r0.z, y: o.r1.z, z: o.r2.z, w: o.r3.z };
        let c3 = Vec4 { x: o.r0.w, y: o.r1.w, z: o.r2.w, w: o.r3.w };
        Mat4 {
            r0: Vec4 {
                x: self.row_dot(&self.r0, &c0),
                y: self.row_dot(&self.r0, &c1),
                z: self.row_dot(&self.r0, &c2),
                w: self.row_dot(&self.r0, &c3),
            },
            r1: Vec4 {
                x: self.row_dot(&self.r1, &c0),
                y: self.row_dot(&self.r1, &c1),
                z: self.row_dot(&self.r1, &c2),
                w: self.row_dot(&self.r1, &c3),
            },
            r2: Vec4 {
                x: self.row_dot(&self.r2, &c0),
                y: self.row_dot(&self.r2, &c1),
                z: self.row_dot(&self.r2, &c2),
                w: self.row_dot(&self.r2, &c3),
            },
            r3: Vec4 {
                x: self.row_dot(&self.r3, &c0),
                y: self.row_dot(&self.r3, &c1),
                z: self.row_dot(&self.r3, &c2),
                w: self.row_dot(&self.r3, &c3),
            },
        }
    }
}

} // verus!
