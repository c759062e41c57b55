//! Perspective-correct scan conversion of screen-bound triangles into the
//! per-pixel buffers.
//!
//! For every pixel center inside the triangle's clamped bounding box, 2D
//! barycentric weights decide coverage (with a small negative tolerance so
//! shared edges tie-break consistently); the weights are divided by each
//! vertex's clip-space w and renormalized for perspective correctness; the
//! interpolated NDC depth (remapped to [0, 1], smaller is nearer) drives a
//! nearest-wins depth test. Numerical edge cases (zero barycentric
//! denominator, zero w) reject the fragment, as degenerate geometry is
//! tolerated, never an error.

use vstd::prelude::*;

use crate::fx::{fadd, fclamp, fdiv, fmul, fneg, fsub, fx_add, fx_clamp, fx_div, fx_from_int,
    fx_mul, fx_neg, fx_sub, fx_trunc, fx_floor_to_int, fx_min, fx_max, sat64, FX_EPS, FX_HALF,
    FX_ONE};
use crate::geom::TriangleRasterization;
use crate::geom::TriangleRG;
use crate::texture::{texture_rgb, texture_wf, Texture, TextureG};
use crate::vec::{add3, cross3, dot3, mul3v, neg3, norm3, scale3, sub2, sub3, xy, Vec2, Vec3,
    M3, V2, V3};

verus! {

/// The default specular color written when no specular texture is bound (0.8).
pub const DEFAULT_SPECULAR: i64 = 52428;

/// The depth buffer's "empty" sentinel: farther than every fragment.
pub const Z_EMPTY: i64 = 0x7FFFFFFFFFFFFFFF;

/// The background grey the frame buffer is cleared to (0.7 per channel).
pub const BG_GREY: i64 = 45875;

/// The smaller of two integers.
pub open spec fn imin(a: int, b: int) -> int {
    if a <= b {
        a
    } else {
        b
    }
}

/// The larger of two integers.
pub open spec fn imax(a: int, b: int) -> int {
    if a >= b {
        a
    } else {
        b
    }
}

/// The center of pixel (x, y) in fixed-point screen coordinates.
pub open spec fn pixel_center(x: int, y: int) -> V2 {
    V2 { x: fadd(sat64(x * FX_ONE as int), FX_HALF as int), y: fadd(
        sat64(y * FX_ONE as int),
        FX_HALF as int,
    ) }
}

/// Twice the signed area of the screen triangle (the barycentric
/// denominator).
pub open spec fn bary_denom_s(v0: V2, v1: V2, v2: V2) -> int {
    let ab = sub2(v1, v0);
    let bc = sub2(v2, v1);
    fsub(fmul(ab.x, bc.y), fmul(bc.x, ab.y))
}

/// The first barycentric weight of point p.
pub open spec fn bary_alpha_s(v0: V2, v1: V2, v2: V2, p: V2) -> int
    recommends
        bary_denom_s(v0, v1, v2) != 0,
{
    let bc = sub2(v2, v1);
    let pb = sub2(v1, p);
    fdiv(fsub(fmul(pb.x, bc.y), fmul(bc.x, pb.y)), bary_denom_s(v0, v1, v2))
}

/// The third barycentric weight of point p.
pub open spec fn bary_gamma_s(v0: V2, v1: V2, v2: V2, p: V2) -> int
    recommends
        bary_denom_s(v0, v1, v2) != 0,
{
    let ab = sub2(v1, v0);
    let pa = sub2(v0, p);
    fdiv(fsub(fmul(pa.x, ab.y), fmul(ab.x, pa.y)), bary_denom_s(v0, v1, v2))
}

/// The second barycentric weight: the three weights sum to one.
pub open spec fn bary_beta_s(v0: V2, v1: V2, v2: V2, p: V2) -> int
    recommends
        bary_denom_s(v0, v1, v2) != 0,
{
    fsub(fsub(FX_ONE as int, bary_alpha_s(v0, v1, v2, p)), bary_gamma_s(v0, v1, v2, p))
}

/// Coverage: all three weights above the small negative tolerance that keeps
/// shared edges seam-free.
pub open spec fn inside_triangle(alpha: int, beta: int, gamma: int) -> bool {
    alpha > -(FX_EPS as int) && beta > -(FX_EPS as int) && gamma > -(FX_EPS as int)
}

/// Compute 2D barycentric coordinates of p in the screen triangle (v0,v1,v2).
pub fn cal_bary_coord_2d(v0: Vec2, v1: Vec2, v2: Vec2, p: Vec2) -> (r: (i64, i64, i64))
    requires
        bary_denom_s(v0@, v1@, v2@) != 0,
    ensures
        r.0 as int == bary_alpha_s(v0@, v1@, v2@, p@),
        r.1 as int == bary_beta_s(v0@, v1@, v2@, p@),
        r.2 as int == bary_gamma_s(v0@, v1@, v2@, p@),
{
    let ab = v1.sub(&v0);
    let bc = v2.sub(&v1);
    let pa = v0.sub(&p);
    let pb = v1.sub(&p);
    let sabc = fx_sub(fx_mul(ab.x, bc.y), fx_mul(bc.x, ab.y));
    let spbc = fx_sub(fx_mul(pb.x, bc.y), fx_mul(bc.x, pb.y));
    let spab = fx_sub(fx_mul(pa.x, ab.y), fx_mul(ab.x, pa.y));
    let alpha = fx_div(spbc, sabc);
    let gamma = fx_div(spab, sabc);
    let beta = fx_sub(fx_sub(FX_ONE, alpha), gamma);
    (alpha, beta, gamma)
}

/// Whether three barycentric weights mean the pixel is covered.
pub fn is_inside_triangle(alpha: i64, beta: i64, gamma: i64) -> (r: bool)
    ensures
        r == inside_triangle(alpha as int, beta as int, gamma as int),
{
    alpha > -FX_EPS && beta > -FX_EPS && gamma > -FX_EPS
}

/// The perspective-corrected barycentric weights: each weight divided by its
/// vertex's clip-space w (negated) and renormalized so the three sum to one.
/// A zero w or a zero weight sum is degenerate and yields nothing.
pub open spec fn persp_correct(a: int, b: int, g: int, w0: int, w1: int, w2: int) -> Option<
    (int, int, int),
> {
    if w0 == 0 || w1 == 0 || w2 == 0 {
        None
    } else {
        let a1 = fdiv(a, fneg(w0));
        let b1 = fdiv(b, fneg(w1));
        let g1 = fdiv(g, fneg(w2));
        let s = fadd(fadd(a1, b1), g1);
        if s == 0 {
            None
        } else {
            let wi = fdiv(FX_ONE as int, s);
            Some((fmul(a1, wi), fmul(b1, wi), fmul(g1, wi)))
        }
    }
}

/// A scalar interpolated with three weights.
pub open spec fn interp1(a: int, b: int, g: int, x0: int, x1: int, x2: int) -> int {
    fadd(fadd(fmul(a, x0), fmul(b, x1)), fmul(g, x2))
}

/// A 2-vector interpolated with three weights.
pub open spec fn interp2(a: int, b: int, g: int, x0: V2, x1: V2, x2: V2) -> V2 {
    crate::vec::add2(
        crate::vec::add2(crate::vec::scale2(a, x0), crate::vec::scale2(b, x1)),
        crate::vec::scale2(g, x2),
    )
}

/// A 3-vector interpolated with three weights.
pub open spec fn interp3(a: int, b: int, g: int, x0: V3, x1: V3, x2: V3) -> V3 {
    add3(add3(scale3(a, x0), scale3(b, x1)), scale3(g, x2))
}

/// The NDC depth remapped to [0, 1] (smaller is nearer); a zero interpolated
/// w is degenerate and yields nothing.
pub open spec fn ndc_depth(z: int, w: int) -> Option<int> {
    if w == 0 {
        None
    } else {
        Some(fmul(fadd(fdiv(z, fneg(w)), FX_ONE as int), FX_HALF as int))
    }
}

/// The per-triangle tangent and bitangent derived from the UV-space edge
/// deltas, used for normal mapping.
pub open spec fn tri_tangent(t: TriangleRG) -> (V3, V3) {
    let e1 = sub3(t.v1.pos, t.v0.pos);
    let e2 = sub3(t.v2.pos, t.v1.pos);
    let uv1 = sub2(t.v1.texture_coords, t.v0.texture_coords);
    let uv2 = sub2(t.v2.texture_coords, t.v1.texture_coords);
    let det = fsub(fmul(uv1.x, uv2.y), fmul(uv2.x, uv1.y));
    let tan = norm3(sub3(scale3(uv2.y, e1), scale3(uv1.y, e2)));
    let bin = norm3(sub3(scale3(uv2.x, e1), scale3(uv1.x, e2)));
    if det > 0 {
        (tan, neg3(bin))
    } else {
        (neg3(tan), bin)
    }
}

/// The world-space normal obtained from a tangent-space normal map sample:
/// re-orthogonalize the triangle tangent against the interpolated normal,
/// derive the bitangent with the sign matching the precomputed one, and
/// transform the remapped sample by the tangent basis.
pub open spec fn tbn_normal(t: TriangleRG, tex: TextureG, n: V3, uv: V2) -> V3 {
    let tb = tri_tangent(t);
    let tan = tb.0;
    let bin = tb.1;
    let tsn = norm3(
        sub3(
            scale3(2 * FX_ONE as int, texture_rgb(tex, uv.x, uv.y)),
            V3 { x: FX_ONE as int, y: FX_ONE as int, z: FX_ONE as int },
        ),
    );
    let to = norm3(sub3(tan, scale3(dot3(tan, n), n)));
    let bo0 = norm3(cross3(n, to));
    let bo = if dot3(bo0, bin) < 0 {
        neg3(bo0)
    } else {
        bo0
    };
    let m = M3 {
        r0: V3 { x: to.x, y: bo.x, z: n.x },
        r1: V3 { x: to.y, y: bo.y, z: n.y },
        r2: V3 { x: to.z, y: bo.z, z: n.z },
    };
    mul3v(m, tsn)
}

/// Everything one covered pixel receives from a triangle.
pub ghost struct FragG {
    pub depth: int,
    pub pos: V3,
    pub normal: V3,
    pub diffuse: V3,
    pub specular: V3,
    pub glow: V3,
}

/// The ghost view of an optional borrowed texture.
pub open spec fn opt_tex(t: Option<&Texture>) -> Option<TextureG> {
    match t {
        Some(tex) => Some(tex@),
        None => None,
    }
}

/// The fragment a triangle produces at pixel (x, y), if any: coverage and the
/// degeneracy guards decide `Some`, and the value carries the
/// perspective-correct interpolated depth, position, (possibly normal-mapped)
/// normal, and the diffuse, specular and glow colors from the bound textures
/// or their defaults.
#[verifier::opaque]
pub open spec fn frag_at(
    t: TriangleRG,
    td: Option<TextureG>,
    ts: Option<TextureG>,
    tn: Option<TextureG>,
    tg: Option<TextureG>,
    x: int,
    y: int,
) -> Option<FragG> {
    let p = pixel_center(x, y);
    let s0 = xy(t.v0.transform_pos);
    let s1 = xy(t.v1.transform_pos);
    let s2 = xy(t.v2.transform_pos);
    if bary_denom_s(s0, s1, s2) == 0 {
        None
    } else {
        let a = bary_alpha_s(s0, s1, s2, p);
        let b = bary_beta_s(s0, s1, s2, p);
        let g = bary_gamma_s(s0, s1, s2, p);
        if !inside_triangle(a, b, g) {
            None
        } else {
            match persp_correct(
                a,
                b,
                g,
                t.v0.transform_pos.w,
                t.v1.transform_pos.w,
                t.v2.transform_pos.w,
            ) {
                None => None,
                Some(abg) => {
                    let aa = abg.0;
                    let bb = abg.1;
                    let gg = abg.2;
                    let ptz = interp1(
                        aa,
                        bb,
                        gg,
                        t.v0.transform_pos.z,
                        t.v1.transform_pos.z,
                        t.v2.transform_pos.z,
                    );
                    let ptw = interp1(
                        aa,
                        bb,
                        gg,
                        t.v0.transform_pos.w,
                        t.v1.transform_pos.w,
                        t.v2.transform_pos.w,
                    );
                    match ndc_depth(ptz, ptw) {
                        None => None,
                        Some(depth) => {
                            let pos = interp3(aa, bb, gg, t.v0.pos, t.v1.pos, t.v2.pos);
                            let ni = norm3(
                                interp3(aa, bb, gg, t.v0.normal, t.v1.normal, t.v2.normal),
                            );
                            let uv = interp2(
                                aa,
                                bb,
                                gg,
                                t.v0.texture_coords,
                                t.v1.texture_coords,
                                t.v2.texture_coords,
                            );
                            let normal = match tn {
                                Some(tex) => tbn_normal(t, tex, ni, uv),
                                None => ni,
                            };
                            let diffuse = match td {
                                Some(tex) => texture_rgb(tex, uv.x, uv.y),
                                None => interp3(aa, bb, gg, t.v0.color, t.v1.color, t.v2.color),
                            };
                            let specular = match ts {
                                Some(tex) => texture_rgb(tex, uv.x, uv.y),
                                None => V3 {
                                    x: DEFAULT_SPECULAR as int,
                                    y: DEFAULT_SPECULAR as int,
                                    z: DEFAULT_SPECULAR as int,
                                },
                            };
                            let glow = match tg {
                                Some(tex) => texture_rgb(tex, uv.x, uv.y),
                                None => V3 { x: 0, y: 0, z: 0 },
                            };
                            Some(FragG { depth, pos, normal: normal, diffuse, specular, glow })
                        },
                    }
                },
            }
        }
    }
}

/// Whether pixel (x, y) is inside the triangle's bounding box clamped to the
/// block: exactly the pixels the scan loops visit.
#[verifier::opaque]
pub open spec fn tested(t: TriangleRG, sr: int, sc: int, br: int, bc: int, x: int, y: int)
    -> bool {
    let tx0 = fx_floor_to_int(t.v0.transform_pos.x);
    let tx1 = fx_floor_to_int(t.v1.transform_pos.x);
    let tx2 = fx_floor_to_int(t.v2.transform_pos.x);
    let ty0 = fx_floor_to_int(t.v0.transform_pos.y);
    let ty1 = fx_floor_to_int(t.v1.transform_pos.y);
    let ty2 = fx_floor_to_int(t.v2.transform_pos.y);
    let bl = fclamp(imin(imin(imin(0x7FFFFFFFint, tx0), tx1), tx2), sc, sc + bc - 1);
    let brr = fclamp(imax(imax(imax(0, tx0), tx1), tx2), sc, sc + bc - 1);
    let bb = fclamp(imin(imin(imin(0x7FFFFFFFint, ty0), ty1), ty2), sr, sr + br - 1);
    let bt = fclamp(imax(imax(imax(0, ty0), ty1), ty2), sr, sr + br - 1);
    bl <= x <= brr && bb <= y <= bt
}

/// An executable fragment; its view is `FragG`.
pub struct Fragment {
    pub depth: i64,
    pub pos: Vec3,
    pub normal: Vec3,
    pub diffuse: Vec3,
    pub specular: Vec3,
    pub glow: Vec3,
}

impl View for Fragment {
    type V = FragG;

    open spec fn view(&self) -> FragG {
        FragG {
            depth: self.depth as int,
            pos: self.pos@,
            normal: self.normal@,
            diffuse: self.diffuse@,
            specular: self.specular@,
            glow: self.glow@,
        }
    }
}

/// The ghost view of an optional fragment.
pub open spec fn opt_frag(f: Option<Fragment>) -> Option<FragG> {
    match f {
        Some(fr) => Some(fr@),
        None => None,
    }
}

fn tangent_pair(t: &TriangleRasterization) -> (r: (Vec3, Vec3))
    ensures
        (r.0@, r.1@) == tri_tangent(t@),
{
    let e1 = t.v1.pos.sub(&t.v0.pos);
    let e2 = t.v2.pos.sub(&t.v1.pos);
    let uv1 = t.v1.texture_coords.sub(&t.v0.texture_coords);
    let uv2 = t.v2.texture_coords.sub(&t.v1.texture_coords);
    let det = fx_sub(fx_mul(uv1.x, uv2.y), fx_mul(uv2.x, uv1.y));
    let tan = e1.scale(uv2.y).sub(&e2.scale(uv1.y)).normalize();
    let bin = e1.scale(uv2.x).sub(&e2.scale(uv1.x)).normalize();
    if det > 0 {
        (tan, bin.neg())
    } else {
        (tan.neg(), bin)
    }
}

/// Compute the fragment a triangle produces at pixel (x, y), if any.
pub fn compute_fragment(
    t: &TriangleRasterization,
    td: Option<&Texture>,
    ts: Option<&Texture>,
    tn: Option<&Texture>,
    tg: Option<&Texture>,
    x: i64,
    y: i64,
) -> (r: Option<Fragment>)
    requires
        td is Some ==> texture_wf(td.unwrap()@) && td.unwrap()@.channels >= 3,
        ts is Some ==> texture_wf(ts.unwrap()@) && ts.unwrap()@.channels >= 3,
        tn is Some ==> texture_wf(tn.unwrap()@) && tn.unwrap()@.channels >= 3,
        tg is Some ==> texture_wf(tg.unwrap()@) && tg.unwrap()@.channels >= 3,
    ensures
        opt_frag(r) == frag_at(t@, opt_tex(td), opt_tex(ts), opt_tex(tn), opt_tex(tg), x as int,
            y as int,
        ),
{
    proof {
        reveal(frag_at);
    }
    let px = fx_add(fx_from_int(x), FX_HALF);
    let py = fx_add(fx_from_int(y), FX_HALF);
    let p = Vec2 { x: px, y: py };
    let s0 = t.v0.transform_pos.xy();
    let s1 = t.v1.transform_pos.xy();
    let s2 = t.v2.transform_pos.xy();
    let ab = s1.sub(&s0);
    let bc = s2.sub(&s1);
    let denom = fx_sub(fx_mul(ab.x, bc.y), fx_mul(bc.x, ab.y));
    if denom == 0 {
        return None;
    }
    let (alpha, beta, gamma) = cal_bary_coord_2d(s0, s1, s2, p);
    if !is_inside_triangle(alpha, beta, gamma) {
        return None;
    }
    let w0 = t.v0.transform_pos.w;
    let w1 = t.v1.transform_pos.w;
    let w2 = t.v2.transform_pos.w;
    if w0 == 0 || w1 == 0 || w2 == 0 {
        return None;
    }
    let a1 = fx_div(alpha, fx_neg(w0));
    let b1 = fx_div(beta, fx_neg(w1));
    let g1 = fx_div(gamma, fx_neg(w2));
    let s = fx_add(fx_add(a1, b1), g1);
    if s == 0 {
        return None;
    }
    let wi = fx_div(FX_ONE, s);
    let aa = fx_mul(a1, wi);
    let bb = fx_mul(b1, wi);
    let gg = fx_mul(g1, wi);
    let ptz = fx_add(
        fx_add(fx_mul(aa, t.v0.transform_pos.z), fx_mul(bb, t.v1.transform_pos.z)),
        fx_mul(gg, t.v2.transform_pos.z),
    );
    let ptw = fx_add(fx_add(fx_mul(aa, w0), fx_mul(bb, w1)), fx_mul(gg, w2));
    if ptw == 0 {
        return None;
    }
    let depth = fx_mul(fx_add(fx_div(ptz, fx_neg(ptw)), FX_ONE), FX_HALF);
    let pos = t.v0.pos.scale(aa).add(&t.v1.pos.scale(bb)).add(&t.v2.pos.scale(gg));
    proof {
        assert(pos@ == interp3(aa as int, bb as int, gg as int, t@.v0.pos, t@.v1.pos, t@.v2.pos));
    }
    let ni = t.v0.normal.scale(aa).add(&t.v1.normal.scale(bb)).add(
        &t.v2.normal.scale(gg),
    ).normalize();
    let uv = t.v0.texture_coords.scale(aa).add(&t.v1.texture_coords.scale(bb)).add(
        &t.v2.texture_coords.scale(gg),
    );
    let normal = match tn {
        Some(tex) => {
            let (tan, bin) = tangent_pair(t);
            let tsn = tex.get_rgb(uv.x, uv.y).scale(2 * FX_ONE).sub(
                &Vec3 { x: FX_ONE, y: FX_ONE, z: FX_ONE },
            ).normalize();
            proof {
                assert(tsn@ == norm3(sub3(scale3(2 * FX_ONE as int, texture_rgb(tex@, uv@.x,
                    uv@.y)), V3 { x: FX_ONE as int, y: FX_ONE as int, z: FX_ONE as int })));
            }
            let to = tan.sub(&ni.scale(tan.dot(&ni))).normalize();
            let bo0 = ni.cross(&to).normalize();
            let bo = if bo0.dot(&bin) < 0 {
                bo0.neg()
            } else {
                bo0
            };
            let m = crate::vec::Mat3::from_cols(&to, &bo, &ni);
            m.mul_vec(&tsn)
        },
        None => ni,
    };
    let diffuse = match td {
        Some(tex) => tex.get_rgb(uv.x, uv.y),
        None => t.v0.color.scale(aa).add(&t.v1.color.scale(bb)).add(&t.v2.color.scale(gg)),
    };
    let specular = match ts {
        Some(tex) => tex.get_rgb(uv.x, uv.y),
        None => Vec3 { x: DEFAULT_SPECULAR, y: DEFAULT_SPECULAR, z: DEFAULT_SPECULAR },
    };
    let glow = match tg {
        Some(tex) => tex.get_rgb(uv.x, uv.y),
        None => Vec3 { x: 0, y: 0, z: 0 },
    };
    Some(Fragment { depth, pos, normal, diffuse, specular, glow })
}

/// A vector of `n` copies of one depth value.
pub fn filled_i64(n: usize, v: i64) -> (r: Vec<i64>)
    ensures
        r@.len() == n,
        forall|i: int| 0 <= i < n ==> r@[i] == v,
{
    let mut out: Vec<i64> = Vec::new();
    let mut i: usize = 0;
    while i < n
        invariant
            out@.len() == i,
            i <= n,
            forall|j: int| 0 <= j < i ==> out@[j] == v,
        decreases n - i,
    {
        out.push(v);
        i = i + 1;
    }
    out
}

/// A vector of `n` copies of one color value.
pub fn filled_vec3(n: usize, v: Vec3) -> (r: Vec<Vec3>)
    ensures
        r@.len() == n,
        forall|i: int| 0 <= i < n ==> r@[i] == v,
{
    let mut out: Vec<Vec3> = Vec::new();
    let mut i: usize = 0;
    while i < n
        invariant
            out@.len() == i,
            i <= n,
            forall|j: int| 0 <= j < i ==> out@[j] == v,
        decreases n - i,
    {
        out.push(v);
        i = i + 1;
    }
    out
}

/// The per-pixel buffers rasterization fills and shading reads: one RGB
/// triple per pixel for the frame, position, normal, diffuse, specular and
/// glow channels, and one scalar depth.
pub struct GBuffer {
    pub width: usize,
    pub height: usize,
    pub frame: Vec<Vec3>,
    pub pos: Vec<Vec3>,
    pub normal: Vec<Vec3>,
    pub diffuse: Vec<Vec3>,
    pub specular: Vec<Vec3>,
    pub glow: Vec<Vec3>,
    pub z: Vec<i64>,
}

/// Every buffer holds one entry per pixel, and the dimensions are small
/// enough that index arithmetic cannot overflow.
pub open spec fn gbuf_wf(g: GBuffer) -> bool {
    &&& g.width <= 0x4000
    &&& g.height <= 0x4000
    &&& g.frame@.len() == g.width * g.height
    &&& g.pos@.len() == g.width * g.height
    &&& g.normal@.len() == g.width * g.height
    &&& g.diffuse@.len() == g.width * g.height
    &&& g.specular@.len() == g.width * g.height
    &&& g.glow@.len() == g.width * g.height
    &&& g.z@.len() == g.width * g.height
}

/// The row-major index of pixel (x, y).
pub open spec fn pix_idx(w: int, x: int, y: int) -> int {
    y * w + x
}

proof fn lemma_pix_idx(w: int, h: int, x: int, y: int)
    requires
        0 <= x < w,
        0 <= y < h,
        w <= 0x4000,
        h <= 0x4000,
    ensures
        0 <= pix_idx(w, x, y) < w * h,
        w * h <= 0x10000000,
{
    assert(0 <= y * w + x < w * h && w * h <= 0x10000000) by (nonlinear_arith)
        requires
            0 <= x < w,
            0 <= y < h,
            w <= 0x4000,
            h <= 0x4000,
    ;
}

proof fn lemma_pix_idx_inj(w: int, x1: int, y1: int, x2: int, y2: int)
    requires
        0 <= x1 < w,
        0 <= x2 < w,
        0 <= y1,
        0 <= y2,
        pix_idx(w, x1, y1) == pix_idx(w, x2, y2),
    ensures
        x1 == x2 && y1 == y2,
{
    assert(y1 * w + x1 == y2 * w + x2 ==> (x1 == x2 && y1 == y2)) by (nonlinear_arith)
        requires
            0 <= x1 < w,
            0 <= x2 < w,
            0 <= y1,
            0 <= y2,
    ;
}

/// Everything the depth test guards at one pixel.
pub ghost struct PixelState {
    pub z: int,
    pub pos: V3,
    pub normal: V3,
    pub diffuse: V3,
    pub specular: V3,
    pub glow: V3,
}

/// The state of one pixel of the buffers.
pub open spec fn state_at(g: GBuffer, i: int) -> PixelState {
    PixelState {
        z: g.z@[i] as int,
        pos: g.pos@[i]@,
        normal: g.normal@[i]@,
        diffuse: g.diffuse@[i]@,
        specular: g.specular@[i]@,
        glow: g.glow@[i]@,
    }
}

/// The nearest-wins depth test: a tested fragment strictly nearer than the
/// stored depth overwrites the whole pixel state; anything else leaves it.
pub open spec fn apply_frag(s: PixelState, f: Option<FragG>, is_tested: bool) -> PixelState {
    match f {
        Some(fr) => if is_tested && fr.depth < s.z {
            PixelState {
                z: fr.depth,
                pos: fr.pos,
                normal: fr.normal,
                diffuse: fr.diffuse,
                specular: fr.specular,
                glow: fr.glow,
            }
        } else {
            s
        },
        None => s,
    }
}

impl GBuffer {
    /// Scan-convert one triangle into the buffers, restricted to the given
    /// rectangular block: every pixel of the triangle's bounding box clamped
    /// to the block receives the nearest-wins update for the fragment the
    /// triangle produces there; every other pixel, and the frame buffer, are
    /// untouched.
    #[verifier::rlimit(100)]
    pub fn rasterize_triangle(
        &mut self,
        t: &TriangleRasterization,
        td: Option<&Texture>,
        ts: Option<&Texture>,
        tn: Option<&Texture>,
        tg: Option<&Texture>,
        start_row: usize,
        start_col: usize,
        block_row: usize,
        block_col: usize,
    )
        requires
            gbuf_wf(*old(self)),
            1 <= block_row,
            1 <= block_col,
            start_row + block_row <= old(self).height,
            start_col + block_col <= old(self).width,
            td is Some ==> texture_wf(td.unwrap()@) && td.unwrap()@.channels >= 3,
            ts is Some ==> texture_wf(ts.unwrap()@) && ts.unwrap()@.channels >= 3,
            tn is Some ==> texture_wf(tn.unwrap()@) && tn.unwrap()@.channels >= 3,
            tg is Some ==> texture_wf(tg.unwrap()@) && tg.unwrap()@.channels >= 3,
        ensures
            gbuf_wf(*final(self)),
            final(self).width == old(self).width,
            final(self).height == old(self).height,
            final(self).frame@ == old(self).frame@,
            forall|x: int, y: int|
                #![trigger pix_idx(old(self).width as int, x, y)]
                0 <= x < old(self).width && 0 <= y < old(self).height ==> state_at(
                    *final(self),
                    pix_idx(old(self).width as int, x, y),
                ) == apply_frag(
                    state_at(*old(self), pix_idx(old(self).width as int, x, y)),
                    frag_at(t@, opt_tex(td), opt_tex(ts), opt_tex(tn), opt_tex(tg), x, y),
                    tested(
                        t@,
                        start_row as int,
                        start_col as int,
                        block_row as int,
                        block_col as int,
                        x,
                        y,
                    ),
                ),
    {
        let ghost w = self.width as int;
        let ghost h = self.height as int;
        let ghost g0 = *self;
        let sr = start_row as i64;
        let sc = start_col as i64;
        let brk = block_row as i64;
        let bck = block_col as i64;
        let tx0 = fx_trunc(t.v0.transform_pos.x);
        let tx1 = fx_trunc(t.v1.transform_pos.x);
        let tx2 = fx_trunc(t.v2.transform_pos.x);
        let ty0 = fx_trunc(t.v0.transform_pos.y);
        let ty1 = fx_trunc(t.v1.transform_pos.y);
        let ty2 = fx_trunc(t.v2.transform_pos.y);
        let bl = fx_clamp(fx_min(fx_min(fx_min(0x7FFFFFFF, tx0), tx1), tx2), sc, sc + bck - 1);
        let br = fx_clamp(fx_max(fx_max(fx_max(0, tx0), tx1), tx2), sc, sc + bck - 1);
        let bb = fx_clamp(fx_min(fx_min(fx_min(0x7FFFFFFF, ty0), ty1), ty2), sr, sr + brk - 1);
        let bt = fx_clamp(fx_max(fx_max(fx_max(0, ty0), ty1), ty2), sr, sr + brk - 1);
        proof {
            reveal(tested);
            assert(forall|x: int, y: int| tested(
                t@,
                start_row as int,
                start_col as int,
                block_row as int,
                block_col as int,
                x,
                y,
            ) == (bl as int <= x <= br as int && bb as int <= y <= bt as int));
        }
        let mut yy: i64 = bb;
        while yy <= bt
            invariant
                gbuf_wf(*self),
                self.width == g0.width,
                self.height == g0.height,
                self.frame@ == g0.frame@,
                w == self.width as int,
                h == self.height as int,
                bb <= yy <= bt + 1,
                0 <= sc <= bl <= br < self.width,
                0 <= sr <= bb <= bt < self.height,
                td is Some ==> texture_wf(td.unwrap()@) && td.unwrap()@.channels >= 3,
                ts is Some ==> texture_wf(ts.unwrap()@) && ts.unwrap()@.channels >= 3,
                tn is Some ==> texture_wf(tn.unwrap()@) && tn.unwrap()@.channels >= 3,
                tg is Some ==> texture_wf(tg.unwrap()@) && tg.unwrap()@.channels >= 3,
                forall|x: int, y: int|
                    #![trigger pix_idx(w, x, y)]
                    0 <= x < w && 0 <= y < h ==> state_at(*self, pix_idx(w, x, y)) == apply_frag(
                        state_at(g0, pix_idx(w, x, y)),
                        frag_at(t@, opt_tex(td), opt_tex(ts), opt_tex(tn), opt_tex(tg), x, y),
                        (bl as int <= x <= br as int && bb as int <= y < yy as int),
                    ),
            decreases bt - yy + 1,
        {
            let mut xx: i64 = bl;
            while xx <= br
                invariant
                    gbuf_wf(*self),
                    self.width == g0.width,
                    self.height == g0.height,
                    self.frame@ == g0.frame@,
                    w == self.width as int,
                    h == self.height as int,
                    bb <= yy <= bt,
                    bl <= xx <= br + 1,
                    0 <= sc <= bl <= br < self.width,
                    0 <= sr <= bb <= bt < self.height,
                    td is Some ==> texture_wf(td.unwrap()@) && td.unwrap()@.channels >= 3,
                    ts is Some ==> texture_wf(ts.unwrap()@) && ts.unwrap()@.channels >= 3,
                    tn is Some ==> texture_wf(tn.unwrap()@) && tn.unwrap()@.channels >= 3,
                    tg is Some ==> texture_wf(tg.unwrap()@) && tg.unwrap()@.channels >= 3,
                    forall|x: int, y: int|
                        #![trigger pix_idx(w, x, y)]
                        0 <= x < w && 0 <= y < h ==> state_at(*self, pix_idx(w, x, y))
                            == apply_frag(
                            state_at(g0, pix_idx(w, x, y)),
                            frag_at(t@, opt_tex(td), opt_tex(ts), opt_tex(tn), opt_tex(tg), x, y),
                            (bl as int <= x <= br as int && (bb as int <= y < yy as int || (y
                                == yy as int && bl as int <= x < xx as int))),
                        ),
                decreases br - xx + 1,
            {
                let fr = compute_fragment(t, td, ts, tn, tg, xx, yy);
                proof {
                    lemma_pix_idx(w, h, xx as int, yy as int);
                }
                let i = (yy as usize) * self.width + (xx as usize);
                proof {
                    assert(i == pix_idx(w, xx as int, yy as int));
                }
                let ghost gpre = *self;
                match fr {
                    Some(f) => {
                        if f.depth < self.z[i] {
                            self.z.set(i, f.depth);
                            self.pos.set(i, f.pos);
                            self.normal.set(i, f.normal);
                            self.diffuse.set(i, f.diffuse);
                            self.specular.set(i, f.specular);
                            self.glow.set(i, f.glow);
                        }
                    },
                    None => {},
                }
                proof {
                    assert forall|x: int, y: int| 0 <= x < w && 0 <= y < h implies state_at(
                        *self,
                        #[trigger] pix_idx(w, x, y),
                    ) == apply_frag(
                        state_at(g0, pix_idx(w, x, y)),
                        frag_at(t@, opt_tex(td), opt_tex(ts), opt_tex(tn), opt_tex(tg), x, y),
                        (bl as int <= x <= br as int && (bb as int <= y < yy as int || (y
                            == yy as int && bl as int <= x < xx as int + 1))),
                    ) by {
                        lemma_pix_idx(w, h, x, y);
                        if x == xx as int && y == yy as int {
                            assert(state_at(gpre, pix_idx(w, x, y)) == state_at(
                                g0,
                                pix_idx(w, x, y),
                            ));
                        } else {
                            if pix_idx(w, x, y) == pix_idx(w, xx as int, yy as int) {
                                lemma_pix_idx_inj(w, x, y, xx as int, yy as int);
                            }
                            assert(state_at(*self, pix_idx(w, x, y)) == state_at(
                                gpre,
                                pix_idx(w, x, y),
                            ));
                        }
                    }
                }
                xx = xx + 1;
            }
        yy = yy + 1;
        }
    }
}

/// The depth test commutes: writing the fragments of two triangles at one
/// pixel in either order leaves the same pixel state, provided the two depths
/// differ whenever both fragments are produced and tested there. The pixel
/// is then determined solely by which fragment is nearer (with equal depths
/// the first-drawn triangle would win, so that case is excluded).
pub proof fn lemma_raster_order_independent(
    s: PixelState,
    fa: Option<FragG>,
    ta: bool,
    fb: Option<FragG>,
    tb: bool,
)
    requires
        (ta && tb && fa is Some && fb is Some) ==> fa.unwrap().depth != fb.unwrap().depth,
    ensures
        apply_frag(apply_frag(s, fa, ta), fb, tb) == apply_frag(apply_frag(s, fb, tb), fa, ta),
{
}

/// The interpolated depth a triangle leaves in a light-space depth map at
/// pixel (x, y), if any: coverage as in the main rasterizer, perspective
/// correction only when the light projection asks for it, and the stored
/// value is the interpolated clip-space w (view depth) or z, as configured.
#[verifier::opaque]
pub open spec fn shadow_depth_at(
    t: TriangleRG,
    is_projection: bool,
    depth_from_w: bool,
    x: int,
    y: int,
) -> Option<int> {
    let p = pixel_center(x, y);
    let s0 = xy(t.v0.transform_pos);
    let s1 = xy(t.v1.transform_pos);
    let s2 = xy(t.v2.transform_pos);
    if bary_denom_s(s0, s1, s2) == 0 {
        None
    } else {
        let a = bary_alpha_s(s0, s1, s2, p);
        let b = bary_beta_s(s0, s1, s2, p);
        let g = bary_gamma_s(s0, s1, s2, p);
        if !inside_triangle(a, b, g) {
            None
        } else {
            let abg = if is_projection {
                persp_correct(
                    a,
                    b,
                    g,
                    t.v0.transform_pos.w,
                    t.v1.transform_pos.w,
                    t.v2.transform_pos.w,
                )
            } else {
                Some((a, b, g))
            };
            match abg {
                None => None,
                Some(c) => {
                    let ptz = interp1(
                        c.0,
                        c.1,
                        c.2,
                        t.v0.transform_pos.z,
                        t.v1.transform_pos.z,
                        t.v2.transform_pos.z,
                    );
                    let ptw = interp1(
                        c.0,
                        c.1,
                        c.2,
                        t.v0.transform_pos.w,
                        t.v1.transform_pos.w,
                        t.v2.transform_pos.w,
                    );
                    Some(
                        if depth_from_w {
                            ptw
                        } else {
                            ptz
                        },
                    )
                },
            }
        }
    }
}

/// The farthest-from-sentinel update of a light-space depth map: a tested
/// fragment strictly greater than the stored value overwrites it (the map is
/// cleared to the minimum, the opposite convention of the camera z-buffer,
/// because the comparison direction is reversed there).
pub open spec fn apply_shadow(zold: int, d: Option<int>, is_tested: bool) -> int {
    match d {
        Some(dv) => if is_tested && dv > zold {
            dv
        } else {
            zold
        },
        None => zold,
    }
}

fn compute_shadow_depth(
    t: &TriangleRasterization,
    is_projection: bool,
    depth_from_w: bool,
    x: i64,
    y: i64,
) -> (r: Option<i64>)
    ensures
        (match r {
            Some(d) => shadow_depth_at(t@, is_projection, depth_from_w, x as int, y as int)
                == Some(d as int),
            None => shadow_depth_at(t@, is_projection, depth_from_w, x as int, y as int)
                is None,
        }),
{
    proof {
        reveal(shadow_depth_at);
    }
    let px = fx_add(fx_from_int(x), FX_HALF);
    let py = fx_add(fx_from_int(y), FX_HALF);
    let p = Vec2 { x: px, y: py };
    let s0 = t.v0.transform_pos.xy();
    let s1 = t.v1.transform_pos.xy();
    let s2 = t.v2.transform_pos.xy();
    let ab = s1.sub(&s0);
    let bc = s2.sub(&s1);
    let denom = fx_sub(fx_mul(ab.x, bc.y), fx_mul(bc.x, ab.y));
    if denom == 0 {
        return None;
    }
    let (alpha, beta, gamma) = cal_bary_coord_2d(s0, s1, s2, p);
    if !is_inside_triangle(alpha, beta, gamma) {
        return None;
    }
    let (aa, bb, gg): (i64, i64, i64) = if is_projection {
        let w0 = t.v0.transform_pos.w;
        let w1 = t.v1.transform_pos.w;
        let w2 = t.v2.transform_pos.w;
        if w0 == 0 || w1 == 0 || w2 == 0 {
            return None;
        }
        let a1 = fx_div(alpha, fx_neg(w0));
        let b1 = fx_div(beta, fx_neg(w1));
        let g1 = fx_div(gamma, fx_neg(w2));
        let s = fx_add(fx_add(a1, b1), g1);
        if s == 0 {
            return None;
        }
        let wi = fx_div(FX_ONE, s);
        (fx_mul(a1, wi), fx_mul(b1, wi), fx_mul(g1, wi))
    } else {
        (alpha, beta, gamma)
    };
    let ptz = fx_add(
        fx_add(fx_mul(aa, t.v0.transform_pos.z), fx_mul(bb, t.v1.transform_pos.z)),
        fx_mul(gg, t.v2.transform_pos.z),
    );
    let ptw = fx_add(
        fx_add(fx_mul(aa, t.v0.transform_pos.w), fx_mul(bb, t.v1.transform_pos.w)),
        fx_mul(gg, t.v2.transform_pos.w),
    );
    if depth_from_w {
        Some(ptw)
    } else {
        Some(ptz)
    }
}

/// Scan-convert one triangle into a light-space depth map, restricted to the
/// given block; depth-only, farthest-wins against the map's reversed
/// convention.
#[verifier::rlimit(60)]
pub fn rasterize_shadow(
    zbuf: &mut Vec<i64>,
    width: usize,
    height: usize,
    t: &TriangleRasterization,
    is_projection: bool,
    depth_from_w: bool,
    start_row: usize,
    start_col: usize,
    block_row: usize,
    block_col: usize,
)
    requires
        old(zbuf)@.len() == width * height,
        width <= 0x4000,
        height <= 0x4000,
        1 <= block_row,
        1 <= block_col,
        start_row + block_row <= height,
        start_col + block_col <= width,
    ensures
        final(zbuf)@.len() == old(zbuf)@.len(),
        forall|x: int, y: int|
            #![trigger pix_idx(width as int, x, y)]
            0 <= x < width && 0 <= y < height ==> final(zbuf)@[pix_idx(width as int, x, y)] as int
                == apply_shadow(
                old(zbuf)@[pix_idx(width as int, x, y)] as int,
                shadow_depth_at(t@, is_projection, depth_from_w, x, y),
                tested(
                    t@,
                    start_row as int,
                    start_col as int,
                    block_row as int,
                    block_col as int,
                    x,
                    y,
                ),
            ),
{
    let ghost w = width as int;
    let ghost h = height as int;
    let ghost z0 = zbuf@;
    let sr = start_row as i64;
    let sc = start_col as i64;
    let brk = block_row as i64;
    let bck = block_col as i64;
    let tx0 = fx_trunc(t.v0.transform_pos.x);
    let tx1 = fx_trunc(t.v1.transform_pos.x);
    let tx2 = fx_trunc(t.v2.transform_pos.x);
    let ty0 = fx_trunc(t.v0.transform_pos.y);
    let ty1 = fx_trunc(t.v1.transform_pos.y);
    let ty2 = fx_trunc(t.v2.transform_pos.y);
    let bl = fx_clamp(fx_min(fx_min(fx_min(0x7FFFFFFF, tx0), tx1), tx2), sc, sc + bck - 1);
    let br = fx_clamp(fx_max(fx_max(fx_max(0, tx0), tx1), tx2), sc, sc + bck - 1);
    let bb = fx_clamp(fx_min(fx_min(fx_min(0x7FFFFFFF, ty0), ty1), ty2), sr, sr + brk - 1);
    let bt = fx_clamp(fx_max(fx_max(fx_max(0, ty0), ty1), ty2), sr, sr + brk - 1);
    proof {
        reveal(tested);
        assert(forall|x: int, y: int| tested(
            t@,
            start_row as int,
            start_col as int,
            block_row as int,
            block_col as int,
            x,
            y,
        ) == (bl as int <= x <= br as int && bb as int <= y <= bt as int));
    }
    let mut yy: i64 = bb;
    while yy <= bt
        invariant
            zbuf@.len() == z0.len(),
            z0.len() == width * height,
            w == width as int,
            h == height as int,
            width <= 0x4000,
            height <= 0x4000,
            bb <= yy <= bt + 1,
            0 <= sc <= bl <= br < width,
            0 <= sr <= bb <= bt < height,
            forall|x: int, y: int|
                #![trigger pix_idx(w, x, y)]
                0 <= x < w && 0 <= y < h ==> zbuf@[pix_idx(w, x, y)] as int == apply_shadow(
                    z0[pix_idx(w, x, y)] as int,
                    shadow_depth_at(t@, is_projection, depth_from_w, x, y),
                    (bl as int <= x <= br as int && bb as int <= y < yy as int),
                ),
        decreases bt - yy + 1,
    {
        let mut xx: i64 = bl;
        while xx <= br
            invariant
                zbuf@.len() == z0.len(),
                z0.len() == width * height,
                w == width as int,
                h == height as int,
                width <= 0x4000,
                height <= 0x4000,
                bb <= yy <= bt,
                bl <= xx <= br + 1,
                0 <= sc <= bl <= br < width,
                0 <= sr <= bb <= bt < height,
                forall|x: int, y: int|
                    #![trigger pix_idx(w, x, y)]
                    0 <= x < w && 0 <= y < h ==> zbuf@[pix_idx(w, x, y)] as int == apply_shadow(
                        z0[pix_idx(w, x, y)] as int,
                        shadow_depth_at(t@, is_projection, depth_from_w, x, y),
                        (bl as int <= x <= br as int && (bb as int <= y < yy as int || (y
                            == yy as int && bl as int <= x < xx as int))),
                    ),
            decreases br - xx + 1,
        {
            let d = compute_shadow_depth(t, is_projection, depth_from_w, xx, yy);
            proof {
                lemma_pix_idx(w, h, xx as int, yy as int);
            }
            let i = (yy as usize) * width + (xx as usize);
            proof {
                assert(i == pix_idx(w, xx as int, yy as int));
            }
            let ghost zpre = zbuf@;
            match d {
                Some(dv) => {
                    if dv > zbuf[i] {
                        zbuf.set(i, dv);
                    }
                },
                None => {},
            }
            proof {
                assert forall|x: int, y: int| 0 <= x < w && 0 <= y < h implies zbuf@[
                    #[trigger] pix_idx(w, x, y)
                ] as int == apply_shadow(
                    z0[pix_idx(w, x, y)] as int,
                    shadow_depth_at(t@, is_projection, depth_from_w, x, y),
                    (bl as int <= x <= br as int && (bb as int <= y < yy as int || (y
                        == yy as int && bl as int <= x < xx as int + 1))),
                ) by {
                    lemma_pix_idx(w, h, x, y);
                    if !(x == xx as int && y == yy as int) {
                        if pix_idx(w, x, y) == pix_idx(w, xx as int, yy as int) {
                            lemma_pix_idx_inj(w, x, y, xx as int, yy as int);
                        }
                        assert(zbuf@[pix_idx(w, x, y)] == zpre[pix_idx(w, x, y)]);
                    }
                }
            }
            xx = xx + 1;
        }
        yy = yy + 1;
    }
}

/// A pixel that nothing has touched yet: the empty depth sentinel and zeroed
/// shading channels.
pub open spec fn cleared_pixel() -> PixelState {
    PixelState {
        z: Z_EMPTY as int,
        pos: V3 { x: 0, y: 0, z: 0 },
        normal: V3 { x: 0, y: 0, z: 0 },
        diffuse: V3 { x: 0, y: 0, z: 0 },
        specular: V3 { x: 0, y: 0, z: 0 },
        glow: V3 { x: 0, y: 0, z: 0 },
    }
}

impl GBuffer {
    /// Fresh buffers for one frame: the frame cleared to the background
    /// grey, the depth buffer to the empty sentinel, everything else to zero.
    pub fn new(width: usize, height: usize) -> (r: GBuffer)
        requires
            1 <= width <= 0x4000,
            1 <= height <= 0x4000,
        ensures
            gbuf_wf(r),
            r.width == width,
            r.height == height,
            forall|i: int| 0 <= i < width * height ==> state_at(r, i) == cleared_pixel(),
            forall|i: int| 0 <= i < width * height ==> r.frame@[i]@ == (V3 {
                x: BG_GREY as int,
                y: BG_GREY as int,
                z: BG_GREY as int,
            }),
    {
        proof {
            assert(width * height <= 0x10000000) by (nonlinear_arith)
                requires
                    width <= 0x4000,
                    height <= 0x4000,
            ;
        }
        let n = width * height;
        GBuffer {
            width,
            height,
            frame: filled_vec3(n, Vec3 { x: BG_GREY, y: BG_GREY, z: BG_GREY }),
            pos: filled_vec3(n, Vec3 { x: 0, y: 0, z: 0 }),
            normal: filled_vec3(n, Vec3 { x: 0, y: 0, z: 0 }),
            diffuse: filled_vec3(n, Vec3 { x: 0, y: 0, z: 0 }),
            specular: filled_vec3(n, Vec3 { x: 0, y: 0, z: 0 }),
            glow: filled_vec3(n, Vec3 { x: 0, y: 0, z: 0 }),
            z: filled_i64(n, Z_EMPTY),
        }
    }
}

} // verus!
