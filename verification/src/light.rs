//! Lights and the shared shadow-map machinery.
//!
//! A light owns a light-space depth map (rebuilt every frame, cleared to the
//! minimum because its comparison direction is the reverse of the camera
//! z-buffer) and answers point-visibility queries with one of three methods:
//! a single biased depth comparison (DIRECT), the average of that comparison
//! over a kernel (PCF, dense or sample-accelerated by the Fibonacci disk),
//! or blocker-search-driven PCF (PCSS), which returns fully lit when no
//! blocker is found.

use vstd::prelude::*;

use crate::fib::{fib_disk_sample, compute_fibonacci_spiral_disk_sample_uniform, FIB_SAMPLE_NUM};
use crate::fx::{abs_int, fadd, fclamp, fdiv, fmul, fneg, fsub, fx_add, fx_clamp, fx_div,
    fx_from_int, fx_max, fx_mul, fx_neg, fx_round, fx_round_spec, fx_sub, fx_trunc,
    fx_floor_to_int, sat64, FX_EPS, FX_HALF, FX_ONE};
use crate::raster::{imax, pix_idx};
use crate::vec::{div_scalar3, dot3, homog, mul4v, norm3, sub3, Mat4, Vec3, Vec4, V3, V4};

verus! {

/// The three shadow query methods.
pub enum ShadowMethod {
    DIRECT,
    PCF,
    PCSS,
}

/// The slope-bias scale of the depth comparison (0.05).
pub const LIGHT_BIAS_SCALE: i64 = 3277;

/// The resolution factor of the depth bias (512).
pub const LIGHT_BIAS_RES: i64 = 512;

/// The reciprocal of the Fibonacci disk sample count (1/64).
pub const FIB_COUNT_INV: i64 = 1024;

/// The largest kernel radius a shadow query walks (a machine limit).
pub const KERNEL_RADIUS_MAX: i64 = 0x1000;

/// The value a light-space depth map is cleared to: farther than everything
/// under its reversed comparison.
pub const LIGHT_Z_EMPTY: i64 = i64::MIN;

/// A point light: a position and an RGB intensity with inverse-square
/// falloff.
pub struct Light {
    pub pos: Vec3,
    pub intensity: Vec3,
}

impl Light {
    /// Build a light from a position and an intensity.
    pub fn new(pos: Vec3, intensity: Vec3) -> (r: Light)
        ensures
            r.pos == pos,
            r.intensity == intensity,
    {
        Light { pos, intensity }
    }

    /// The light's position.
    pub fn get_pos(&self) -> (r: Vec3)
        ensures
            r == self.pos,
    {
        self.pos
    }

    /// Move the light.
    pub fn set_pos(&mut self, pos: Vec3)
        ensures
            final(self).pos == pos,
            final(self).intensity == old(self).intensity,
    {
        self.pos = pos;
    }

    /// The light's intensity.
    pub fn get_intensity(&self) -> (r: Vec3)
        ensures
            r == self.intensity,
    {
        self.intensity
    }

    /// Change the light's intensity.
    pub fn set_intensity(&mut self, intensity: Vec3)
        ensures
            final(self).intensity == intensity,
            final(self).pos == old(self).pos,
    {
        self.intensity = intensity;
    }

    /// The unit direction from the light to a point.
    pub fn compute_world_light_dir(&self, point: &Vec3) -> (r: Vec3)
        ensures
            r@ == norm3(sub3(point@, self.pos@)),
    {
        point.sub(&self.pos).normalize()
    }

    /// The intensity arriving at a point: inverse-square falloff; zero for a
    /// point at the light itself (degenerate, tolerated).
    pub fn compute_world_light_intensity(&self, point: &Vec3) -> (r: Vec3)
        ensures
            r@ == point_light_intensity(self.intensity@, self.pos@, point@),
    {
        let d = point.sub(&self.pos);
        let d2 = d.dot(&d);
        if d2 == 0 {
            Vec3::zero()
        } else {
            self.intensity.div_scalar(d2)
        }
    }
}

/// The intensity of a point light arriving at a point: the intensity divided
/// by the squared distance; zero at the light itself.
pub open spec fn point_light_intensity(intensity: V3, pos: V3, point: V3) -> V3 {
    let d = sub3(point, pos);
    let d2 = dot3(d, d);
    if d2 == 0 {
        V3 { x: 0, y: 0, z: 0 }
    } else {
        div_scalar3(intensity, d2)
    }
}

/// Whether a clip-space position lies inside the light frustum; a zero w is
/// degenerate and counts as outside.
pub open spec fn in_light_frustum(tp: V4) -> bool {
    &&& tp.w != 0
    &&& !(tp.x < tp.w || tp.x > fneg(tp.w) || tp.y < tp.w || tp.y > fneg(tp.w) || tp.z < tp.w
        || tp.z > fneg(tp.w))
}

/// Test whether a clip-space position lies inside the light frustum.
pub fn light_frustum_test(tp: &Vec4) -> (r: bool)
    ensures
        r == in_light_frustum(tp@),
{
    if tp.w == 0 {
        return false;
    }
    !(tp.x < tp.w || tp.x > fx_neg(tp.w) || tp.y < tp.w || tp.y > fx_neg(tp.w) || tp.z < tp.w
        || tp.z > fx_neg(tp.w))
}

/// The depth-map texel one clip-space coordinate lands on, clamped to the
/// map.
pub open spec fn light_texel(c: int, w: int, size: int) -> int
    recommends
        w != 0,
        size >= 1,
{
    fclamp(fx_floor_to_int(fmul(fmul(fadd(fdiv(c, w), FX_ONE as int), FX_HALF as int), sat64(
        size * FX_ONE as int,
    ))), 0, size - 1)
}

/// Compute the depth-map texel one clip-space coordinate lands on.
pub fn light_texel_exec(c: i64, w: i64, size: usize) -> (r: i64)
    requires
        w != 0,
        1 <= size <= 0x4000,
    ensures
        r as int == light_texel(c as int, w as int, size as int),
        0 <= r < size,
{
    let sfx = fx_from_int(size as i64);
    fx_clamp(fx_trunc(fx_mul(fx_mul(fx_add(fx_div(c, w), FX_ONE), FX_HALF), sfx)), 0, size
        as i64 - 1)
}

/// Whether the depth comparison at one kernel texel passes: the receiver
/// depth plus the offset-scaled bias is not farther than the stored depth.
pub open spec fn texel_lit(
    zb: Seq<i64>,
    w: int,
    h: int,
    cx: int,
    cy: int,
    depth: int,
    bias: int,
    ox: int,
    oy: int,
) -> bool {
    let ix = fclamp(cx + ox, 0, w - 1);
    let iy = fclamp(cy + oy, 0, h - 1);
    let k = imax(abs_int(ox), abs_int(oy)) + 1;
    fadd(depth, fmul(sat64(k * FX_ONE as int), bias)) > zb[pix_idx(w, ix, iy)]
}

/// Whether the reversed comparison finds a blocker at one kernel texel.
pub open spec fn texel_blocked(
    zb: Seq<i64>,
    w: int,
    h: int,
    cx: int,
    cy: int,
    depth: int,
    bias: int,
    ox: int,
    oy: int,
) -> bool {
    let ix = fclamp(cx + ox, 0, w - 1);
    let iy = fclamp(cy + oy, 0, h - 1);
    let k = imax(abs_int(ox), abs_int(oy)) + 1;
    fadd(depth, fmul(sat64(k * FX_ONE as int), bias)) < zb[pix_idx(w, ix, iy)]
}

/// The stored depth at the (clamped) kernel texel.
pub open spec fn texel_depth(zb: Seq<i64>, w: int, h: int, cx: int, cy: int, ox: int, oy: int)
    -> int {
    let ix = fclamp(cx + ox, 0, w - 1);
    let iy = fclamp(cy + oy, 0, h - 1);
    zb[pix_idx(w, ix, iy)] as int
}

pub(crate) fn texel_lit_exec(
    zb: &Vec<i64>,
    w: usize,
    h: usize,
    cx: i64,
    cy: i64,
    depth: i64,
    bias: i64,
    ox: i64,
    oy: i64,
) -> (r: bool)
    requires
        zb@.len() == w * h,
        1 <= w <= 0x4000,
        1 <= h <= 0x4000,
        0 <= cx < w,
        0 <= cy < h,
        -0x4000 <= ox <= 0x4000,
        -0x4000 <= oy <= 0x4000,
    ensures
        r == texel_lit(zb@, w as int, h as int, cx as int, cy as int, depth as int, bias as int,
            ox as int, oy as int,
        ),
{
    let ix = fx_clamp(cx + ox, 0, w as i64 - 1);
    let iy = fx_clamp(cy + oy, 0, h as i64 - 1);
    let ax = if ox < 0 {
        -ox
    } else {
        ox
    };
    let ay = if oy < 0 {
        -oy
    } else {
        oy
    };
    let k = fx_max(ax, ay) + 1;
    proof {
        lemma_texel_index(w as int, h as int, ix as int, iy as int);
    }
    let idx = (iy as usize) * w + (ix as usize);
    fx_add(depth, fx_mul(fx_from_int(k), bias)) > zb[idx]
}

pub(crate) fn texel_blocked_exec(
    zb: &Vec<i64>,
    w: usize,
    h: usize,
    cx: i64,
    cy: i64,
    depth: i64,
    bias: i64,
    ox: i64,
    oy: i64,
) -> (r: (bool, i64))
    requires
        zb@.len() == w * h,
        1 <= w <= 0x4000,
        1 <= h <= 0x4000,
        0 <= cx < w,
        0 <= cy < h,
        -0x4000 <= ox <= 0x4000,
        -0x4000 <= oy <= 0x4000,
    ensures
        r.0 == texel_blocked(zb@, w as int, h as int, cx as int, cy as int, depth as int,
            bias as int, ox as int, oy as int,
        ),
        r.1 as int == texel_depth(zb@, w as int, h as int, cx as int, cy as int, ox as int,
            oy as int,
        ),
{
    let ix = fx_clamp(cx + ox, 0, w as i64 - 1);
    let iy = fx_clamp(cy + oy, 0, h as i64 - 1);
    let ax = if ox < 0 {
        -ox
    } else {
        ox
    };
    let ay = if oy < 0 {
        -oy
    } else {
        oy
    };
    let k = fx_max(ax, ay) + 1;
    proof {
        lemma_texel_index(w as int, h as int, ix as int, iy as int);
    }
    let idx = (iy as usize) * w + (ix as usize);
    let b = fx_add(depth, fx_mul(fx_from_int(k), bias)) < zb[idx];
    (b, zb[idx])
}

proof fn lemma_texel_index(w: int, h: int, ix: int, iy: int)
    requires
        1 <= w <= 0x4000,
        1 <= h <= 0x4000,
        0 <= ix < w,
        0 <= iy < h,
    ensures
        0 <= pix_idx(w, ix, iy) < w * h,
        w * h <= 0x10000000,
{
    assert(0 <= iy * w + ix < w * h && w * h <= 0x10000000) by (nonlinear_arith)
        requires
            0 <= ix < w,
            0 <= iy < h,
            w <= 0x4000,
            h <= 0x4000,
    ;
}

/// How many texels of one kernel row, from offset `ox` on, pass the lit test.
pub open spec fn pcf_row_count(
    zb: Seq<i64>,
    w: int,
    h: int,
    cx: int,
    cy: int,
    depth: int,
    bias: int,
    r: int,
    oy: int,
    ox: int,
) -> int
    decreases r - ox + 1,
{
    if ox > r {
        0
    } else {
        (if texel_lit(zb, w, h, cx, cy, depth, bias, ox, oy) {
            1int
        } else {
            0int
        }) + pcf_row_count(zb, w, h, cx, cy, depth, bias, r, oy, ox + 1)
    }
}

/// How many texels of the dense kernel, from row offset `oy` on, pass the
/// lit test.
pub open spec fn pcf_count(
    zb: Seq<i64>,
    w: int,
    h: int,
    cx: int,
    cy: int,
    depth: int,
    bias: int,
    r: int,
    oy: int,
) -> int
    decreases r - oy + 1,
{
    if oy > r {
        0
    } else {
        pcf_row_count(zb, w, h, cx, cy, depth, bias, r, oy, -r) + pcf_count(zb, w, h, cx, cy,
            depth, bias, r, oy + 1,
        )
    }
}

/// The dense-kernel PCF visibility: the lit fraction of the (2r+1) by (2r+1)
/// kernel.
pub open spec fn pcf_dense_vis(
    zb: Seq<i64>,
    w: int,
    h: int,
    cx: int,
    cy: int,
    depth: int,
    bias: int,
    r: int,
) -> int {
    fdiv(
        sat64(pcf_count(zb, w, h, cx, cy, depth, bias, r, -r) * FX_ONE as int),
        sat64((2 * r + 1) * (2 * r + 1) * FX_ONE as int),
    )
}

/// The single DIRECT comparison at the receiver's own texel: fully lit or
/// fully shadowed.
pub open spec fn direct_vis(
    zb: Seq<i64>,
    w: int,
    h: int,
    cx: int,
    cy: int,
    depth: int,
    bias: int,
) -> int {
    if texel_lit(zb, w, h, cx, cy, depth, bias, 0, 0) {
        FX_ONE as int
    } else {
        0
    }
}

/// PCF with kernel radius zero is the DIRECT test: the kernel is the single
/// receiver texel with the same one-step bias, and the lit fraction of one
/// sample is one or zero.
pub proof fn lemma_pcf_radius_zero_is_direct(
    zb: Seq<i64>,
    w: int,
    h: int,
    cx: int,
    cy: int,
    depth: int,
    bias: int,
)
    ensures
        pcf_dense_vis(zb, w, h, cx, cy, depth, bias, 0) == direct_vis(zb, w, h, cx, cy, depth,
            bias,
        ),
{
    assert(pcf_row_count(zb, w, h, cx, cy, depth, bias, 0, 0, 1) == 0);
    assert(pcf_count(zb, w, h, cx, cy, depth, bias, 0, 1) == 0);
    assert((2int * 0int + 1int) * (2int * 0int + 1int) == 1int) by (nonlinear_arith);
    assert(1int * 65536int == 65536int) by (nonlinear_arith);
    assert(0int * 65536int == 0int) by (nonlinear_arith);
    assert(sat64(65536int) == 65536int);
    assert(sat64(0int) == 0int);
    if texel_lit(zb, w, h, cx, cy, depth, bias, 0, 0) {
        assert(pcf_count(zb, w, h, cx, cy, depth, bias, 0, 0) == 1);
        assert(65536int * 65536int == 4294967296int) by (nonlinear_arith);
        vstd::arithmetic::div_mod::lemma_div_multiples_vanish(65536int, 65536int);
        assert(fdiv(FX_ONE as int, FX_ONE as int) == FX_ONE as int);
    } else {
        assert(pcf_count(zb, w, h, cx, cy, depth, bias, 0, 0) == 0);
        vstd::arithmetic::div_mod::lemma_div_basics(65536int);
        assert(fdiv(0, FX_ONE as int) == 0);
    }
}

/// How many Fibonacci disk samples, from index `i` on, pass the lit test.
pub open spec fn pcf_fib_count(
    zb: Seq<i64>,
    w: int,
    h: int,
    cx: int,
    cy: int,
    depth: int,
    bias: int,
    radius: int,
    i: int,
) -> int
    decreases 64 - i,
{
    if i >= 64 {
        0
    } else {
        let sd = fib_disk_sample(i, FIB_COUNT_INV as int);
        let ox = fclamp(fx_round_spec(fmul(sat64(radius * FX_ONE as int), sd.x)), -0x4000,
            0x4000);
        let oy = fclamp(fx_round_spec(fmul(sat64(radius * FX_ONE as int), sd.y)), -0x4000,
            0x4000);
        (if texel_lit(zb, w, h, cx, cy, depth, bias, ox, oy) {
            1int
        } else {
            0int
        }) + pcf_fib_count(zb, w, h, cx, cy, depth, bias, radius, i + 1)
    }
}

/// The sample-accelerated PCF visibility: the lit fraction of the 64
/// Fibonacci disk samples scaled by the kernel radius.
pub open spec fn pcf_fib_vis(
    zb: Seq<i64>,
    w: int,
    h: int,
    cx: int,
    cy: int,
    depth: int,
    bias: int,
    radius: int,
) -> int {
    fdiv(
        sat64(pcf_fib_count(zb, w, h, cx, cy, depth, bias, radius, 0) * FX_ONE as int),
        sat64(64 * FX_ONE as int),
    )
}

/// The blocker count and accumulated blocker depth of the dense PCSS search,
/// walking the kernel row-major from (oy, ox) with the accumulators so far.
pub open spec fn pcss_search(
    zb: Seq<i64>,
    w: int,
    h: int,
    cx: int,
    cy: int,
    depth: int,
    bias: int,
    r: int,
    oy: int,
    ox: int,
    n0: int,
    d0: int,
) -> (int, int)
    decreases r - oy + 1, r - ox + 2,
{
    if oy > r {
        (n0, d0)
    } else if ox > r {
        pcss_search(zb, w, h, cx, cy, depth, bias, r, oy + 1, -r, n0, d0)
    } else {
        if texel_blocked(zb, w, h, cx, cy, depth, bias, ox, oy) {
            pcss_search(zb, w, h, cx, cy, depth, bias, r, oy, ox + 1, n0 + 1, fadd(
                d0,
                texel_depth(zb, w, h, cx, cy, ox, oy),
            ))
        } else {
            pcss_search(zb, w, h, cx, cy, depth, bias, r, oy, ox + 1, n0, d0)
        }
    }
}

/// The blocker count and accumulated blocker depth of the sample-accelerated
/// PCSS search, from sample `i` with the accumulators so far.
pub open spec fn pcss_search_fib(
    zb: Seq<i64>,
    w: int,
    h: int,
    cx: int,
    cy: int,
    depth: int,
    bias: int,
    radius: int,
    i: int,
    n0: int,
    d0: int,
) -> (int, int)
    decreases 64 - i,
{
    if i >= 64 {
        (n0, d0)
    } else {
        let sd = fib_disk_sample(i, FIB_COUNT_INV as int);
        let ox = fclamp(fx_round_spec(fmul(sat64(radius * FX_ONE as int), sd.x)), -0x4000,
            0x4000);
        let oy = fclamp(fx_round_spec(fmul(sat64(radius * FX_ONE as int), sd.y)), -0x4000,
            0x4000);
        if texel_blocked(zb, w, h, cx, cy, depth, bias, ox, oy) {
            pcss_search_fib(zb, w, h, cx, cy, depth, bias, radius, i + 1, n0 + 1, fadd(
                d0,
                texel_depth(zb, w, h, cx, cy, ox, oy),
            ))
        } else {
            pcss_search_fib(zb, w, h, cx, cy, depth, bias, radius, i + 1, n0, d0)
        }
    }
}

/// Run the DIRECT comparison at the receiver texel.
pub fn direct_vis_exec(zb: &Vec<i64>, w: usize, h: usize, cx: i64, cy: i64, depth: i64,
    bias: i64,
) -> (r: i64)
    requires
        zb@.len() == w * h,
        1 <= w <= 0x4000,
        1 <= h <= 0x4000,
        0 <= cx < w,
        0 <= cy < h,
    ensures
        r as int == direct_vis(zb@, w as int, h as int, cx as int, cy as int, depth as int,
            bias as int,
        ),
{
    if texel_lit_exec(zb, w, h, cx, cy, depth, bias, 0, 0) {
        FX_ONE
    } else {
        0
    }
}

/// Run the dense PCF kernel.
pub fn pcf_dense_vis_exec(
    zb: &Vec<i64>,
    w: usize,
    h: usize,
    cx: i64,
    cy: i64,
    depth: i64,
    bias: i64,
    radius: i64,
) -> (r: i64)
    requires
        zb@.len() == w * h,
        1 <= w <= 0x4000,
        1 <= h <= 0x4000,
        0 <= cx < w,
        0 <= cy < h,
        0 <= radius <= KERNEL_RADIUS_MAX,
    ensures
        r as int == pcf_dense_vis(zb@, w as int, h as int, cx as int, cy as int, depth as int,
            bias as int, radius as int,
        ),
{
    let mut count: i64 = 0;
    let mut oy: i64 = -radius;
    proof {
        lemma_pcf_count_bound(zb@, w as int, h as int, cx as int, cy as int, depth as int,
            bias as int, radius as int, -radius as int,
        );
    }
    while oy <= radius
        invariant
            zb@.len() == w * h,
            1 <= w <= 0x4000,
            1 <= h <= 0x4000,
            0 <= cx < w,
            0 <= cy < h,
            0 <= radius <= KERNEL_RADIUS_MAX,
            -radius <= oy <= radius + 1,
            pcf_count(zb@, w as int, h as int, cx as int, cy as int, depth as int, bias as int,
                radius as int, -radius as int,
            ) == count + pcf_count(zb@, w as int, h as int, cx as int, cy as int, depth as int,
                bias as int, radius as int, oy as int,
            ),
            0 <= count,
            count + pcf_count(zb@, w as int, h as int, cx as int, cy as int, depth as int,
                bias as int, radius as int, oy as int,
            ) <= (2 * radius + 1) * (2 * radius + 1),
        decreases radius - oy + 1,
    {
        let mut ox: i64 = -radius;
        proof {
            lemma_pcf_count_bound(zb@, w as int, h as int, cx as int, cy as int, depth as int,
                bias as int, radius as int, oy as int + 1,
            );
            lemma_pcf_row_count_bound(zb@, w as int, h as int, cx as int, cy as int,
                depth as int, bias as int, radius as int, oy as int, -radius as int,
            );
        }
        while ox <= radius
            invariant
                zb@.len() == w * h,
                1 <= w <= 0x4000,
                1 <= h <= 0x4000,
                0 <= cx < w,
                0 <= cy < h,
                0 <= radius <= KERNEL_RADIUS_MAX,
                -radius <= oy <= radius,
                -radius <= ox <= radius + 1,
                pcf_count(zb@, w as int, h as int, cx as int, cy as int, depth as int,
                    bias as int, radius as int, -radius as int,
                ) == count + pcf_row_count(zb@, w as int, h as int, cx as int, cy as int,
                    depth as int, bias as int, radius as int, oy as int, ox as int,
                ) + pcf_count(zb@, w as int, h as int, cx as int, cy as int, depth as int,
                    bias as int, radius as int, oy as int + 1,
                ),
                0 <= count,
                count + pcf_row_count(zb@, w as int, h as int, cx as int, cy as int,
                    depth as int, bias as int, radius as int, oy as int, ox as int,
                ) + pcf_count(zb@, w as int, h as int, cx as int, cy as int, depth as int,
                    bias as int, radius as int, oy as int + 1,
                ) <= (2 * radius + 1) * (2 * radius + 1),
            decreases radius - ox + 1,
        {
            proof {
                lemma_pcf_row_count_bound(zb@, w as int, h as int, cx as int, cy as int,
                    depth as int, bias as int, radius as int, oy as int, ox as int + 1,
                );
                lemma_pcf_count_bound(zb@, w as int, h as int, cx as int, cy as int,
                    depth as int, bias as int, radius as int, oy as int + 1,
                );
                assert((2 * radius as int + 1) * (2 * radius as int + 1) <= 0x4004001)
                    by (nonlinear_arith)
                    requires
                        0 <= radius <= KERNEL_RADIUS_MAX,
                ;
            }
            if texel_lit_exec(zb, w, h, cx, cy, depth, bias, ox, oy) {
                count = count + 1;
            }
            ox = ox + 1;
        }
        oy = oy + 1;
    }
    proof {
        assert((2 * radius as int + 1) * (2 * radius as int + 1) <= 0x4004001)
            by (nonlinear_arith)
            requires
                0 <= radius <= KERNEL_RADIUS_MAX,
        ;
    }
    let n2 = (2 * radius + 1) * (2 * radius + 1);
    proof {
        assert(1 <= n2) by (nonlinear_arith)
            requires
                n2 == (2 * radius as int + 1) * (2 * radius as int + 1),
                radius >= 0,
        ;
        assert(sat64(n2 as int * FX_ONE as int) != 0) by (nonlinear_arith)
            requires
                1 <= n2 <= 0x4004001,
        ;
    }
    fx_div(fx_from_int(count), fx_from_int(n2))
}

proof fn lemma_pcf_row_count_bound(
    zb: Seq<i64>,
    w: int,
    h: int,
    cx: int,
    cy: int,
    depth: int,
    bias: int,
    r: int,
    oy: int,
    ox: int,
)
    ensures
        0 <= pcf_row_count(zb, w, h, cx, cy, depth, bias, r, oy, ox) <= (if ox > r {
            0
        } else {
            r - ox + 1
        }),
    decreases r - ox + 1,
{
    if ox <= r {
        lemma_pcf_row_count_bound(zb, w, h, cx, cy, depth, bias, r, oy, ox + 1);
    }
}

proof fn lemma_pcf_count_bound(
    zb: Seq<i64>,
    w: int,
    h: int,
    cx: int,
    cy: int,
    depth: int,
    bias: int,
    r: int,
    oy: int,
)
    requires
        oy >= -r,
    ensures
        0 <= pcf_count(zb, w, h, cx, cy, depth, bias, r, oy) <= (if oy > r {
            0
        } else {
            (r - oy + 1) * (2 * r + 1)
        }),
    decreases r - oy + 1,
{
    if oy <= r {
        lemma_pcf_count_bound(zb, w, h, cx, cy, depth, bias, r, oy + 1);
        lemma_pcf_row_count_bound(zb, w, h, cx, cy, depth, bias, r, oy, -r);
        assert((r - oy + 1) * (2 * r + 1) == (2 * r + 1) + (r - oy) * (2 * r + 1))
            by (nonlinear_arith);
    }
}

/// Run the sample-accelerated PCF kernel.
pub fn pcf_fib_vis_exec(
    zb: &Vec<i64>,
    w: usize,
    h: usize,
    cx: i64,
    cy: i64,
    depth: i64,
    bias: i64,
    radius: i64,
) -> (r: i64)
    requires
        zb@.len() == w * h,
        1 <= w <= 0x4000,
        1 <= h <= 0x4000,
        0 <= cx < w,
        0 <= cy < h,
        0 <= radius <= KERNEL_RADIUS_MAX,
    ensures
        r as int == pcf_fib_vis(zb@, w as int, h as int, cx as int, cy as int, depth as int,
            bias as int, radius as int,
        ),
{
    let radius_fx = fx_from_int(radius);
    let mut count: i64 = 0;
    let mut i: usize = 0;
    proof {
        lemma_pcf_fib_count_bound(zb@, w as int, h as int, cx as int, cy as int, depth as int,
            bias as int, radius as int, 0,
        );
    }
    while i < FIB_SAMPLE_NUM
        invariant
            zb@.len() == w * h,
            1 <= w <= 0x4000,
            1 <= h <= 0x4000,
            0 <= cx < w,
            0 <= cy < h,
            0 <= radius <= KERNEL_RADIUS_MAX,
            radius_fx as int == sat64(radius as int * FX_ONE as int),
            i <= 64,
            pcf_fib_count(zb@, w as int, h as int, cx as int, cy as int, depth as int,
                bias as int, radius as int, 0,
            ) == count + pcf_fib_count(zb@, w as int, h as int, cx as int, cy as int,
                depth as int, bias as int, radius as int, i as int,
            ),
            0 <= count <= 64,
            count + pcf_fib_count(zb@, w as int, h as int, cx as int, cy as int, depth as int,
                bias as int, radius as int, i as int,
            ) <= 64,
        decreases 64 - i,
    {
        let sd = compute_fibonacci_spiral_disk_sample_uniform(i, FIB_COUNT_INV);
        let ox = fx_clamp(fx_round(fx_mul(radius_fx, sd.x)), -0x4000, 0x4000);
        let oy = fx_clamp(fx_round(fx_mul(radius_fx, sd.y)), -0x4000, 0x4000);
        proof {
            lemma_pcf_fib_count_bound(zb@, w as int, h as int, cx as int, cy as int,
                depth as int, bias as int, radius as int, i as int + 1,
            );
        }
        if texel_lit_exec(zb, w, h, cx, cy, depth, bias, ox, oy) {
            count = count + 1;
        }
        i = i + 1;
    }
    proof {
        assert(sat64(64 * FX_ONE as int) == 64 * FX_ONE as int);
    }
    fx_div(fx_from_int(count), fx_from_int(64))
}

proof fn lemma_pcf_fib_count_bound(
    zb: Seq<i64>,
    w: int,
    h: int,
    cx: int,
    cy: int,
    depth: int,
    bias: int,
    radius: int,
    i: int,
)
    ensures
        0 <= pcf_fib_count(zb, w, h, cx, cy, depth, bias, radius, i) <= (if i >= 64 {
            0
        } else {
            64 - i
        }),
    decreases 64 - i,
{
    if i < 64 {
        lemma_pcf_fib_count_bound(zb, w, h, cx, cy, depth, bias, radius, i + 1);
    }
}

} // verus!
