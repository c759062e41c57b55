//! The deferred shading pass: for every covered pixel, each light adds an
//! ambient term, and (when the point is visible to it) a Lambertian diffuse
//! and a Blinn-Phong specular term, accumulated over the glow value. A pixel
//! inside a light's blurred penumbra mask pays for the soft-shadow (PCSS)
//! query; every other pixel uses the cheap DIRECT test.
//!
//! The shading strategy is fixed when the scene is built: this textured
//! Blinn-Phong shader is the single strategy the renderer ships, so the
//! render pass calls it directly rather than through a configurable slot.

use vstd::prelude::*;

use crate::directional_light::{dir_direct, dir_in_penumbra, dir_pcss, dir_dims_wf, dir_map_wf,
    dir_mask_wf, DirectionalLight};
use crate::fx::{fadd, fmul, fneg, fx_mul, FX_EPS, FX_ONE};
use crate::light::{point_light_intensity, ShadowMethod};
use crate::raster::{gbuf_wf, pix_idx, state_at, GBuffer, PixelState, Z_EMPTY};
use crate::spot_light::{spot_direct, spot_dims_wf, spot_in_penumbra, spot_map_wf, spot_mask_wf,
    spot_pcss, SpotLight};
use crate::vec::{add3, cmul3, dot3, neg3, norm3, scale3, sub3, Vec3, V3};

verus! {

/// The Blinn-Phong specular exponent.
pub const SHININESS: usize = 150;

/// The fixed ambient intensity (0.05 per channel).
pub const AMBIENT: i64 = 3277;

/// One light of a scene: the closed set of variants the shader dispatches
/// over.
pub enum SceneLight {
    Spot(SpotLight),
    Directional(DirectionalLight),
}

/// A scene light whose shadow state is ready for visibility queries.
pub open spec fn scene_light_wf(l: SceneLight, w: int, h: int) -> bool {
    match l {
        SceneLight::Spot(s) => spot_dims_wf(s) && spot_map_wf(s) && ((s.enable_shadow
            && s.enable_penumbra_mask) ==> spot_mask_wf(s) && s.penumbra_mask_width as int == (w
            + 3) / 4 && s.penumbra_mask_height as int == (h + 3) / 4),
        SceneLight::Directional(d) => dir_dims_wf(d) && dir_map_wf(d) && ((d.enable_shadow
            && d.enable_penumbra_mask) ==> dir_mask_wf(d) && d.penumbra_mask_width as int == (w
            + 3) / 4 && d.penumbra_mask_height as int == (h + 3) / 4),
    }
}

/// The visibility a light reports for a shaded point: the soft-shadow query
/// inside the light's penumbra mask, the cheap DIRECT test outside it.
pub open spec fn light_visibility(l: SceneLight, point: V3, normal: V3, x: int, y: int) -> int {
    match l {
        SceneLight::Spot(s) => if spot_in_penumbra(s, x, y) {
            spot_pcss(s, point, normal)
        } else {
            spot_direct(s, point, normal)
        },
        SceneLight::Directional(d) => if dir_in_penumbra(d, x, y) {
            dir_pcss(d, point, normal)
        } else {
            dir_direct(d, point, normal)
        },
    }
}

/// The direction light travels toward a point.
pub open spec fn light_dir_of(l: SceneLight, point: V3) -> V3 {
    match l {
        SceneLight::Spot(s) => norm3(sub3(point, s.light.pos@)),
        SceneLight::Directional(d) => d.light_dir@,
    }
}

/// The intensity a light delivers at a point.
pub open spec fn light_intensity_of(l: SceneLight, point: V3) -> V3 {
    match l {
        SceneLight::Spot(s) => point_light_intensity(s.light.intensity@, s.light.pos@, point),
        SceneLight::Directional(d) => d.light.intensity@,
    }
}

/// A fixed-point power by repeated multiplication.
pub open spec fn fx_pow(x: int, n: nat) -> int
    decreases n,
{
    if n == 0 {
        FX_ONE as int
    } else {
        fmul(fx_pow(x, (n - 1) as nat), x)
    }
}

/// What one light adds to a pixel's color: the ambient term always, and the
/// visibility-weighted diffuse and specular terms unless the light reports
/// (near-)zero visibility.
pub open spec fn shade_one_light(
    l: SceneLight,
    s: PixelState,
    eye: V3,
    x: int,
    y: int,
    acc: V3,
) -> V3 {
    let ambient = cmul3(s.diffuse, V3 { x: AMBIENT as int, y: AMBIENT as int, z: AMBIENT
        as int });
    let acc1 = add3(acc, ambient);
    let vis = light_visibility(l, s.pos, s.normal, x, y);
    if vis < FX_EPS as int {
        acc1
    } else {
        let view_dir = norm3(sub3(s.pos, eye));
        let light_dir = light_dir_of(l, s.pos);
        let light_intensity = light_intensity_of(l, s.pos);
        let half_dir = neg3(norm3(add3(view_dir, light_dir)));
        let dterm = {
            let d = fneg(dot3(light_dir, s.normal));
            if d >= 0 {
                d
            } else {
                0
            }
        };
        let diffuse = scale3(dterm, cmul3(s.diffuse, light_intensity));
        let sterm = {
            let d = dot3(half_dir, s.normal);
            if d >= 0 {
                d
            } else {
                0
            }
        };
        let specular = scale3(fx_pow(sterm, SHININESS as nat), cmul3(s.specular,
            light_intensity));
        add3(acc1, scale3(vis, add3(diffuse, specular)))
    }
}

/// A pixel's color after all lights, folded in order over the accumulator.
pub open spec fn shade_lights(
    ls: Seq<SceneLight>,
    s: PixelState,
    eye: V3,
    x: int,
    y: int,
    acc: V3,
) -> V3
    decreases ls.len(),
{
    if ls.len() == 0 {
        acc
    } else {
        shade_lights(ls.skip(1), s, eye, x, y, shade_one_light(ls[0], s, eye, x, y, acc))
    }
}

/// The shaded color of one covered pixel: the glow value plus every light's
/// contribution.
pub open spec fn shade_pixel(
    ls: Seq<SceneLight>,
    s: PixelState,
    eye: V3,
    x: int,
    y: int,
) -> V3 {
    shade_lights(ls, s, eye, x, y, s.glow)
}

fn fx_pow_exec(x: i64, n: usize) -> (r: i64)
    ensures
        r as int == fx_pow(x as int, n as nat),
{
    let mut r: i64 = FX_ONE;
    let mut i: usize = 0;
    while i < n
        invariant
            i <= n,
            r as int == fx_pow(x as int, i as nat),
        decreases n - i,
    {
        r = fx_mul(r, x);
        i = i + 1;
    }
    r
}

fn shade_one_light_exec(l: &SceneLight, s: &PixelStateExec, eye: &Vec3, x: usize, y: usize,
    acc: Vec3, w: usize, h: usize,
) -> (r: Vec3)
    requires
        scene_light_wf(*l, w as int, h as int),
        x < w,
        y < h,
        w <= 0x4000,
        h <= 0x4000,
    ensures
        r@ == shade_one_light(*l, s@, eye@, x as int, y as int, acc@),
{
    let ambient = s.diffuse.cmul(&Vec3 { x: AMBIENT, y: AMBIENT, z: AMBIENT });
    let acc1 = acc.add(&ambient);
    let vis = match l {
        SceneLight::Spot(sl) => {
            proof {
                if sl.enable_shadow && sl.enable_penumbra_mask {
                    assert(x as int / 4 < (w as int + 3) / 4);
                    assert(y as int / 4 < (h as int + 3) / 4);
                }
            }
            if sl.in_penumbra_mask(x, y) {
                sl.in_shadow(&s.pos, &s.normal, ShadowMethod::PCSS)
            } else {
                sl.in_shadow(&s.pos, &s.normal, ShadowMethod::DIRECT)
            }
        },
        SceneLight::Directional(dl) => {
            proof {
                if dl.enable_shadow && dl.enable_penumbra_mask {
                    assert(x as int / 4 < (w as int + 3) / 4);
                    assert(y as int / 4 < (h as int + 3) / 4);
                }
            }
            if dl.in_penumbra_mask(x, y) {
                dl.in_shadow(&s.pos, &s.normal, ShadowMethod::PCSS)
            } else {
                dl.in_shadow(&s.pos, &s.normal, ShadowMethod::DIRECT)
            }
        },
    };
    if vis < FX_EPS {
        return acc1;
    }
    let view_dir = s.pos.sub(eye).normalize();
    let light_dir = match l {
        SceneLight::Spot(sl) => sl.compute_world_light_dir(&s.pos),
        SceneLight::Directional(dl) => dl.compute_world_light_dir(&s.pos),
    };
    let light_intensity = match l {
        SceneLight::Spot(sl) => sl.compute_world_light_intensity(&s.pos),
        SceneLight::Directional(dl) => dl.compute_world_light_intensity(&s.pos),
    };
    let half_dir = view_dir.add(&light_dir).normalize().neg();
    let dterm = {
        let d = crate::fx::fx_neg(light_dir.dot(&s.normal));
        if d >= 0 {
            d
        } else {
            0
        }
    };
    let diffuse = s.diffuse.cmul(&light_intensity).scale(dterm);
    proof {
        assert(diffuse@ == scale3(dterm as int, cmul3(s@.diffuse, light_intensity@)));
    }
    let sterm = {
        let d = half_dir.dot(&s.normal);
        if d >= 0 {
            d
        } else {
            0
        }
    };
    let specular = s.specular.cmul(&light_intensity).scale(fx_pow_exec(sterm, SHININESS));
    acc1.add(&diffuse.add(&specular).scale(vis))
}

/// An executable pixel state handed to the shader.
pub struct PixelStateExec {
    pub z: i64,
    pub pos: Vec3,
    pub normal: Vec3,
    pub diffuse: Vec3,
    pub specular: Vec3,
    pub glow: Vec3,
}

impl View for PixelStateExec {
    type V = PixelState;

    open spec fn view(&self) -> PixelState {
        PixelState {
            z: self.z as int,
            pos: self.pos@,
            normal: self.normal@,
            diffuse: self.diffuse@,
            specular: self.specular@,
            glow: self.glow@,
        }
    }
}

/// Shade every covered pixel of a row block into the frame buffer; pixels
/// with the empty depth sentinel, and every other buffer, are untouched.
#[verifier::rlimit(100)]
pub fn default_texture_shader(
    g: &mut GBuffer,
    lights: &Vec<SceneLight>,
    eye_pos: &Vec3,
    start_row: usize,
    block_row: usize,
)
    requires
        gbuf_wf(*old(g)),
        1 <= block_row,
        start_row + block_row <= old(g).height,
        1 <= old(g).width,
        forall|k: int| 0 <= k < lights@.len() ==> scene_light_wf(
            #[trigger] lights@[k],
            old(g).width as int,
            old(g).height as int,
        ),
    ensures
        gbuf_wf(*final(g)),
        *final(g) == (GBuffer { frame: final(g).frame, ..*old(g) }),
        final(g).frame@.len() == old(g).frame@.len(),
        forall|x: int, y: int|
            #![trigger pix_idx(old(g).width as int, x, y)]
            0 <= x < old(g).width && 0 <= y < old(g).height ==> final(g).frame@[pix_idx(
                old(g).width as int,
                x,
                y,
            )]@ == (if start_row <= y < start_row + block_row && old(g).z@[pix_idx(
                old(g).width as int,
                x,
                y,
            )] != Z_EMPTY {
                shade_pixel(lights@, state_at(*old(g), pix_idx(old(g).width as int, x, y)),
                    eye_pos@, x, y,
                )
            } else {
                old(g).frame@[pix_idx(old(g).width as int, x, y)]@
            }),
{
    let ghost g0 = *g;
    let ghost w = g.width as int;
    let ghost h = g.height as int;
    let wexec = g.width;
    let end_row = start_row + block_row;
    let mut y: usize = start_row;
    while y < end_row
        invariant
            gbuf_wf(*g),
            *g == (GBuffer { frame: g.frame, ..g0 }),
            g.frame@.len() == g0.frame@.len(),
            w == g0.width as int,
            h == g0.height as int,
            wexec == g0.width,
            1 <= g0.width,
            start_row <= y <= end_row,
            end_row == start_row + block_row,
            end_row <= g0.height,
            forall|k: int| 0 <= k < lights@.len() ==> scene_light_wf(#[trigger] lights@[k], w,
                h,
            ),
            forall|x2: int, y2: int|
                #![trigger pix_idx(w, x2, y2)]
                0 <= x2 < w && 0 <= y2 < h ==> g.frame@[pix_idx(w, x2, y2)]@ == (if start_row
                    <= y2 < y && g0.z@[pix_idx(w, x2, y2)] != Z_EMPTY {
                    shade_pixel(lights@, state_at(g0, pix_idx(w, x2, y2)), eye_pos@, x2, y2)
                } else {
                    g0.frame@[pix_idx(w, x2, y2)]@
                }),
        decreases end_row - y,
    {
        let mut x: usize = 0;
        while x < wexec
            invariant
                gbuf_wf(*g),
                *g == (GBuffer { frame: g.frame, ..g0 }),
                g.frame@.len() == g0.frame@.len(),
                w == g0.width as int,
                h == g0.height as int,
                wexec == g0.width,
                1 <= g0.width,
                start_row <= y < end_row,
                end_row == start_row + block_row,
                end_row <= g0.height,
                x <= wexec,
                forall|k: int| 0 <= k < lights@.len() ==> scene_light_wf(
                    #[trigger] lights@[k],
                    w,
                    h,
                ),
                forall|x2: int, y2: int|
                    #![trigger pix_idx(w, x2, y2)]
                    0 <= x2 < w && 0 <= y2 < h ==> g.frame@[pix_idx(w, x2, y2)]@ == (if (
                    start_row <= y2 < y || (y2 == y && 0 <= x2 < x)) && g0.z@[pix_idx(w, x2,
                        y2,
                    )] != Z_EMPTY {
                        shade_pixel(lights@, state_at(g0, pix_idx(w, x2, y2)), eye_pos@, x2, y2)
                    } else {
                        g0.frame@[pix_idx(w, x2, y2)]@
                    }),
            decreases wexec - x,
        {
            proof {
                crate::shader::lemma_shader_pix(w, h, x as int, y as int);
            }
            let i = y * g.width + x;
            proof {
                assert(i == pix_idx(w, x as int, y as int));
            }
            let ghost gpre = *g;
            if g.z[i] != Z_EMPTY {
                let st = PixelStateExec {
                    z: g.z[i],
                    pos: g.pos[i],
                    normal: g.normal[i],
                    diffuse: g.diffuse[i],
                    specular: g.specular[i],
                    glow: g.glow[i],
                };
                proof {
                    assert(st@ == state_at(g0, pix_idx(w, x as int, y as int)));
                }
                let color = shade_pixel_exec(lights, &st, eye_pos, x, y, g.width, g.height);
                g.frame.set(i, color);
            }
            proof {
                assert forall|x2: int, y2: int| 0 <= x2 < w && 0 <= y2 < h implies g.frame@[
                    #[trigger] pix_idx(w, x2, y2)
                ]@ == (if (start_row <= y2 < y || (y2 == y && 0 <= x2 < x + 1)) && g0.z@[pix_idx(
                    w,
                    x2,
                    y2,
                )] != Z_EMPTY {
                    shade_pixel(lights@, state_at(g0, pix_idx(w, x2, y2)), eye_pos@, x2, y2)
                } else {
                    g0.frame@[pix_idx(w, x2, y2)]@
                }) by {
                    lemma_shader_pix(w, h, x2, y2);
                    if !(x2 == x as int && y2 == y as int) {
                        if pix_idx(w, x2, y2) == pix_idx(w, x as int, y as int) {
                            crate::shader::lemma_shader_pix_inj(w, x2, y2, x as int, y as int);
                        }
                        assert(g.frame@[pix_idx(w, x2, y2)] == gpre.frame@[pix_idx(w, x2, y2)]);
                    }
                }
            }
            x = x + 1;
        }
        y = y + 1;
    }
}

fn shade_pixel_exec(lights: &Vec<SceneLight>, s: &PixelStateExec, eye: &Vec3, x: usize,
    y: usize, w: usize, h: usize,
) -> (r: Vec3)
    requires
        forall|k: int| 0 <= k < lights@.len() ==> scene_light_wf(#[trigger] lights@[k], w as int,
            h as int,
        ),
        x < w,
        y < h,
        w <= 0x4000,
        h <= 0x4000,
    ensures
        r@ == shade_pixel(lights@, s@, eye@, x as int, y as int),
{
    let mut acc = s.glow;
    let n = lights.len();
    let mut k: usize = 0;
    proof {
        assert(lights@.skip(0) =~= lights@);
    }
    while k < n
        invariant
            n == lights@.len(),
            k <= n,
            x < w,
            y < h,
            w <= 0x4000,
            h <= 0x4000,
            forall|j: int| 0 <= j < lights@.len() ==> scene_light_wf(#[trigger] lights@[j],
                w as int, h as int,
            ),
            shade_lights(lights@.skip(k as int), s@, eye@, x as int, y as int, acc@)
                == shade_pixel(lights@, s@, eye@, x as int, y as int),
        decreases n - k,
    {
        let l = &lights[k];
        proof {
            assert(lights@.skip(k as int)[0] == lights@[k as int]);
            assert(lights@.skip(k as int).skip(1) =~= lights@.skip(k as int + 1));
        }
        acc = shade_one_light_exec(l, s, eye, x, y, acc, w, h);
        k = k + 1;
    }
    proof {
        assert(lights@.skip(n as int) =~= Seq::<SceneLight>::empty());
    }
    acc
}

proof fn lemma_shader_pix(w: int, h: int, x: int, y: int)
    requires
        0 <= x < w,
        0 <= y < h,
        w <= 0x4000,
        h <= 0x4000,
    ensures
        0 <= pix_idx(w, x, y) < w * h,
        w * h <= 0x10000000,
{
    assert(0 <= y * w + x < w * h && w * h <= 0x10000000) by (nonlinear_arith)
        requires
            0 <= x < w,
            0 <= y < h,
            w <= 0x4000,
            h <= 0x4000,
    ;
}

proof fn lemma_shader_pix_inj(w: int, x1: int, y1: int, x2: int, y2: int)
    requires
        0 <= x1 < w,
        0 <= x2 < w,
        0 <= y1,
        0 <= y2,
        pix_idx(w, x1, y1) == pix_idx(w, x2, y2),
    ensures
        x1 == x2 && y1 == y2,
{
    assert(y1 * w + x1 == y2 * w + x2 ==> (x1 == x2 && y1 == y2)) by (nonlinear_arith)
        requires
            0 <= x1 < w,
            0 <= x2 < w,
            0 <= y1,
            0 <= y2,
    ;
}

} // verus!
