//! The scene orchestrator: camera state, the per-pixel buffers, and the
//! models and lights, with the per-frame render sequence
//! clear, build shadow maps, clip and project, rasterize, build and blur the
//! penumbra masks, shade. Each phase runs to completion before the next
//! starts, and every phase's effect on the buffers is stated exactly.

use vstd::prelude::*;

use crate::camera::{get_projection_matrix, get_view_matrix, projection_mat, view_mat};
use crate::directional_light::{dir_depth_scale, dir_dims_wf, dir_map_wf, dir_pixel_radius,
    DirectionalLight};
use crate::fx::{fclamp, fmul, fx_clamp, fx_div, fx_from_int, fx_mul, fx_round, fx_round_spec,
    sat64, FX_ONE};
use crate::light::LIGHT_Z_EMPTY;
use crate::mask::{box_avg_2d, MASK_RADIUS_MAX};
use crate::model::{apply_model_seq, apply_shadow_model_seq, empty_model_g,
    lemma_clipped_of_same_core, lemma_core_of_prepared, lemma_wf_of_same_core, model_clipped,
    model_core, model_ndc, model_view, model_wf, models_prepared, Model, ModelG};
use crate::raster::{cleared_pixel, gbuf_wf, pix_idx, state_at, GBuffer, BG_GREY, Z_EMPTY};
use crate::shader::{default_texture_shader, scene_light_wf, shade_pixel, SceneLight};
use crate::spot_light::{penumbra_cell, spot_dims_wf, spot_map_wf, spot_pixel_radius, SpotLight};
use crate::vec::{ident4, mul4m, Mat4, Vec3, M4, V3};

verus! {

broadcast use vstd::seq::axiom_seq_index_decreases, vstd::std_specs::vec::axiom_vec_index_decreases;

/// The ghost views of a list of models.
pub open spec fn model_views(ms: Seq<Model>) -> Seq<ModelG> {
    Seq::new(ms.len(), |i: int| if 0 <= i < ms.len() {
        model_view(ms[i])
    } else {
        empty_model_g()
    })
}

/// A scene light whose projection settings and depth map are usable.
pub open spec fn scene_light_ready(l: SceneLight) -> bool {
    match l {
        SceneLight::Spot(s) => spot_dims_wf(s) && spot_map_wf(s),
        SceneLight::Directional(d) => dir_dims_wf(d) && dir_map_wf(d),
    }
}

/// A scene with fixed pixel dimensions.
pub struct Scene {
    pub eye_pos: Vec3,
    pub view_dir: Vec3,
    pub tan_half_fov: i64,
    pub aspect_ratio: i64,
    pub z_near: i64,
    pub z_far: i64,
    pub width: usize,
    pub height: usize,
    pub gbuf: GBuffer,
    pub models: Vec<Model>,
    pub lights: Vec<SceneLight>,
}

/// A renderable scene: dimensions within the machine limits, positive
/// projection parameters, well-formed models, ready lights.
pub open spec fn scene_wf(s: Scene) -> bool {
    &&& 1 <= s.width <= 0x4000
    &&& 1 <= s.height <= 0x4000
    &&& s.tan_half_fov > 0
    &&& s.aspect_ratio > 0
    &&& s.z_near != s.z_far
    &&& (forall|i: int| 0 <= i < s.models@.len() ==> model_wf(model_view(
        #[trigger] s.models@[i],
    )))
    &&& (forall|i: int| 0 <= i < s.lights@.len() ==> scene_light_ready(#[trigger] s.lights@[i]))
}

/// What one byte of the packed image holds: the channel clamped to [0, 1],
/// scaled to [0, 255] and rounded.
pub open spec fn channel_byte(v: int) -> int {
    fx_round_spec(fmul(fclamp(v, 0, FX_ONE as int), sat64(255 * FX_ONE as int)))
}

impl Scene {
    /// A scene with the default camera over fresh buffers of the given size.
    pub fn new(width: usize, height: usize) -> (r: Scene)
        requires
            1 <= width <= 0x4000,
            1 <= height <= 0x4000,
        ensures
            scene_wf(r),
            r.width == width,
            r.height == height,
            r.models@.len() == 0,
            r.lights@.len() == 0,
            gbuf_wf(r.gbuf),
            r.gbuf.width == width,
            r.gbuf.height == height,
    {
        Scene {
            eye_pos: Vec3::zero(),
            view_dir: Vec3 { x: 0, y: 0, z: -FX_ONE },
            tan_half_fov: 27146,
            aspect_ratio: FX_ONE,
            z_near: -6554,
            z_far: -6553600,
            width,
            height,
            gbuf: GBuffer::new(width, height),
            models: Vec::new(),
            lights: Vec::new(),
        }
    }

    /// Attach a model; it is mutated in place by later transform calls and
    /// rendered every frame.
    pub fn add_model(&mut self, model: Model)
        requires
            model_wf(model_view(model)),
        ensures
            *final(self) == (Scene { models: final(self).models, ..*old(self) }),
            final(self).models@ == old(self).models@.push(model),
    {
        self.models.push(model);
    }

    /// Detach the model at an index (models are tracked by their slot).
    pub fn delete_model(&mut self, index: usize)
        requires
            index < old(self).models@.len(),
        ensures
            *final(self) == (Scene { models: final(self).models, ..*old(self) }),
            final(self).models@ == old(self).models@.remove(index as int),
    {
        let _ = self.models.remove(index);
    }

    /// Attach a light.
    pub fn add_light(&mut self, light: SceneLight)
        requires
            scene_light_ready(light),
        ensures
            *final(self) == (Scene { lights: final(self).lights, ..*old(self) }),
            final(self).lights@ == old(self).lights@.push(light),
    {
        self.lights.push(light);
    }

    /// Detach the light at an index.
    pub fn delete_light(&mut self, index: usize)
        requires
            index < old(self).lights@.len(),
        ensures
            *final(self) == (Scene { lights: final(self).lights, ..*old(self) }),
            final(self).lights@ == old(self).lights@.remove(index as int),
    {
        let _ = self.lights.remove(index);
    }

    /// The row-major index of pixel (x, y).
    pub fn get_index(&self, x: i32, y: i32) -> (r: i32)
        requires
            0 <= x < self.width,
            0 <= y < self.height,
            self.width <= 0x4000,
            self.height <= 0x4000,
        ensures
            r as int == pix_idx(self.width as int, x as int, y as int),
    {
        proof {
            assert(0 <= y * self.width + x < 0x10000000 && self.width as int * y == y
                * self.width as int) by (nonlinear_arith)
                requires
                    0 <= x < self.width,
                    0 <= y < self.height,
                    self.width <= 0x4000,
                    self.height <= 0x4000,
            ;
        }
        self.width as i32 * y + x
    }

    /// The index of the coarse penumbra cell behind pixel (x, y), with the
    /// full-resolution width as the row stride.
    pub fn get_penumbra_mask_index(&self, x: i32, y: i32) -> (r: i32)
        requires
            0 <= x < self.width,
            0 <= y < self.height,
            self.width <= 0x4000,
            self.height <= 0x4000,
        ensures
            r as int == self.width as int * ((y as int) / 4) + (x as int) / 4,
    {
        proof {
            assert(0 <= self.width as int * ((y as int) / 4) + (x as int) / 4 < 0x10000000)
                by (nonlinear_arith)
                requires
                    0 <= x < self.width,
                    0 <= y < self.height,
                    self.width <= 0x4000,
                    self.height <= 0x4000,
            ;
        }
        self.width as i32 * (y / 4) + (x / 4)
    }

    /// Move the camera.
    pub fn set_eye_pos(&mut self, eye_pos: Vec3)
        ensures
            *final(self) == (Scene { eye_pos, ..*old(self) }),
    {
        self.eye_pos = eye_pos;
    }

    /// The camera position.
    pub fn get_eye_pos(&self) -> (r: Vec3)
        ensures
            r == self.eye_pos,
    {
        self.eye_pos
    }

    /// Point the camera (the direction is normalized on the way in).
    pub fn set_view_dir(&mut self, view_dir: Vec3)
        ensures
            final(self).view_dir@ == crate::vec::norm3(view_dir@),
            *final(self) == (Scene { view_dir: final(self).view_dir, ..*old(self) }),
    {
        self.view_dir = view_dir.normalize();
    }

    /// The camera direction.
    pub fn get_view_dir(&self) -> (r: Vec3)
        ensures
            r == self.view_dir,
    {
        self.view_dir
    }

    /// Change the tangent of half the vertical field of view.
    pub fn set_fov(&mut self, tan_half_fov: i64)
        requires
            tan_half_fov > 0,
        ensures
            *final(self) == (Scene { tan_half_fov, ..*old(self) }),
    {
        self.tan_half_fov = tan_half_fov;
    }

    /// The tangent of half the vertical field of view.
    pub fn get_fov(&self) -> (r: i64)
        ensures
            r == self.tan_half_fov,
    {
        self.tan_half_fov
    }

    /// Change the aspect ratio.
    pub fn set_aspect_ratio(&mut self, aspect_ratio: i64)
        requires
            aspect_ratio > 0,
        ensures
            *final(self) == (Scene { aspect_ratio, ..*old(self) }),
    {
        self.aspect_ratio = aspect_ratio;
    }

    /// The aspect ratio.
    pub fn get_aspect_ratio(&self) -> (r: i64)
        ensures
            r == self.aspect_ratio,
    {
        self.aspect_ratio
    }

    /// Change the near plane (a negative view depth).
    pub fn set_z_near(&mut self, z_near: i64)
        requires
            z_near != old(self).z_far,
        ensures
            *final(self) == (Scene { z_near, ..*old(self) }),
    {
        self.z_near = z_near;
    }

    /// The near plane.
    pub fn get_z_near(&self) -> (r: i64)
        ensures
            r == self.z_near,
    {
        self.z_near
    }

    /// Change the far plane (a negative view depth).
    pub fn set_z_far(&mut self, z_far: i64)
        requires
            z_far != old(self).z_near,
        ensures
            *final(self) == (Scene { z_far, ..*old(self) }),
    {
        self.z_far = z_far;
    }

    /// The far plane.
    pub fn get_z_far(&self) -> (r: i64)
        ensures
            r == self.z_far,
    {
        self.z_far
    }

    /// Change the image width.
    pub fn set_width(&mut self, width: usize)
        requires
            1 <= width <= 0x4000,
        ensures
            *final(self) == (Scene { width, ..*old(self) }),
    {
        self.width = width;
    }

    /// The image width.
    pub fn get_width(&self) -> (r: usize)
        ensures
            r == self.width,
    {
        self.width
    }

    /// Change the image height.
    pub fn set_height(&mut self, height: usize)
        requires
            1 <= height <= 0x4000,
        ensures
            *final(self) == (Scene { height, ..*old(self) }),
    {
        self.height = height;
    }

    /// The image height.
    pub fn get_height(&self) -> (r: usize)
        ensures
            r == self.height,
    {
        self.height
    }

    /// Borrow the frame buffer (row-major RGB triples, bottom row first).
    pub fn get_frame_buffer(&self) -> (r: &Vec<Vec3>)
        ensures
            r == self.gbuf.frame,
    {
        &self.gbuf.frame
    }

    /// Pack the frame buffer as 8-bit RGB rows, top row first, every channel
    /// clamped to [0, 1] before scaling.
    pub fn to_rgb_bytes(&self) -> (r: Vec<u8>)
        requires
            gbuf_wf(self.gbuf),
            self.gbuf.width == self.width,
            self.gbuf.height == self.height,
            1 <= self.width <= 0x4000,
            1 <= self.height <= 0x4000,
        ensures
            r@.len() == self.width * self.height * 3,
            forall|x: int, y: int|
                #![trigger pix_idx(self.width as int, x, y)]
                0 <= x < self.width && 0 <= y < self.height ==> {
                    let src = self.gbuf.frame@[pix_idx(self.width as int, x, y)]@;
                    let base = 3 * (self.width as int * (self.height as int - y - 1) + x);
                    &&& r@[base] as int == channel_byte(src.x)
                    &&& r@[base + 1] as int == channel_byte(src.y)
                    &&& r@[base + 2] as int == channel_byte(src.z)
                },
    {
        let w = self.width;
        let h = self.height;
        proof {
            assert(w * h * 3 <= 0x30000000) by (nonlinear_arith)
                requires
                    w <= 0x4000,
                    h <= 0x4000,
            ;
        }
        let mut out: Vec<u8> = Vec::new();
        let mut row: usize = 0;
        while row < h
            invariant
                gbuf_wf(self.gbuf),
                self.gbuf.width == w,
                self.gbuf.height == h,
                1 <= w <= 0x4000,
                1 <= h <= 0x4000,
                row <= h,
                out@.len() == row * w * 3,
                forall|x: int, y: int|
                    #![trigger pix_idx(w as int, x, y)]
                    0 <= x < w && h - row <= y < h ==> {
                        let src = self.gbuf.frame@[pix_idx(w as int, x, y)]@;
                        let base = 3 * (w as int * (h as int - y - 1) + x);
                        &&& out@[base] as int == channel_byte(src.x)
                        &&& out@[base + 1] as int == channel_byte(src.y)
                        &&& out@[base + 2] as int == channel_byte(src.z)
                    },
            decreases h - row,
        {
            let y = h - 1 - row;
            let mut x: usize = 0;
            while x < w
                invariant
                    gbuf_wf(self.gbuf),
                    self.gbuf.width == w,
                    self.gbuf.height == h,
                    1 <= w <= 0x4000,
                    1 <= h <= 0x4000,
                    row < h,
                    y == h - 1 - row,
                    x <= w,
                    out@.len() == row * w * 3 + x * 3,
                    forall|x2: int, y2: int|
                        #![trigger pix_idx(w as int, x2, y2)]
                        (0 <= x2 < w && h - row <= y2 < h) || (y2 == y && 0 <= x2 < x) ==> {
                            let src = self.gbuf.frame@[pix_idx(w as int, x2, y2)]@;
                            let base = 3 * (w as int * (h as int - y2 - 1) + x2);
                            &&& out@[base] as int == channel_byte(src.x)
                            &&& out@[base + 1] as int == channel_byte(src.y)
                            &&& out@[base + 2] as int == channel_byte(src.z)
                        },
                decreases w - x,
            {
                proof {
                    assert(0 <= pix_idx(w as int, x as int, y as int) < w * h)
                        by (nonlinear_arith)
                        requires
                            0 <= x < w,
                            0 <= y < h,
                    ;
                    assert(w * h <= 0x10000000) by (nonlinear_arith)
                        requires
                            w <= 0x4000,
                            h <= 0x4000,
                    ;
                    assert(row * w * 3 + x * 3 == 3 * (w as int * (h as int - y as int - 1)
                        + x as int)) by (nonlinear_arith)
                        requires
                            y == h - 1 - row,
                            row < h,
                            x < w,
                    ;
                }
                let i = y * w + x;
                proof {
                    assert(i == pix_idx(w as int, x as int, y as int));
                }
                let c = self.gbuf.frame[i];
                let ghost pre = out@;
                out.push(pack_channel(c.x));
                out.push(pack_channel(c.y));
                out.push(pack_channel(c.z));
                proof {
                    assert forall|x2: int, y2: int| (0 <= x2 < w && h - row <= y2 < h) || (y2
                        == y && 0 <= x2 < x + 1) implies {
                        let src = self.gbuf.frame@[#[trigger] pix_idx(w as int, x2, y2)]@;
                        let base = 3 * (w as int * (h as int - y2 - 1) + x2);
                        &&& 0 <= base && base + 2 < out@.len()
                        &&& out@[base] as int == channel_byte(src.x)
                        &&& out@[base + 1] as int == channel_byte(src.y)
                        &&& out@[base + 2] as int == channel_byte(src.z)
                    } by {
                        let base = 3 * (w as int * (h as int - y2 - 1) + x2);
                        if x2 == x as int && y2 == y as int {
                            assert(base == pre.len()) by (nonlinear_arith)
                                requires
                                    base == 3 * (w as int * (h as int - y2 - 1) + x2),
                                    x2 == x as int,
                                    y2 == y as int,
                                    y == h - 1 - row,
                                    pre.len() == row * w * 3 + x * 3,
                            ;
                        } else {
                            assert((0 <= x2 < w && h - row <= y2 < h) || (y2 == y as int && 0
                                <= x2 < x as int));
                            if y2 == y as int {
                                assert(0 <= base && base + 2 < pre.len()) by (nonlinear_arith)
                                    requires
                                        base == 3 * (w as int * (h as int - y2 - 1) + x2),
                                        y2 == h - 1 - row,
                                        0 <= x2 < x,
                                        x < w,
                                        row < h,
                                        pre.len() == row * w * 3 + x * 3,
                                ;
                            } else {
                                assert(h - row <= y2 < h);
                                assert(0 <= h as int - y2 - 1 < row);
                                assert(0 <= base && base + 2 < 3 * (row * w as int))
                                    by (nonlinear_arith)
                                    requires
                                        base == 3 * (w as int * (h as int - y2 - 1) + x2),
                                        0 <= h as int - y2 - 1 < row,
                                        0 <= x2 < w,
                                        1 <= w,
                                ;
                                assert(3 * (row * w as int) <= pre.len()) by (nonlinear_arith)
                                    requires
                                        pre.len() == row * w * 3 + x * 3,
                                        0 <= x,
                                        0 <= row,
                                        0 <= w,
                                ;
                            }
                            assert(out@[base] == pre[base] && out@[base + 1] == pre[base + 1]
                                && out@[base + 2] == pre[base + 2]);
                        }
                    }
                }
                x = x + 1;
            }
            proof {
                assert(row * w * 3 + w * 3 == (row + 1) * w * 3) by (nonlinear_arith);
            }
            row = row + 1;
        }
        proof {
            assert(h * w * 3 == w * h * 3) by (nonlinear_arith);
        }
        out
    }
}

/// Pack one clamped channel into a byte.
fn pack_channel(v: i64) -> (r: u8)
    ensures
        r as int == channel_byte(v as int),
{
    let c = fx_clamp(v, 0, FX_ONE);
    let scaled = fx_mul(c, fx_from_int(255));
    proof {
        lemma_pack_bounds(c as int);
    }
    let b = fx_round(scaled);
    b as u8
}

proof fn lemma_pack_bounds(c: int)
    requires
        0 <= c <= FX_ONE,
    ensures
        0 <= fx_round_spec(fmul(c, sat64(255 * FX_ONE as int))) <= 255,
{
    let m = fmul(c, sat64(255 * FX_ONE as int));
    assert(0 <= c * (255int * 65536) <= 65536int * (255int * 65536)) by (nonlinear_arith)
        requires
            0 <= c <= 65536,
    ;
    vstd::arithmetic::div_mod::lemma_div_is_ordered(0, c * (255int * 65536), 65536);
    vstd::arithmetic::div_mod::lemma_div_is_ordered(c * (255int * 65536), 65536int * (255 * 65536),
        65536);
    assert(65536int * (255int * 65536) == (255int * 65536) * 65536) by (nonlinear_arith);
    vstd::arithmetic::div_mod::lemma_div_multiples_vanish(255int * 65536, 65536);
    assert(0 <= m <= 255int * 65536);
    vstd::arithmetic::div_mod::lemma_div_is_ordered(0, m + 32768int, 65536);
    vstd::arithmetic::div_mod::lemma_div_is_ordered(m + 32768int, 255int * 65536 + 32768, 65536);
    assert((255int * 65536 + 32768) / 65536 == 255) by {
        vstd::arithmetic::div_mod::lemma_fundamental_div_mod_converse(255int * 65536 + 32768,
            65536, 255, 32768,
        );
    }
}

/// The camera's view matrix for the current frame.
#[verifier::opaque]
pub open spec fn camera_mv(s: Scene) -> M4 {
    mul4m(view_mat(s.eye_pos@, s.view_dir@), ident4())
}

/// The camera's combined projection-view matrix for the current frame.
#[verifier::opaque]
pub open spec fn camera_mvp(s: Scene) -> M4 {
    mul4m(
        projection_mat(s.tan_half_fov as int, s.aspect_ratio as int, s.z_near as int,
            s.z_far as int),
        camera_mv(s),
    )
}

/// What building one spot light's shadow map from the scene geometry leaves
/// of the light (`views0` are the models' ghost trees; only their persistent
/// geometry matters, so it does not matter which projection clipped them
/// last).
#[verifier::opaque]
pub open spec fn spot_after_lookat(a: SpotLight, b: SpotLight, views0: Seq<ModelG>) -> bool {
    if !a.enable_shadow {
        b == a
    } else {
        let mv = mul4m(view_mat(a.light.pos@, a.light_dir@), ident4());
        let mvp = mul4m(
            projection_mat(a.tan_half_fov as int, a.aspect_ratio as int, a.z_near as int,
                a.z_far as int),
            mv,
        );
        let w = a.z_buffer_width as int;
        let h = a.z_buffer_height as int;
        let prepared = models_prepared(views0, mvp, mv, w, h);
        &&& b.mv@ == mv
        &&& b.mvp@ == mvp
        &&& b.fov_factor == a.tan_half_fov
        &&& b.pixel_radius as int == spot_pixel_radius(a)
        &&& b == (SpotLight {
            mvp: b.mvp,
            mv: b.mv,
            fov_factor: b.fov_factor,
            pixel_radius: b.pixel_radius,
            z_buffer: b.z_buffer,
            ..a
        })
        &&& b.z_buffer@.len() == w * h
        &&& forall|x: int, y: int|
            #![trigger pix_idx(w, x, y)]
            0 <= x < w && 0 <= y < h ==> b.z_buffer@[pix_idx(w, x, y)] as int
                == apply_shadow_model_seq(LIGHT_Z_EMPTY as int, prepared, true, true, 0, 0, h, w,
                x, y,
            )
    }
}

/// What building one directional light's shadow map leaves of the light.
#[verifier::opaque]
pub open spec fn dir_after_lookat(a: DirectionalLight, b: DirectionalLight,
    views0: Seq<ModelG>,
) -> bool {
    if !a.enable_shadow {
        b == a
    } else {
        let mv = mul4m(view_mat(a.light.pos@, a.light_dir@), ident4());
        let mvp = mul4m(
            crate::camera::orthographic_mat(a.scale_x as int, a.scale_y as int, a.z_near as int,
                a.z_far as int),
            mv,
        );
        let w = a.z_buffer_width as int;
        let h = a.z_buffer_height as int;
        let prepared = models_prepared(views0, mvp, mv, w, h);
        &&& b.mv@ == mv
        &&& b.mvp@ == mvp
        &&& b.depth_scale as int == dir_depth_scale(a)
        &&& b.pixel_radius as int == dir_pixel_radius(a)
        &&& b == (DirectionalLight {
            mvp: b.mvp,
            mv: b.mv,
            depth_scale: b.depth_scale,
            pixel_radius: b.pixel_radius,
            z_buffer: b.z_buffer,
            ..a
        })
        &&& b.z_buffer@.len() == w * h
        &&& forall|x: int, y: int|
            #![trigger pix_idx(w, x, y)]
            0 <= x < w && 0 <= y < h ==> b.z_buffer@[pix_idx(w, x, y)] as int
                == apply_shadow_model_seq(LIGHT_Z_EMPTY as int, prepared, false, false, 0, 0, h,
                w, x, y,
            )
    }
}

/// What building one light's shadow map leaves of it.
#[verifier::opaque]
pub open spec fn light_after_lookat(a: SceneLight, b: SceneLight, views0: Seq<ModelG>) -> bool {
    match (a, b) {
        (SceneLight::Spot(a0), SceneLight::Spot(b0)) => spot_after_lookat(a0, b0, views0),
        (SceneLight::Directional(a0), SceneLight::Directional(b0)) => dir_after_lookat(
            a0,
            b0,
            views0,
        ),
        _ => false,
    }
}

impl Scene {
    /// Build every light's shadow map from the scene geometry, each light
    /// clipping the models for its own projection. Only the models' scratch
    /// clip triangles change, so the maps are independent of whatever
    /// projection clipped the models before.
    #[verifier::rlimit(100)]
    pub fn build_shadow_maps(&mut self)
        requires
            scene_wf(*old(self)),
        ensures
            scene_wf(*final(self)),
            *final(self) == (Scene {
                models: final(self).models,
                lights: final(self).lights,
                ..*old(self)
            }),
            final(self).models@.len() == old(self).models@.len(),
            forall|j: int| 0 <= j < old(self).models@.len() ==> model_core(model_view(
                #[trigger] final(self).models@[j],
            )) == model_core(model_view(old(self).models@[j])),
            final(self).lights@.len() == old(self).lights@.len(),
            forall|k: int| 0 <= k < old(self).lights@.len() ==> light_after_lookat(
                #[trigger] old(self).lights@[k],
                final(self).lights@[k],
                model_views(old(self).models@),
            ),
    {
        let ghost views0 = model_views(self.models@);
        let ghost lights0 = self.lights@;
        let n = self.lights.len();
        let mut k: usize = 0;
        while k < n
            invariant
                1 <= self.width <= 0x4000,
                1 <= self.height <= 0x4000,
                self.tan_half_fov > 0,
                self.aspect_ratio > 0,
                self.z_near != self.z_far,
                *self == (Scene { models: self.models, lights: self.lights, ..*old(self) }),
                n == self.lights@.len(),
                k <= n,
                lights0 == old(self).lights@,
                views0 == model_views(old(self).models@),
                lights0.len() == n,
                self.models@.len() == views0.len(),
                forall|j: int| 0 <= j < views0.len() ==> model_core(model_view(
                    #[trigger] self.models@[j],
                )) == model_core(views0[j]) && model_wf(model_view(self.models@[j])),
                forall|j: int| k <= j < n ==> self.lights@[j] == #[trigger] lights0[j],
                forall|j: int| 0 <= j < k ==> light_after_lookat(
                    #[trigger] lights0[j],
                    self.lights@[j],
                    views0,
                ) && scene_light_ready(self.lights@[j]),
                forall|j: int| 0 <= j < n ==> scene_light_ready(#[trigger] lights0[j]),
            decreases n - k,
        {
            let ghost views_pre = model_views(self.models@);
            let mut l = self.lights.remove(k);
            build_one_shadow_map(&mut l, &mut self.models);
            self.lights.insert(k, l);
            proof {
                lemma_lookat_from_views0(lights0[k as int], self.lights@[k as int], views_pre,
                    views0,
                );
                assert forall|j: int| 0 <= j < views0.len() implies model_core(model_view(
                    #[trigger] self.models@[j],
                )) == model_core(views0[j]) && model_wf(model_view(self.models@[j])) by {
                    assert(model_core(model_view(self.models@[j])) == model_core(views_pre[j]));
                    lemma_wf_of_same_core(model_view(self.models@[j]), views_pre[j]);
                }
            }
            k = k + 1;
        }
        proof {
            assert forall|i: int| 0 <= i < self.lights@.len() implies scene_light_ready(
                #[trigger] self.lights@[i],
            ) by {
                assert(light_after_lookat(lights0[i], self.lights@[i], views0)
                    && scene_light_ready(self.lights@[i]));
            }
            assert(scene_wf(*self));
        }
    }

    /// The projection matrix the light at an index uses (ghost bookkeeping
    /// for the shadow-map phase).
    pub open spec fn lights_proj_mvp(&self, k: int) -> M4 {
        match self.lights@[k] {
            SceneLight::Spot(b) => b.mvp@,
            SceneLight::Directional(b) => b.mvp@,
        }
    }

    /// The view matrix the light at an index uses.
    pub open spec fn lights_proj_mv(&self, k: int) -> M4 {
        match self.lights@[k] {
            SceneLight::Spot(b) => b.mv@,
            SceneLight::Directional(b) => b.mv@,
        }
    }

    /// The shadow-map width of the light at an index.
    pub open spec fn lights_proj_w(&self, k: int) -> int {
        match self.lights@[k] {
            SceneLight::Spot(b) => b.z_buffer_width as int,
            SceneLight::Directional(b) => b.z_buffer_width as int,
        }
    }

    /// The shadow-map height of the light at an index.
    pub open spec fn lights_proj_h(&self, k: int) -> int {
        match self.lights@[k] {
            SceneLight::Spot(b) => b.z_buffer_height as int,
            SceneLight::Directional(b) => b.z_buffer_height as int,
        }
    }
}


/// Build one light's shadow map from the models, leaving the models'
/// persistent geometry untouched.
#[verifier::rlimit(100)]
fn build_one_shadow_map(l: &mut SceneLight, models: &mut Vec<Model>)
    requires
        scene_light_ready(*old(l)),
        forall|j: int| 0 <= j < old(models)@.len() ==> model_wf(model_view(
            #[trigger] old(models)@[j],
        )),
    ensures
        scene_light_ready(*final(l)),
        light_after_lookat(*old(l), *final(l), model_views(old(models)@)),
        final(models)@.len() == old(models)@.len(),
        forall|j: int| 0 <= j < old(models)@.len() ==> model_core(model_view(
            #[trigger] final(models)@[j],
        )) == model_core(model_view(old(models)@[j])) && model_wf(model_view(
            final(models)@[j],
        )),
{
    proof {
        reveal(light_after_lookat);
        reveal(spot_after_lookat);
        reveal(dir_after_lookat);
    }
    let ghost views_pre = model_views(models@);
    match l {
        SceneLight::Spot(sl) => {
            let ghost a0 = *sl;
            sl.look_at(models);
            proof {
                if a0.enable_shadow {
                    assert forall|j: int| 0 <= j < old(models)@.len() implies model_core(
                        model_view(#[trigger] models@[j]),
                    ) == model_core(model_view(old(models)@[j])) && model_wf(model_view(
                        models@[j],
                    )) by {
                        let prepared = models_prepared(views_pre, sl.mvp@, sl.mv@,
                            a0.z_buffer_width as int, a0.z_buffer_height as int);
                        assert(model_view(models@[j]) == prepared[j]);
                        lemma_core_of_prepared(views_pre[j], sl.mvp@, sl.mv@,
                            a0.z_buffer_width as int, a0.z_buffer_height as int);
                        lemma_wf_of_same_core(model_view(models@[j]), views_pre[j]);
                    }
                }
            }
        },
        SceneLight::Directional(dl) => {
            let ghost a0 = *dl;
            dl.look_at(models);
            proof {
                if a0.enable_shadow {
                    assert forall|j: int| 0 <= j < old(models)@.len() implies model_core(
                        model_view(#[trigger] models@[j]),
                    ) == model_core(model_view(old(models)@[j])) && model_wf(model_view(
                        models@[j],
                    )) by {
                        let prepared = models_prepared(views_pre, dl.mvp@, dl.mv@,
                            a0.z_buffer_width as int, a0.z_buffer_height as int);
                        assert(model_view(models@[j]) == prepared[j]);
                        lemma_core_of_prepared(views_pre[j], dl.mvp@, dl.mv@,
                            a0.z_buffer_width as int, a0.z_buffer_height as int);
                        lemma_wf_of_same_core(model_view(models@[j]), views_pre[j]);
                    }
                }
            }
        },
    }
}

/// A shadow map built against models whose persistent geometry matches
/// `views0` is the map built against `views0` itself: the per-light clip
/// results do not depend on earlier projections' scratch state.
#[verifier::rlimit(100)]
proof fn lemma_lookat_from_views0(
    a: SceneLight,
    b: SceneLight,
    views_pre: Seq<ModelG>,
    views0: Seq<ModelG>,
)
    requires
        views_pre.len() == views0.len(),
        forall|j: int| 0 <= j < views0.len() ==> model_core(#[trigger] views_pre[j])
            == model_core(views0[j]),
        light_after_lookat(a, b, views_pre),
    ensures
        light_after_lookat(a, b, views0),
{
    reveal(light_rendered);
    reveal(light_after_lookat);
    reveal(spot_after_lookat);
    reveal(dir_after_lookat);
    match (a, b) {
        (SceneLight::Spot(a0), SceneLight::Spot(b0)) => {
            if a0.enable_shadow {
                let mv = mul4m(view_mat(a0.light.pos@, a0.light_dir@), ident4());
                let mvp = mul4m(
                    projection_mat(a0.tan_half_fov as int, a0.aspect_ratio as int,
                        a0.z_near as int, a0.z_far as int),
                    mv,
                );
                let w = a0.z_buffer_width as int;
                let h = a0.z_buffer_height as int;
                assert forall|j: int| 0 <= j < views0.len() implies #[trigger] models_prepared(
                    views_pre,
                    mvp,
                    mv,
                    w,
                    h,
                )[j] == models_prepared(views0, mvp, mv, w, h)[j] by {
                    lemma_clipped_of_same_core(views_pre[j], views0[j], mvp, mv);
                }
                assert(models_prepared(views_pre, mvp, mv, w, h) =~= models_prepared(views0, mvp,
                    mv, w, h,
                ));
            }
        },
        (SceneLight::Directional(a0), SceneLight::Directional(b0)) => {
            if a0.enable_shadow {
                let mv = mul4m(view_mat(a0.light.pos@, a0.light_dir@), ident4());
                let mvp = mul4m(
                    crate::camera::orthographic_mat(a0.scale_x as int, a0.scale_y as int,
                        a0.z_near as int, a0.z_far as int),
                    mv,
                );
                let w = a0.z_buffer_width as int;
                let h = a0.z_buffer_height as int;
                assert forall|j: int| 0 <= j < views0.len() implies #[trigger] models_prepared(
                    views_pre,
                    mvp,
                    mv,
                    w,
                    h,
                )[j] == models_prepared(views0, mvp, mv, w, h)[j] by {
                    lemma_clipped_of_same_core(views_pre[j], views0[j], mvp, mv);
                }
                assert(models_prepared(views_pre, mvp, mv, w, h) =~= models_prepared(views0, mvp,
                    mv, w, h,
                ));
            }
        },
        _ => {
        },
    }
}

/// The coarse penumbra-cell grid one spot light derives from the rasterized
/// buffers, as a flat row-major sequence.
pub open spec fn spot_mask_cells(l: SpotLight, g: GBuffer) -> Seq<i64> {
    let pmw = (g.width as int + 3) / 4;
    let pmh = (g.height as int + 3) / 4;
    Seq::new((pmw * pmh) as nat, |i: int| penumbra_cell(l, g, i % pmw, i / pmw) as i64)
}

/// The coarse penumbra-cell grid one directional light derives.
pub open spec fn dir_mask_cells(l: DirectionalLight, g: GBuffer) -> Seq<i64> {
    let pmw = (g.width as int + 3) / 4;
    let pmh = (g.height as int + 3) / 4;
    Seq::new((pmw * pmh) as nat, |i: int| crate::directional_light::penumbra_cell(l, g, i % pmw,
        i / pmw,
    ) as i64)
}

/// What the penumbra-mask phase leaves of one spot light: nothing when the
/// accelerator is off; otherwise a mask holding the blurred (box-averaged)
/// boundary-cell grid.
#[verifier::opaque]
pub open spec fn spot_mask_built(a: SpotLight, b: SpotLight, g: GBuffer, radius: int) -> bool {
    if !(a.enable_shadow && a.enable_penumbra_mask) {
        b == a
    } else {
        let pmw = (g.width as int + 3) / 4;
        let pmh = (g.height as int + 3) / 4;
        &&& b == (SpotLight {
            penumbra_mask: b.penumbra_mask,
            penumbra_mask_width: b.penumbra_mask_width,
            penumbra_mask_height: b.penumbra_mask_height,
            ..a
        })
        &&& b.penumbra_mask_width as int == pmw
        &&& b.penumbra_mask_height as int == pmh
        &&& crate::spot_light::spot_mask_wf(b)
        &&& forall|x: int, y: int|
            #![trigger pix_idx(pmw, x, y)]
            0 <= x < pmw && 0 <= y < pmh ==> b.penumbra_mask@[pix_idx(pmw, x, y)] as int
                == box_avg_2d(spot_mask_cells(a, g), pmw, pmh, radius, x, y)
    }
}

/// What the penumbra-mask phase leaves of one directional light.
#[verifier::opaque]
pub open spec fn dir_mask_built(a: DirectionalLight, b: DirectionalLight, g: GBuffer,
    radius: int,
) -> bool {
    if !(a.enable_shadow && a.enable_penumbra_mask) {
        b == a
    } else {
        let pmw = (g.width as int + 3) / 4;
        let pmh = (g.height as int + 3) / 4;
        &&& b == (DirectionalLight {
            penumbra_mask: b.penumbra_mask,
            penumbra_mask_width: b.penumbra_mask_width,
            penumbra_mask_height: b.penumbra_mask_height,
            ..a
        })
        &&& b.penumbra_mask_width as int == pmw
        &&& b.penumbra_mask_height as int == pmh
        &&& crate::directional_light::dir_mask_wf(b)
        &&& forall|x: int, y: int|
            #![trigger pix_idx(pmw, x, y)]
            0 <= x < pmw && 0 <= y < pmh ==> b.penumbra_mask@[pix_idx(pmw, x, y)] as int
                == box_avg_2d(dir_mask_cells(a, g), pmw, pmh, radius, x, y)
    }
}

/// What the penumbra-mask phase leaves of one light.
pub open spec fn light_mask_built(a: SceneLight, b: SceneLight, g: GBuffer, radius: int)
    -> bool {
    match (a, b) {
        (SceneLight::Spot(a0), SceneLight::Spot(b0)) => spot_mask_built(a0, b0, g, radius),
        (SceneLight::Directional(a0), SceneLight::Directional(b0)) => dir_mask_built(
            a0,
            b0,
            g,
            radius,
        ),
        _ => false,
    }
}

/// Build and blur one light's penumbra mask from the rasterized buffers.
#[verifier::rlimit(100)]
fn build_one_penumbra_mask(l: &mut SceneLight, g: &GBuffer, radius: usize)
    requires
        scene_light_ready(*old(l)),
        gbuf_wf(*g),
        1 <= g.width,
        1 <= g.height,
        radius <= MASK_RADIUS_MAX,
    ensures
        scene_light_ready(*final(l)),
        light_mask_built(*old(l), *final(l), *g, radius as int),
        scene_light_wf(*final(l), g.width as int, g.height as int),
{
    proof {
        reveal(spot_mask_built);
        reveal(dir_mask_built);
    }
    match l {
        SceneLight::Spot(sl) => {
            let ghost a0 = *sl;
            sl.generate_penumbra_mask(g);
            let ghost mid = *sl;
            sl.box_blur_penumbra_mask(radius);
            proof {
                if a0.enable_shadow && a0.enable_penumbra_mask {
                    let pmw = (g.width as int + 3) / 4;
                    let pmh = (g.height as int + 3) / 4;
                    assert(mid.penumbra_mask@ =~= spot_mask_cells(a0, *g)) by {
                        assert forall|i: int| 0 <= i < mid.penumbra_mask@.len() implies
                            mid.penumbra_mask@[i] == spot_mask_cells(a0, *g)[i] by {
                            let y = i / pmw;
                            let x = i % pmw;
                            vstd::arithmetic::div_mod::lemma_fundamental_div_mod(i, pmw);
                            assert(0 <= x < pmw && 0 <= y < pmh && i == pix_idx(pmw, x, y))
                                by (nonlinear_arith)
                                requires
                                    i == pmw * y + x,
                                    0 <= x < pmw,
                                    0 <= i < pmw * pmh,
                                    1 <= pmw,
                            ;
                            assert(mid.penumbra_mask@[pix_idx(pmw, x, y)] as int
                                == penumbra_cell(a0, *g, x, y));
                        }
                    }
                }
            }
        },
        SceneLight::Directional(dl) => {
            let ghost a0 = *dl;
            dl.generate_penumbra_mask(g);
            let ghost mid = *dl;
            dl.box_blur_penumbra_mask(radius);
            proof {
                if a0.enable_shadow && a0.enable_penumbra_mask {
                    let pmw = (g.width as int + 3) / 4;
                    let pmh = (g.height as int + 3) / 4;
                    assert(mid.penumbra_mask@ =~= dir_mask_cells(a0, *g)) by {
                        assert forall|i: int| 0 <= i < mid.penumbra_mask@.len() implies
                            mid.penumbra_mask@[i] == dir_mask_cells(a0, *g)[i] by {
                            let y = i / pmw;
                            let x = i % pmw;
                            vstd::arithmetic::div_mod::lemma_fundamental_div_mod(i, pmw);
                            assert(0 <= x < pmw && 0 <= y < pmh && i == pix_idx(pmw, x, y))
                                by (nonlinear_arith)
                                requires
                                    i == pmw * y + x,
                                    0 <= x < pmw,
                                    0 <= i < pmw * pmh,
                                    1 <= pmw,
                            ;
                            assert(mid.penumbra_mask@[pix_idx(pmw, x, y)] as int
                                == crate::directional_light::penumbra_cell(a0, *g, x, y));
                        }
                    }
                }
            }
        },
    }
}


/// The camera matrices depend only on the camera fields.
proof fn lemma_camera_same(a: Scene, b: Scene)
    requires
        a.eye_pos == b.eye_pos,
        a.view_dir == b.view_dir,
        a.tan_half_fov == b.tan_half_fov,
        a.aspect_ratio == b.aspect_ratio,
        a.z_near == b.z_near,
        a.z_far == b.z_far,
    ensures
        camera_mv(a) == camera_mv(b),
        camera_mvp(a) == camera_mvp(b),
{
    reveal(camera_mv);
    reveal(camera_mvp);
}

impl Scene {
    /// Clip and project every model into screen space for the camera's own
    /// view and projection.
    #[verifier::rlimit(100)]
    pub fn clip_and_project(&mut self)
        requires
            scene_wf(*old(self)),
        ensures
            scene_wf(*final(self)),
            *final(self) == (Scene { models: final(self).models, ..*old(self) }),
            final(self).models@.len() == old(self).models@.len(),
            forall|j: int| 0 <= j < old(self).models@.len() ==> model_view(
                #[trigger] final(self).models@[j],
            ) == models_prepared(
                model_views(old(self).models@),
                camera_mvp(*old(self)),
                camera_mv(*old(self)),
                old(self).width as int,
                old(self).height as int,
            )[j],
    {
        let ghost views0 = model_views(self.models@);
        let modeling = Mat4::identity();
        let view = get_view_matrix(&self.eye_pos, &self.view_dir);
        let projection = get_projection_matrix(self.tan_half_fov, self.aspect_ratio,
            self.z_near, self.z_far);
        let mv = view.mul_mat(&modeling);
        let mvp = projection.mul_mat(&mv);
        proof {
            reveal(camera_mv);
            reveal(camera_mvp);
            assert(mv@ == camera_mv(*old(self)));
            assert(mvp@ == camera_mvp(*old(self)));
        }
        let w = self.width;
        let h = self.height;
        let ghost prepared = models_prepared(views0, mvp@, mv@, w as int, h as int);
        let n = self.models.len();
        let mut k: usize = 0;
        while k < n
            invariant
                *self == (Scene { models: self.models, ..*old(self) }),
                1 <= self.width <= 0x4000,
                1 <= self.height <= 0x4000,
                self.tan_half_fov > 0,
                self.aspect_ratio > 0,
                self.z_near != self.z_far,
                w == self.width,
                h == self.height,
                n == self.models@.len(),
                k <= n,
                n == views0.len(),
                views0 == model_views(old(self).models@),
                prepared == models_prepared(views0, mvp@, mv@, w as int, h as int),
                forall|i: int| 0 <= i < self.lights@.len() ==> scene_light_ready(
                    #[trigger] self.lights@[i],
                ),
                forall|j: int| k <= j < n ==> model_view(#[trigger] self.models@[j]) == views0[
                    j
                ] && model_wf(views0[j]),
                forall|j: int| 0 <= j < k ==> model_view(#[trigger] self.models@[j]) == prepared[
                    j
                ] && model_wf(model_view(self.models@[j])),
            decreases n - k,
        {
            let mut m = self.models.remove(k);
            m.clip(&mvp, &mv);
            m.to_ndc(w as i64, h as i64);
            self.models.insert(k, m);
            proof {
                lemma_core_of_prepared(views0[k as int], mvp@, mv@, w as int, h as int);
                lemma_wf_of_same_core(model_view(self.models@[k as int]), views0[k as int]);
            }
            k = k + 1;
        }
    }

    /// Rasterize every model (children first, then each node's own clip
    /// triangles) into the buffers: the nearest-wins fold over the whole
    /// model list, at every pixel.
    pub fn rasterize_models(&mut self)
        requires
            scene_wf(*old(self)),
            gbuf_wf(old(self).gbuf),
            old(self).gbuf.width == old(self).width,
            old(self).gbuf.height == old(self).height,
        ensures
            scene_wf(*final(self)),
            *final(self) == (Scene { gbuf: final(self).gbuf, ..*old(self) }),
            gbuf_wf(final(self).gbuf),
            final(self).gbuf.width == old(self).width,
            final(self).gbuf.height == old(self).height,
            final(self).gbuf.frame@ == old(self).gbuf.frame@,
            forall|x: int, y: int|
                #![trigger pix_idx(old(self).width as int, x, y)]
                0 <= x < old(self).width && 0 <= y < old(self).height ==> state_at(
                    final(self).gbuf,
                    pix_idx(old(self).width as int, x, y),
                ) == apply_model_seq(
                    state_at(old(self).gbuf, pix_idx(old(self).width as int, x, y)),
                    model_views(old(self).models@),
                    0,
                    0,
                    old(self).height as int,
                    old(self).width as int,
                    x,
                    y,
                ),
    {
        let ghost views = model_views(self.models@);
        let ghost g0 = self.gbuf;
        let ghost w = self.width as int;
        let ghost h = self.height as int;
        let n = self.models.len();
        let mut k: usize = 0;
        proof {
            assert(views.skip(0) =~= views);
        }
        while k < n
            invariant
                *self == (Scene { gbuf: self.gbuf, ..*old(self) }),
                scene_wf(*old(self)),
                gbuf_wf(self.gbuf),
                self.gbuf.width == old(self).width,
                self.gbuf.height == old(self).height,
                self.gbuf.frame@ == g0.frame@,
                g0 == old(self).gbuf,
                w == old(self).width as int,
                h == old(self).height as int,
                n == self.models@.len(),
                k <= n,
                n == views.len(),
                views == model_views(old(self).models@),
                forall|x: int, y: int|
                    #![trigger pix_idx(w, x, y)]
                    0 <= x < w && 0 <= y < h ==> apply_model_seq(
                        state_at(self.gbuf, pix_idx(w, x, y)),
                        views.skip(k as int),
                        0,
                        0,
                        h,
                        w,
                        x,
                        y,
                    ) == apply_model_seq(state_at(g0, pix_idx(w, x, y)), views, 0, 0, h, w, x,
                        y,
                    ),
            decreases n - k,
        {
            let ghost gpre = self.gbuf;
            let m = &self.models[k];
            proof {
                assert(model_view(*m) == views[k as int]);
                assert(model_wf(views[k as int]));
            }
            m.rasterization(&mut self.gbuf, 0, 0, self.height, self.width);
            proof {
                assert forall|x: int, y: int| 0 <= x < w && 0 <= y < h implies apply_model_seq(
                    state_at(self.gbuf, #[trigger] pix_idx(w, x, y)),
                    views.skip(k as int + 1),
                    0,
                    0,
                    h,
                    w,
                    x,
                    y,
                ) == apply_model_seq(state_at(g0, pix_idx(w, x, y)), views, 0, 0, h, w, x, y) by {
                    assert(views.skip(k as int)[0] == views[k as int]);
                    assert(views.skip(k as int).skip(1) =~= views.skip(k as int + 1));
                    assert(state_at(self.gbuf, pix_idx(w, x, y)) == crate::model::apply_model(
                        state_at(gpre, pix_idx(w, x, y)),
                        views[k as int],
                        0,
                        0,
                        h,
                        w,
                        x,
                        y,
                    ));
                }
            }
            k = k + 1;
        }
        proof {
            assert(views.skip(n as int) =~= Seq::<ModelG>::empty());
        }
    }

    /// Build and blur every light's penumbra mask from the rasterized
    /// buffers.
    pub fn build_penumbra_masks(&mut self, radius: usize)
        requires
            scene_wf(*old(self)),
            gbuf_wf(old(self).gbuf),
            old(self).gbuf.width == old(self).width,
            old(self).gbuf.height == old(self).height,
            radius <= MASK_RADIUS_MAX,
        ensures
            scene_wf(*final(self)),
            *final(self) == (Scene { lights: final(self).lights, ..*old(self) }),
            final(self).lights@.len() == old(self).lights@.len(),
            forall|k: int| 0 <= k < old(self).lights@.len() ==> light_mask_built(
                #[trigger] old(self).lights@[k],
                final(self).lights@[k],
                old(self).gbuf,
                radius as int,
            ) && scene_light_wf(final(self).lights@[k], old(self).gbuf.width as int,
                old(self).gbuf.height as int,
            ),
    {
        let ghost lights0 = self.lights@;
        let n = self.lights.len();
        let mut k: usize = 0;
        while k < n
            invariant
                *self == (Scene { lights: self.lights, ..*old(self) }),
                scene_wf(*old(self)),
                gbuf_wf(self.gbuf),
                self.gbuf == old(self).gbuf,
                self.gbuf.width == old(self).width,
                self.gbuf.height == old(self).height,
                1 <= self.width <= 0x4000,
                1 <= self.height <= 0x4000,
                radius <= MASK_RADIUS_MAX,
                n == self.lights@.len(),
                k <= n,
                lights0 == old(self).lights@,
                lights0.len() == n,
                forall|j: int| k <= j < n ==> self.lights@[j] == #[trigger] lights0[j],
                forall|j: int| 0 <= j < k ==> light_mask_built(
                    #[trigger] lights0[j],
                    self.lights@[j],
                    old(self).gbuf,
                    radius as int,
                ) && scene_light_wf(self.lights@[j], old(self).gbuf.width as int,
                    old(self).gbuf.height as int,
                ) && scene_light_ready(self.lights@[j]),
                forall|j: int| 0 <= j < n ==> scene_light_ready(#[trigger] lights0[j]),
            decreases n - k,
        {
            let mut l = self.lights.remove(k);
            proof {
                assert(l == lights0[k as int]);
                assert(scene_light_ready(lights0[k as int]));
            }
            build_one_penumbra_mask(&mut l, &self.gbuf, radius);
            self.lights.insert(k, l);
            k = k + 1;
        }
        proof {
            assert forall|i: int| 0 <= i < self.lights@.len() implies scene_light_ready(
                #[trigger] self.lights@[i],
            ) by {
                assert(light_mask_built(lights0[i], self.lights@[i], old(self).gbuf,
                    radius as int,
                ) && scene_light_ready(self.lights@[i]));
            }
            assert(scene_wf(*self));
        }
    }
}

/// The box-blur radius of the penumbra masks: scales with the image
/// resolution, clamped to the mask machine limit.
pub open spec fn scene_box_radius(s: Scene) -> int {
    let mx: int = if s.width >= s.height {
        s.width as int
    } else {
        s.height as int
    };
    fclamp(
        fx_round_spec(
            crate::fx::fdiv(sat64(4 * mx * FX_ONE as int), sat64(1024 * FX_ONE as int)),
        ),
        0,
        MASK_RADIUS_MAX as int,
    )
}

/// The penumbra cells read only the depth, position and normal buffers:
/// two buffer sets differing only in the frame give the same counts.
proof fn lemma_spot_counts_frame_irrelevant(
    l: SpotLight,
    g1: GBuffer,
    g2: GBuffer,
    cx: int,
    cy: int,
    j: int,
    np: int,
    nl: int,
)
    requires
        g1 == (GBuffer { frame: g1.frame, ..g2 }),
    ensures
        crate::spot_light::penumbra_counts(l, g1, cx, cy, j, np, nl)
            == crate::spot_light::penumbra_counts(l, g2, cx, cy, j, np, nl),
    decreases 16 - j,
{
    if j < 16 {
        let u = fclamp(4 * cx + (j % 4), 0, g1.width as int - 1);
        let v = fclamp(4 * cy + (j / 4), 0, g1.height as int - 1);
        let idx = pix_idx(g1.width as int, u, v);
        if (g1.z@[idx] as int) < Z_EMPTY as int {
            let lit: int = if crate::spot_light::spot_direct(l, g1.pos@[idx]@, g1.normal@[idx]@)
                > crate::fx::FX_EPS as int {
                1
            } else {
                0
            };
            lemma_spot_counts_frame_irrelevant(l, g1, g2, cx, cy, j + 1, np + 1, nl + lit);
        } else {
            lemma_spot_counts_frame_irrelevant(l, g1, g2, cx, cy, j + 1, np, nl);
        }
    }
}

proof fn lemma_dir_counts_frame_irrelevant(
    l: DirectionalLight,
    g1: GBuffer,
    g2: GBuffer,
    cx: int,
    cy: int,
    j: int,
    np: int,
    nl: int,
)
    requires
        g1 == (GBuffer { frame: g1.frame, ..g2 }),
    ensures
        crate::directional_light::penumbra_counts(l, g1, cx, cy, j, np, nl)
            == crate::directional_light::penumbra_counts(l, g2, cx, cy, j, np, nl),
    decreases 16 - j,
{
    if j < 16 {
        let u = fclamp(4 * cx + (j % 4), 0, g1.width as int - 1);
        let v = fclamp(4 * cy + (j / 4), 0, g1.height as int - 1);
        let idx = pix_idx(g1.width as int, u, v);
        if (g1.z@[idx] as int) < Z_EMPTY as int {
            let lit: int = if crate::directional_light::dir_direct(l, g1.pos@[idx]@,
                g1.normal@[idx]@) > crate::fx::FX_EPS as int {
                1
            } else {
                0
            };
            lemma_dir_counts_frame_irrelevant(l, g1, g2, cx, cy, j + 1, np + 1, nl + lit);
        } else {
            lemma_dir_counts_frame_irrelevant(l, g1, g2, cx, cy, j + 1, np, nl);
        }
    }
}

/// The penumbra-mask result is unchanged by later writes to the frame
/// buffer alone.
proof fn lemma_mask_built_frame_irrelevant(a: SceneLight, b: SceneLight, g1: GBuffer,
    g2: GBuffer, radius: int,
)
    requires
        g1 == (GBuffer { frame: g1.frame, ..g2 }),
        light_mask_built(a, b, g1, radius),
    ensures
        light_mask_built(a, b, g2, radius),
{
    reveal(spot_mask_built);
    reveal(dir_mask_built);
    match (a, b) {
        (SceneLight::Spot(a0), SceneLight::Spot(b0)) => {
            if a0.enable_shadow && a0.enable_penumbra_mask {
                assert(spot_mask_cells(a0, g1) =~= spot_mask_cells(a0, g2)) by {
                    let pmw = (g1.width as int + 3) / 4;
                    let pmh = (g1.height as int + 3) / 4;
                    assert forall|i: int| 0 <= i < pmw * pmh implies spot_mask_cells(a0, g1)[i]
                        == spot_mask_cells(a0, g2)[i] by {
                        lemma_spot_counts_frame_irrelevant(a0, g1, g2, i % pmw, i / pmw, 0, 0,
                            0,
                        );
                    }
                }
            }
        },
        (SceneLight::Directional(a0), SceneLight::Directional(b0)) => {
            if a0.enable_shadow && a0.enable_penumbra_mask {
                assert(dir_mask_cells(a0, g1) =~= dir_mask_cells(a0, g2)) by {
                    let pmw = (g1.width as int + 3) / 4;
                    let pmh = (g1.height as int + 3) / 4;
                    assert forall|i: int| 0 <= i < pmw * pmh implies dir_mask_cells(a0, g1)[i]
                        == dir_mask_cells(a0, g2)[i] by {
                        lemma_dir_counts_frame_irrelevant(a0, g1, g2, i % pmw, i / pmw, 0, 0,
                            0,
                        );
                    }
                }
            }
        },
        _ => {
        },
    }
}

/// The whole per-frame light relation is likewise unchanged by later writes
/// to the frame buffer alone.
proof fn lemma_rendered_frame_irrelevant(
    a: SceneLight,
    b: SceneLight,
    views0: Seq<ModelG>,
    g1: GBuffer,
    g2: GBuffer,
    radius: int,
)
    requires
        g1 == (GBuffer { frame: g1.frame, ..g2 }),
        light_rendered(a, b, views0, g1, radius),
    ensures
        light_rendered(a, b, views0, g2, radius),
{
    reveal(light_rendered);
    match (a, b) {
        (SceneLight::Spot(a0), SceneLight::Spot(b0)) => {
            let mid = SpotLight {
                penumbra_mask: a0.penumbra_mask,
                penumbra_mask_width: a0.penumbra_mask_width,
                penumbra_mask_height: a0.penumbra_mask_height,
                ..b0
            };
            lemma_mask_built_frame_irrelevant(SceneLight::Spot(mid), SceneLight::Spot(b0), g1,
                g2, radius,
            );
        },
        (SceneLight::Directional(a0), SceneLight::Directional(b0)) => {
            let mid = DirectionalLight {
                penumbra_mask: a0.penumbra_mask,
                penumbra_mask_width: a0.penumbra_mask_width,
                penumbra_mask_height: a0.penumbra_mask_height,
                ..b0
            };
            lemma_mask_built_frame_irrelevant(SceneLight::Directional(mid),
                SceneLight::Directional(b0), g1, g2, radius,
            );
        },
        _ => {
        },
    }
}

/// What one frame leaves of a light: its shadow map rebuilt for its own
/// projection against the frame's geometry, then its penumbra mask rebuilt
/// from the rasterized buffers and blurred.
#[verifier::opaque]
pub open spec fn light_rendered(a: SceneLight, b: SceneLight, views0: Seq<ModelG>, g: GBuffer,
    radius: int,
) -> bool {
    match (a, b) {
        (SceneLight::Spot(a0), SceneLight::Spot(b0)) => {
            let mid = SpotLight {
                penumbra_mask: a0.penumbra_mask,
                penumbra_mask_width: a0.penumbra_mask_width,
                penumbra_mask_height: a0.penumbra_mask_height,
                ..b0
            };
            spot_after_lookat(a0, mid, views0) && spot_mask_built(mid, b0, g, radius)
        },
        (SceneLight::Directional(a0), SceneLight::Directional(b0)) => {
            let mid = DirectionalLight {
                penumbra_mask: a0.penumbra_mask,
                penumbra_mask_width: a0.penumbra_mask_width,
                penumbra_mask_height: a0.penumbra_mask_height,
                ..b0
            };
            dir_after_lookat(a0, mid, views0) && dir_mask_built(mid, b0, g, radius)
        },
        _ => false,
    }
}


/// Combining the shadow-map phase and the mask phase gives the per-frame
/// light relation: the intermediate state is reconstructible because each
/// phase touches disjoint fields.
proof fn lemma_light_rendered(a: SceneLight, mid: SceneLight, b: SceneLight,
    views0: Seq<ModelG>, g: GBuffer, radius: int,
)
    requires
        light_after_lookat(a, mid, views0),
        light_mask_built(mid, b, g, radius),
    ensures
        light_rendered(a, b, views0, g, radius),
{
    reveal(light_rendered);
    reveal(light_after_lookat);
    reveal(spot_after_lookat);
    reveal(dir_after_lookat);
    reveal(spot_mask_built);
    reveal(dir_mask_built);
    match (a, mid, b) {
        (SceneLight::Spot(a0), SceneLight::Spot(m0), SceneLight::Spot(b0)) => {
            let midr = SpotLight {
                penumbra_mask: a0.penumbra_mask,
                penumbra_mask_width: a0.penumbra_mask_width,
                penumbra_mask_height: a0.penumbra_mask_height,
                ..b0
            };
            assert(midr == m0);
        },
        (SceneLight::Directional(a0), SceneLight::Directional(m0), SceneLight::Directional(
            b0,
        )) => {
            let midr = DirectionalLight {
                penumbra_mask: a0.penumbra_mask,
                penumbra_mask_width: a0.penumbra_mask_width,
                penumbra_mask_height: a0.penumbra_mask_height,
                ..b0
            };
            assert(midr == m0);
        },
        _ => {
            assert(false);
        },
    }
}

impl Scene {
    /// Clip and project the models for the camera, stated against the ghost
    /// views whose persistent geometry the models currently carry (so the
    /// result is independent of which projection clipped them before).
    #[verifier::rlimit(100)]
    fn clip_for_camera(&mut self, Ghost(views0): Ghost<Seq<ModelG>>)
        requires
            scene_wf(*old(self)),
            views0.len() == old(self).models@.len(),
            forall|j: int| 0 <= j < views0.len() ==> model_core(model_view(
                #[trigger] old(self).models@[j],
            )) == model_core(views0[j]),
        ensures
            scene_wf(*final(self)),
            *final(self) == (Scene { models: final(self).models, ..*old(self) }),
            final(self).models@.len() == old(self).models@.len(),
            forall|j: int| 0 <= j < old(self).models@.len() ==> model_view(
                #[trigger] final(self).models@[j],
            ) == models_prepared(
                views0,
                camera_mvp(*old(self)),
                camera_mv(*old(self)),
                old(self).width as int,
                old(self).height as int,
            )[j],
    {
        let ghost views_mid = model_views(self.models@);
        self.clip_and_project();
        proof {
            assert forall|j: int| 0 <= j < old(self).models@.len() implies model_view(
                #[trigger] self.models@[j],
            ) == models_prepared(views0, camera_mvp(*old(self)), camera_mv(*old(self)),
                old(self).width as int, old(self).height as int,
            )[j] by {
                assert(model_view(self.models@[j]) == models_prepared(views_mid, camera_mvp(
                    *old(self),
                ), camera_mv(*old(self)), old(self).width as int, old(self).height as int)[j]);
                assert(model_core(views_mid[j]) == model_core(views0[j]));
                lemma_clipped_of_same_core(views_mid[j], views0[j], camera_mvp(*old(self)),
                    camera_mv(*old(self)),
                );
            }
        }
    }

    /// Run the geometry phases of one frame: clear the buffers, build every
    /// light's shadow map against the light's own projection, clip and
    /// project the models for the camera, and rasterize them into the
    /// buffers.
    #[verifier::rlimit(100)]
    fn render_geometry(&mut self)
        requires
            scene_wf(*old(self)),
        ensures
            scene_wf(*final(self)),
            *final(self) == (Scene {
                gbuf: final(self).gbuf,
                models: final(self).models,
                lights: final(self).lights,
                ..*old(self)
            }),
            gbuf_wf(final(self).gbuf),
            final(self).gbuf.width == old(self).width,
            final(self).gbuf.height == old(self).height,
            final(self).models@.len() == old(self).models@.len(),
            final(self).lights@.len() == old(self).lights@.len(),
            forall|i: int| 0 <= i < old(self).width * old(self).height
                ==> final(self).gbuf.frame@[i]@ == (V3 {
                x: BG_GREY as int,
                y: BG_GREY as int,
                z: BG_GREY as int,
            }),
            ({
                let views0 = model_views(old(self).models@);
                let w = old(self).width as int;
                let h = old(self).height as int;
                let prepared = models_prepared(views0, camera_mvp(*old(self)), camera_mv(
                    *old(self),
                ), w, h);
                &&& (forall|j: int| 0 <= j < old(self).models@.len() ==> model_view(
                    #[trigger] final(self).models@[j],
                ) == prepared[j])
                &&& (forall|x: int, y: int|
                    #![trigger pix_idx(w, x, y)]
                    0 <= x < w && 0 <= y < h ==> state_at(final(self).gbuf, pix_idx(w, x, y))
                        == apply_model_seq(cleared_pixel(), prepared, 0, 0, h, w, x, y))
                &&& (forall|k: int| 0 <= k < old(self).lights@.len() ==> light_after_lookat(
                    #[trigger] old(self).lights@[k],
                    final(self).lights@[k],
                    views0,
                ))
            }),
    {
        let ghost views0 = model_views(self.models@);
        self.gbuf = GBuffer::new(self.width, self.height);
        let ghost gbuf_cleared = self.gbuf;
        self.build_shadow_maps();
        let ghost scene_mid = *self;
        self.clip_for_camera(Ghost(views0));
        let ghost w = old(self).width as int;
        let ghost h = old(self).height as int;
        let ghost prepared = models_prepared(views0, camera_mvp(*old(self)), camera_mv(
            *old(self),
        ), w, h);
        proof {
            lemma_camera_same(*old(self), scene_mid);
            assert(model_views(self.models@) =~= prepared);
            assert(self.gbuf == gbuf_cleared);
        }
        let ghost gbuf_pre_raster = self.gbuf;
        self.rasterize_models();
        proof {
            assert forall|x: int, y: int| 0 <= x < w && 0 <= y < h implies state_at(
                self.gbuf,
                #[trigger] pix_idx(w, x, y),
            ) == apply_model_seq(cleared_pixel(), prepared, 0, 0, h, w, x, y) by {
                assert(0 <= pix_idx(w, x, y) < w * h) by (nonlinear_arith)
                    requires
                        0 <= x < w,
                        0 <= y < h,
                ;
                assert(state_at(gbuf_pre_raster, pix_idx(w, x, y)) == cleared_pixel());
            }
        }
    }

    /// Run the geometry phases, then build and blur every light's penumbra
    /// mask from the rasterized buffers.
    #[verifier::rlimit(100)]
    fn render_phases(&mut self, radius: usize)
        requires
            scene_wf(*old(self)),
            radius <= MASK_RADIUS_MAX,
        ensures
            scene_wf(*final(self)),
            *final(self) == (Scene {
                gbuf: final(self).gbuf,
                models: final(self).models,
                lights: final(self).lights,
                ..*old(self)
            }),
            gbuf_wf(final(self).gbuf),
            final(self).gbuf.width == old(self).width,
            final(self).gbuf.height == old(self).height,
            final(self).models@.len() == old(self).models@.len(),
            final(self).lights@.len() == old(self).lights@.len(),
            forall|i: int| 0 <= i < old(self).width * old(self).height
                ==> final(self).gbuf.frame@[i]@ == (V3 {
                x: BG_GREY as int,
                y: BG_GREY as int,
                z: BG_GREY as int,
            }),
            forall|k: int| 0 <= k < final(self).lights@.len() ==> scene_light_wf(
                #[trigger] final(self).lights@[k],
                old(self).width as int,
                old(self).height as int,
            ),
            ({
                let views0 = model_views(old(self).models@);
                let w = old(self).width as int;
                let h = old(self).height as int;
                let prepared = models_prepared(views0, camera_mvp(*old(self)), camera_mv(
                    *old(self),
                ), w, h);
                &&& (forall|j: int| 0 <= j < old(self).models@.len() ==> model_view(
                    #[trigger] final(self).models@[j],
                ) == prepared[j])
                &&& (forall|x: int, y: int|
                    #![trigger pix_idx(w, x, y)]
                    0 <= x < w && 0 <= y < h ==> state_at(final(self).gbuf, pix_idx(w, x, y))
                        == apply_model_seq(cleared_pixel(), prepared, 0, 0, h, w, x, y))
                &&& (forall|k: int| 0 <= k < old(self).lights@.len() ==> light_rendered(
                    #[trigger] old(self).lights@[k],
                    final(self).lights@[k],
                    views0,
                    final(self).gbuf,
                    radius as int,
                ))
            }),
    {
        let ghost views0 = model_views(self.models@);
        self.render_geometry();
        let ghost gbuf_mid = self.gbuf;
        let ghost lights_mid = self.lights@;
        self.build_penumbra_masks(radius);
        proof {
            assert forall|k: int| 0 <= k < self.lights@.len() implies scene_light_wf(
                #[trigger] self.lights@[k],
                self.gbuf.width as int,
                self.gbuf.height as int,
            ) by {
                assert(light_mask_built(lights_mid[k], self.lights@[k], gbuf_mid, radius as int)
                    && scene_light_wf(self.lights@[k], gbuf_mid.width as int,
                    gbuf_mid.height as int,
                ));
            }
            assert forall|k: int| 0 <= k < old(self).lights@.len() implies light_rendered(
                #[trigger] old(self).lights@[k],
                self.lights@[k],
                views0,
                self.gbuf,
                radius as int,
            ) by {
                lemma_light_rendered(old(self).lights@[k], lights_mid[k], self.lights@[k],
                    views0, self.gbuf, radius as int,
                );
            }
        }
    }

    /// Render one frame, each phase a hard barrier before the next: clear
    /// the buffers, build every light's shadow map against the light's own
    /// projection, clip and project the models for the camera, rasterize
    /// them into the buffers, build and blur every light's penumbra mask,
    /// and shade every covered pixel. On return the depth and shading
    /// buffers hold exactly the nearest-wins fold of the camera-prepared
    /// models over cleared pixels, and every pixel of the frame buffer holds
    /// its shaded color where a fragment covered it and the background grey
    /// where none did.
    #[verifier::rlimit(100)]
    pub fn start_render(&mut self)
        requires
            scene_wf(*old(self)),
        ensures
            scene_wf(*final(self)),
            *final(self) == (Scene {
                gbuf: final(self).gbuf,
                models: final(self).models,
                lights: final(self).lights,
                ..*old(self)
            }),
            gbuf_wf(final(self).gbuf),
            final(self).gbuf.width == old(self).width,
            final(self).gbuf.height == old(self).height,
            final(self).models@.len() == old(self).models@.len(),
            final(self).lights@.len() == old(self).lights@.len(),
            ({
                let views0 = model_views(old(self).models@);
                let w = old(self).width as int;
                let h = old(self).height as int;
                let prepared = models_prepared(views0, camera_mvp(*old(self)), camera_mv(
                    *old(self),
                ), w, h);
                &&& (forall|j: int| 0 <= j < old(self).models@.len() ==> model_view(
                    #[trigger] final(self).models@[j],
                ) == prepared[j])
                &&& (forall|x: int, y: int|
                    #![trigger pix_idx(w, x, y)]
                    0 <= x < w && 0 <= y < h ==> state_at(final(self).gbuf, pix_idx(w, x, y))
                        == apply_model_seq(cleared_pixel(), prepared, 0, 0, h, w, x, y))
                &&& (forall|x: int, y: int|
                    #![trigger pix_idx(w, x, y)]
                    0 <= x < w && 0 <= y < h ==> final(self).gbuf.frame@[pix_idx(w, x, y)]@ == (
                    if final(self).gbuf.z@[pix_idx(w, x, y)] != Z_EMPTY {
                        shade_pixel(
                            final(self).lights@,
                            state_at(final(self).gbuf, pix_idx(w, x, y)),
                            old(self).eye_pos@,
                            x,
                            y,
                        )
                    } else {
                        V3 { x: BG_GREY as int, y: BG_GREY as int, z: BG_GREY as int }
                    }))
                &&& (forall|k: int| 0 <= k < old(self).lights@.len() ==> light_rendered(
                    #[trigger] old(self).lights@[k],
                    final(self).lights@[k],
                    views0,
                    final(self).gbuf,
                    scene_box_radius(*old(self)),
                ))
            }),
    {
        let mx = if self.width >= self.height {
            self.width
        } else {
            self.height
        };
        let radius_fx = fx_round(fx_div(fx_from_int(4 * mx as i64), fx_from_int(1024)));
        let radius = fx_clamp(radius_fx, 0, MASK_RADIUS_MAX) as usize;
        proof {
            assert(radius as int == scene_box_radius(*old(self)));
        }
        self.render_phases(radius);
        let ghost g_pre = self.gbuf;
        let ghost w = old(self).width as int;
        let ghost h = old(self).height as int;
        default_texture_shader(&mut self.gbuf, &self.lights, &self.eye_pos, 0, self.height);
        proof {
            let views0 = model_views(old(self).models@);
            assert forall|k: int| 0 <= k < old(self).lights@.len() implies light_rendered(
                #[trigger] old(self).lights@[k],
                self.lights@[k],
                views0,
                self.gbuf,
                radius as int,
            ) by {
                lemma_rendered_frame_irrelevant(old(self).lights@[k], self.lights@[k], views0,
                    g_pre, self.gbuf, radius as int,
                );
            }
            assert forall|x: int, y: int| 0 <= x < w && 0 <= y < h implies self.gbuf.frame@[
                #[trigger] pix_idx(w, x, y)
            ]@ == (if self.gbuf.z@[pix_idx(w, x, y)] != Z_EMPTY {
                shade_pixel(self.lights@, state_at(self.gbuf, pix_idx(w, x, y)),
                    old(self).eye_pos@, x, y,
                )
            } else {
                V3 { x: BG_GREY as int, y: BG_GREY as int, z: BG_GREY as int }
            }) by {
                assert(0 <= pix_idx(w, x, y) < w * h) by (nonlinear_arith)
                    requires
                        0 <= x < w,
                        0 <= y < h,
                ;
                assert(state_at(self.gbuf, pix_idx(w, x, y)) == state_at(g_pre, pix_idx(w, x,
                    y,
                )));
                if self.gbuf.z@[pix_idx(w, x, y)] == Z_EMPTY {
                    assert(g_pre.frame@[pix_idx(w, x, y)]@ == (V3 {
                        x: BG_GREY as int,
                        y: BG_GREY as int,
                        z: BG_GREY as int,
                    }));
                }
            }
        }
    }
}

} // verus!
