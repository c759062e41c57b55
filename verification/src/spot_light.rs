//! The spot (point-like) light: a perspective light-space projection, a
//! depth-only shadow map rebuilt every frame, the three shadow query
//! methods, and the coarse penumbra mask with its box blur.

use vstd::prelude::*;

use crate::camera::{get_projection_matrix, get_view_matrix, projection_mat, view_mat};
use crate::fx::{fadd, fdiv, fmul, fneg, fsub, fx_add, fx_div, fx_from_int, fx_max, fx_mul,
    fx_neg, fx_round, fx_round_spec, fx_sub, fx_trunc, sat64, FX_EPS, FX_HALF, FX_ONE};
use crate::light::{direct_vis, direct_vis_exec, in_light_frustum, light_frustum_test,
    light_texel, light_texel_exec, pcf_dense_vis, pcf_dense_vis_exec, pcf_fib_vis,
    pcf_fib_vis_exec, pcss_search, pcss_search_fib, texel_blocked_exec, texel_depth, Light,
    ShadowMethod, KERNEL_RADIUS_MAX, LIGHT_BIAS_SCALE, LIGHT_Z_EMPTY};
use crate::mask::{box_avg_2d, box_blur_penumbra_mask_grid, MASK_CELL_MAX, MASK_RADIUS_MAX};
use crate::model::{apply_shadow_model_seq, model_clipped, model_ndc, model_view, models_prepared, Model, ModelG};
use crate::raster::{gbuf_wf, pix_idx, state_at, GBuffer, Z_EMPTY};
use crate::vec::{dot3, homog, ident4, mul4m, mul4v, norm3, sub3, Mat4, Vec3, Vec4, M4, V3};

verus! {

broadcast use vstd::seq::axiom_seq_index_decreases, vstd::std_specs::vec::axiom_vec_index_decreases;

/// The fixed dense PCF kernel radius of the spot light.
pub const SPOT_LIGHT_PCF_RADIUS: i64 = 1;

/// The lower slope-bias clamp (0.2).
pub const FX_PT2: i64 = 13107;

/// A spot light with its light-space projection state and shadow buffers.
pub struct SpotLight {
    pub light: Light,
    pub light_dir: Vec3,
    pub tan_half_fov: i64,
    pub aspect_ratio: i64,
    pub z_near: i64,
    pub z_far: i64,
    pub z_buffer_width: usize,
    pub z_buffer_height: usize,
    pub penumbra_mask_width: usize,
    pub penumbra_mask_height: usize,
    pub light_size: i64,
    pub fov_factor: i64,
    pub pixel_radius: i64,
    pub enable_shadow: bool,
    pub enable_pcf_sample_accelerate: bool,
    pub enable_pcss_sample_accelerate: bool,
    pub enable_penumbra_mask: bool,
    pub mvp: Mat4,
    pub mv: Mat4,
    pub z_buffer: Vec<i64>,
    pub penumbra_mask: Vec<i64>,
}

/// The scalar settings are usable: positive projection parameters and map
/// dimensions within the machine limits.
pub open spec fn spot_dims_wf(l: SpotLight) -> bool {
    &&& l.tan_half_fov > 0
    &&& l.aspect_ratio > 0
    &&& l.z_near != l.z_far
    &&& 1 <= l.z_buffer_width <= 0x4000
    &&& 1 <= l.z_buffer_height <= 0x4000
}

/// The depth map matches its dimensions and the derived factors are positive
/// (established by `look_at`, needed by the shadow queries).
pub open spec fn spot_map_wf(l: SpotLight) -> bool {
    &&& l.z_buffer@.len() == l.z_buffer_width * l.z_buffer_height
    &&& l.fov_factor > 0
    &&& l.pixel_radius > 0
}

/// The penumbra mask matches its dimensions and holds mask-range cells.
pub open spec fn spot_mask_wf(l: SpotLight) -> bool {
    &&& 1 <= l.penumbra_mask_width <= 0x4000
    &&& 1 <= l.penumbra_mask_height <= 0x4000
    &&& l.penumbra_mask@.len() == l.penumbra_mask_width * l.penumbra_mask_height
    &&& forall|i: int| 0 <= i < l.penumbra_mask@.len() ==> 0 <= #[trigger] l.penumbra_mask@[i]
        <= MASK_CELL_MAX
}

/// The receiver's slope-scaled, distance-scaled, resolution-scaled depth
/// bias at a shaded point: max(0.2, 1 - max(0, N dot L)) scaled by the bias
/// constant, the projection, the receiver's view depth and the map
/// resolution.
pub open spec fn spot_bias(l: SpotLight, point: V3, normal: V3, view_z: int) -> int {
    let slope = {
        let nl = dot3(norm3(sub3(l.light.pos@, point)), normal);
        let nl0: int = if nl >= 0 {
            nl
        } else {
            0
        };
        let d = fsub(FX_ONE as int, nl0);
        if FX_PT2 as int >= d {
            FX_PT2 as int
        } else {
            d
        }
    };
    fmul(
        fmul(fmul(fmul(fmul(slope, LIGHT_BIAS_SCALE as int), l.fov_factor as int), fneg(view_z)),
            sat64(512 * FX_ONE as int)),
        l.pixel_radius as int,
    )
}

/// The DIRECT visibility of a point: zero outside the light frustum, else
/// the single biased depth comparison at the receiver's texel.
pub open spec fn spot_direct(l: SpotLight, point: V3, normal: V3) -> int {
    if !l.enable_shadow {
        FX_ONE as int
    } else {
        let tp = mul4v(l.mvp@, homog(point));
        if !in_light_frustum(tp) {
            0
        } else {
            let cx = light_texel(tp.x, tp.w, l.z_buffer_width as int);
            let cy = light_texel(tp.y, tp.w, l.z_buffer_height as int);
            let vp = mul4v(l.mv@, homog(point));
            let bias = spot_bias(l, point, normal, vp.z);
            direct_vis(l.z_buffer@, l.z_buffer_width as int, l.z_buffer_height as int, cx, cy,
                vp.z, bias,
            )
        }
    }
}

/// The PCF visibility of a point with a given kernel radius: zero outside
/// the frustum, else the lit fraction of the kernel (dense, or the Fibonacci
/// disk when the accelerated flag is set).
pub open spec fn spot_pcf(l: SpotLight, point: V3, normal: V3, radius: int) -> int {
    if !l.enable_shadow {
        FX_ONE as int
    } else {
        let tp = mul4v(l.mvp@, homog(point));
        if !in_light_frustum(tp) {
            0
        } else {
            let cx = light_texel(tp.x, tp.w, l.z_buffer_width as int);
            let cy = light_texel(tp.y, tp.w, l.z_buffer_height as int);
            let vp = mul4v(l.mv@, homog(point));
            let bias = spot_bias(l, point, normal, vp.z);
            if l.enable_pcf_sample_accelerate {
                pcf_fib_vis(l.z_buffer@, l.z_buffer_width as int, l.z_buffer_height as int, cx,
                    cy, vp.z, bias, radius,
                )
            } else {
                pcf_dense_vis(l.z_buffer@, l.z_buffer_width as int, l.z_buffer_height as int,
                    cx, cy, vp.z, bias, radius,
                )
            }
        }
    }
}

/// The blocker-search radius of the PCSS query (a heuristic of the light
/// size, the projection and the map resolution), clamped to the kernel
/// limit; degenerate receivers fall back to radius one.
pub open spec fn spot_pcss_radius(l: SpotLight, view_z: int) -> int {
    if view_z == 0 {
        1
    } else {
        let t = fdiv(
            fdiv(
                fdiv(fmul(fmul(fdiv(fadd(view_z, FX_ONE as int), view_z), FX_HALF as int),
                    l.light_size as int), l.fov_factor as int),
                l.pixel_radius as int,
            ),
            sat64(32 * FX_ONE as int),
        );
        let r = fx_round_spec(t);
        let r1 = if r >= 1 {
            r
        } else {
            1
        };
        if r1 > KERNEL_RADIUS_MAX as int {
            KERNEL_RADIUS_MAX as int
        } else {
            r1
        }
    }
}

/// The blocker count and accumulated blocker depth the PCSS search finds.
pub open spec fn spot_pcss_blockers(l: SpotLight, cx: int, cy: int, view_z: int, bias: int)
    -> (int, int) {
    let sr = spot_pcss_radius(l, view_z);
    if l.enable_pcss_sample_accelerate {
        pcss_search_fib(l.z_buffer@, l.z_buffer_width as int, l.z_buffer_height as int, cx, cy,
            view_z, bias, sr, 0, 0, 0,
        )
    } else {
        pcss_search(l.z_buffer@, l.z_buffer_width as int, l.z_buffer_height as int, cx, cy,
            view_z, bias, sr, -sr, -sr, 0, 0,
        )
    }
}

/// The kernel radius PCF runs with after the blocker search: proportional to
/// the penumbra estimate, scaled by the projection and the map resolution,
/// clamped to the kernel limit; degenerate receivers fall back to radius one.
pub open spec fn spot_penumbra_pcf_radius(l: SpotLight, view_z: int, avg_blocker: int) -> int {
    if avg_blocker == 0 || fneg(view_z) == 0 {
        1
    } else {
        let penumbra = fmul(fdiv(fsub(view_z, avg_blocker), avg_blocker), l.light_size as int);
        let t = fdiv(fdiv(fdiv(fmul(FX_HALF as int, penumbra), fneg(view_z)), l.fov_factor
            as int), l.pixel_radius as int);
        let r = fx_round_spec(t);
        let r1 = if r >= 1 {
            r
        } else {
            1
        };
        if r1 > KERNEL_RADIUS_MAX as int {
            KERNEL_RADIUS_MAX as int
        } else {
            r1
        }
    }
}

/// The PCSS visibility of a point: zero outside the frustum; fully lit when
/// the blocker search finds nothing, or when the average blocker depth is
/// within the tolerance of zero (a degenerate estimate); otherwise PCF with
/// the radius derived from the average blocker depth.
pub open spec fn spot_pcss(l: SpotLight, point: V3, normal: V3) -> int {
    if !l.enable_shadow {
        FX_ONE as int
    } else {
        let tp = mul4v(l.mvp@, homog(point));
        if !in_light_frustum(tp) {
            0
        } else {
            let cx = light_texel(tp.x, tp.w, l.z_buffer_width as int);
            let cy = light_texel(tp.y, tp.w, l.z_buffer_height as int);
            let vp = mul4v(l.mv@, homog(point));
            let bias = spot_bias(l, point, normal, vp.z);
            let nb = spot_pcss_blockers(l, cx, cy, vp.z, bias);
            if nb.0 == 0 {
                FX_ONE as int
            } else {
                let avg = fdiv(nb.1, sat64(nb.0 * FX_ONE as int));
                if avg > -(FX_EPS as int) {
                    FX_ONE as int
                } else {
                    let pr = spot_penumbra_pcf_radius(l, vp.z, avg);
                    if l.enable_pcf_sample_accelerate {
                        pcf_fib_vis(l.z_buffer@, l.z_buffer_width as int, l.z_buffer_height
                            as int, cx, cy, vp.z, bias, pr,
                        )
                    } else {
                        pcf_dense_vis(l.z_buffer@, l.z_buffer_width as int, l.z_buffer_height
                            as int, cx, cy, vp.z, bias, pr,
                        )
                    }
                }
            }
        }
    }
}

impl SpotLight {
    /// A spot light with the default projection and shadow settings.
    pub fn new() -> (r: SpotLight)
        ensures
            spot_dims_wf(r),
            spot_map_wf(r),
            r.enable_shadow,
            !r.enable_pcf_sample_accelerate,
            r.enable_pcss_sample_accelerate,
            r.enable_penumbra_mask,
            r.z_buffer_width == 2048,
            r.z_buffer_height == 2048,
    {
        let mut zb: Vec<i64> = Vec::new();
        let mut i: usize = 0;
        while i < 2048 * 2048
            invariant
                zb@.len() == i,
                i <= 2048 * 2048,
            decreases 2048 * 2048 - i,
        {
            zb.push(LIGHT_Z_EMPTY);
            i = i + 1;
        }
        SpotLight {
            light: Light::new(Vec3::zero(), Vec3::zero()),
            light_dir: Vec3 { x: 0, y: 0, z: -FX_ONE },
            tan_half_fov: FX_ONE,
            aspect_ratio: FX_ONE,
            z_near: -6554,
            z_far: -65536000,
            z_buffer_width: 2048,
            z_buffer_height: 2048,
            penumbra_mask_width: 1,
            penumbra_mask_height: 1,
            light_size: FX_ONE,
            fov_factor: FX_ONE,
            pixel_radius: 32,
            enable_shadow: true,
            enable_pcf_sample_accelerate: false,
            enable_pcss_sample_accelerate: true,
            enable_penumbra_mask: true,
            mvp: Mat4::identity(),
            mv: Mat4::identity(),
            z_buffer: zb,
            penumbra_mask: vec![0],
        }
    }

    /// The light's position.
    pub fn get_pos(&self) -> (r: Vec3)
        ensures
            r == self.light.pos,
    {
        self.light.get_pos()
    }

    /// Move the light.
    pub fn set_pos(&mut self, pos: Vec3)
        ensures
            *final(self) == (SpotLight { light: Light { pos, ..old(self).light }, ..*old(self) }),
    {
        self.light.set_pos(pos);
    }

    /// The light's intensity.
    pub fn get_intensity(&self) -> (r: Vec3)
        ensures
            r == self.light.intensity,
    {
        self.light.get_intensity()
    }

    /// Change the light's intensity.
    pub fn set_intensity(&mut self, intensity: Vec3)
        ensures
            *final(self) == (SpotLight {
                light: Light { intensity, ..old(self).light },
                ..*old(self)
            }),
    {
        self.light.set_intensity(intensity);
    }

    /// The unit direction from the light to a point.
    pub fn compute_world_light_dir(&self, point: &Vec3) -> (r: Vec3)
        ensures
            r@ == norm3(sub3(point@, self.light.pos@)),
    {
        self.light.compute_world_light_dir(point)
    }

    /// The intensity arriving at a point (inverse-square falloff).
    pub fn compute_world_light_intensity(&self, point: &Vec3) -> (r: Vec3)
        ensures
            r@ == crate::light::point_light_intensity(self.light.intensity@, self.light.pos@,
                point@,
            ),
    {
        self.light.compute_world_light_intensity(point)
    }

    /// Point the light along a direction (normalized on the way in).
    pub fn set_light_dir(&mut self, light_dir: Vec3)
        ensures
            final(self).light_dir@ == norm3(light_dir@),
            *final(self) == (SpotLight { light_dir: final(self).light_dir, ..*old(self) }),
    {
        self.light_dir = light_dir.normalize();
    }

    /// The light's direction.
    pub fn get_light_dir(&self) -> (r: Vec3)
        ensures
            r == self.light_dir,
    {
        self.light_dir
    }

    /// Change the tangent of half the vertical field of view.
    pub fn set_fov(&mut self, tan_half_fov: i64)
        requires
            tan_half_fov > 0,
        ensures
            *final(self) == (SpotLight { tan_half_fov, ..*old(self) }),
    {
        self.tan_half_fov = tan_half_fov;
    }

    /// The tangent of half the vertical field of view.
    pub fn get_fov(&self) -> (r: i64)
        ensures
            r == self.tan_half_fov,
    {
        self.tan_half_fov
    }

    /// Change the aspect ratio of the light's projection.
    pub fn set_aspect_ratio(&mut self, aspect_ratio: i64)
        requires
            aspect_ratio > 0,
        ensures
            *final(self) == (SpotLight { aspect_ratio, ..*old(self) }),
    {
        self.aspect_ratio = aspect_ratio;
    }

    /// The aspect ratio of the light's projection.
    pub fn get_aspect_ratio(&self) -> (r: i64)
        ensures
            r == self.aspect_ratio,
    {
        self.aspect_ratio
    }

    /// Change the near plane (a negative view depth).
    pub fn set_z_near(&mut self, z_near: i64)
        requires
            z_near != old(self).z_far,
        ensures
            *final(self) == (SpotLight { z_near, ..*old(self) }),
    {
        self.z_near = z_near;
    }

    /// The near plane.
    pub fn get_z_near(&self) -> (r: i64)
        ensures
            r == self.z_near,
    {
        self.z_near
    }

    /// Change the far plane (a negative view depth).
    pub fn set_z_far(&mut self, z_far: i64)
        requires
            z_far != old(self).z_near,
        ensures
            *final(self) == (SpotLight { z_far, ..*old(self) }),
    {
        self.z_far = z_far;
    }

    /// The far plane.
    pub fn get_z_far(&self) -> (r: i64)
        ensures
            r == self.z_far,
    {
        self.z_far
    }

    /// Change the shadow map width.
    pub fn set_z_buffer_width(&mut self, z_buffer_width: usize)
        requires
            1 <= z_buffer_width <= 0x4000,
        ensures
            *final(self) == (SpotLight { z_buffer_width, ..*old(self) }),
    {
        self.z_buffer_width = z_buffer_width;
    }

    /// The shadow map width.
    pub fn get_z_buffer_width(&self) -> (r: usize)
        ensures
            r == self.z_buffer_width,
    {
        self.z_buffer_width
    }

    /// Change the shadow map height.
    pub fn set_z_buffer_height(&mut self, z_buffer_height: usize)
        requires
            1 <= z_buffer_height <= 0x4000,
        ensures
            *final(self) == (SpotLight { z_buffer_height, ..*old(self) }),
    {
        self.z_buffer_height = z_buffer_height;
    }

    /// The shadow map height.
    pub fn get_z_buffer_height(&self) -> (r: usize)
        ensures
            r == self.z_buffer_height,
    {
        self.z_buffer_height
    }

    /// Whether shadowing is enabled.
    pub fn get_shadow_status(&self) -> (r: bool)
        ensures
            r == self.enable_shadow,
    {
        self.enable_shadow
    }

    /// Enable or disable shadowing.
    pub fn set_shadow_status(&mut self, status: bool)
        ensures
            *final(self) == (SpotLight { enable_shadow: status, ..*old(self) }),
    {
        self.enable_shadow = status;
    }

    /// Whether PCF uses the sample-accelerated kernel.
    pub fn get_pcf_sample_accelerate_status(&self) -> (r: bool)
        ensures
            r == self.enable_pcf_sample_accelerate,
    {
        self.enable_pcf_sample_accelerate
    }

    /// Switch PCF between the dense and the sample-accelerated kernel.
    pub fn set_pcf_sample_accelerate_status(&mut self, status: bool)
        ensures
            *final(self) == (SpotLight { enable_pcf_sample_accelerate: status, ..*old(self) }),
    {
        self.enable_pcf_sample_accelerate = status;
    }

    /// Whether the PCSS blocker search uses the sample-accelerated kernel.
    pub fn get_pcss_sample_accelerate_status(&self) -> (r: bool)
        ensures
            r == self.enable_pcss_sample_accelerate,
    {
        self.enable_pcss_sample_accelerate
    }

    /// Switch the PCSS blocker search between the dense and the
    /// sample-accelerated kernel.
    pub fn set_pcss_sample_accelerate_status(&mut self, status: bool)
        ensures
            *final(self) == (SpotLight { enable_pcss_sample_accelerate: status, ..*old(self) }),
    {
        self.enable_pcss_sample_accelerate = status;
    }

    /// Whether the penumbra-mask accelerator is enabled.
    pub fn get_penumbra_mask_status(&self) -> (r: bool)
        ensures
            r == self.enable_penumbra_mask,
    {
        self.enable_penumbra_mask
    }

    /// Enable or disable the penumbra-mask accelerator.
    pub fn set_penumbra_mask_status(&mut self, status: bool)
        ensures
            *final(self) == (SpotLight { enable_penumbra_mask: status, ..*old(self) }),
    {
        self.enable_penumbra_mask = status;
    }

    /// Answer a point-visibility query with the chosen shadow method.
    pub fn in_shadow(&self, point: &Vec3, normal: &Vec3, shadow_method: ShadowMethod) -> (r:
        i64)
        requires
            spot_dims_wf(*self),
            spot_map_wf(*self),
        ensures
            r as int == (match shadow_method {
                ShadowMethod::DIRECT => spot_direct(*self, point@, normal@),
                ShadowMethod::PCF => spot_pcf(*self, point@, normal@,
                    SPOT_LIGHT_PCF_RADIUS as int),
                ShadowMethod::PCSS => spot_pcss(*self, point@, normal@),
            }),
    {
        match shadow_method {
            ShadowMethod::DIRECT => self.in_shadow_direct(point, normal),
            ShadowMethod::PCF => self.in_shadow_pcf(point, normal),
            ShadowMethod::PCSS => self.in_shadow_pcss(point, normal),
        }
    }

    fn receiver(&self, point: &Vec3, normal: &Vec3) -> (r: Option<(i64, i64, i64, i64)>)
        requires
            spot_dims_wf(*self),
            spot_map_wf(*self),
        ensures
            (match r {
                None => !in_light_frustum(mul4v(self.mvp@, homog(point@))),
                Some(v) => {
                    let tp = mul4v(self.mvp@, homog(point@));
                    &&& in_light_frustum(tp)
                    &&& v.0 as int == light_texel(tp.x, tp.w, self.z_buffer_width as int)
                    &&& v.1 as int == light_texel(tp.y, tp.w, self.z_buffer_height as int)
                    &&& v.2 as int == mul4v(self.mv@, homog(point@)).z
                    &&& v.3 as int == spot_bias(*self, point@, normal@, mul4v(self.mv@,
                        homog(point@)).z)
                    &&& 0 <= v.0 < self.z_buffer_width
                    &&& 0 <= v.1 < self.z_buffer_height
                },
            }),
    {
        let tp = self.mvp.mul_vec(&crate::vec::homogeneous(point));
        if !light_frustum_test(&tp) {
            return None;
        }
        let cx = light_texel_exec(tp.x, tp.w, self.z_buffer_width);
        let cy = light_texel_exec(tp.y, tp.w, self.z_buffer_height);
        let vp = self.mv.mul_vec(&crate::vec::homogeneous(point));
        let slope = {
            let nl = self.light.pos.sub(point).normalize().dot(normal);
            let nl0 = fx_max(nl, 0);
            fx_max(FX_PT2, fx_sub(FX_ONE, nl0))
        };
        let bias = fx_mul(
            fx_mul(
                fx_mul(fx_mul(fx_mul(slope, LIGHT_BIAS_SCALE), self.fov_factor), fx_neg(vp.z)),
                fx_from_int(512),
            ),
            self.pixel_radius,
        );
        Some((cx, cy, vp.z, bias))
    }

    /// The DIRECT visibility of a point: fully lit or fully shadowed by one
    /// biased depth comparison (fully lit when shadowing is off, zero outside
    /// the light frustum).
    pub fn in_shadow_direct(&self, point: &Vec3, normal: &Vec3) -> (r: i64)
        requires
            spot_dims_wf(*self),
            spot_map_wf(*self),
        ensures
            r as int == spot_direct(*self, point@, normal@),
    {
        if !self.enable_shadow {
            return FX_ONE;
        }
        match self.receiver(point, normal) {
            None => 0,
            Some((cx, cy, depth, bias)) => direct_vis_exec(&self.z_buffer, self.z_buffer_width,
                self.z_buffer_height, cx, cy, depth, bias,
            ),
        }
    }

    /// The PCF visibility of a point with a given kernel radius.
    pub fn in_shadow_pcf_radius(&self, point: &Vec3, normal: &Vec3, radius: i64) -> (r: i64)
        requires
            spot_dims_wf(*self),
            spot_map_wf(*self),
            0 <= radius <= KERNEL_RADIUS_MAX,
        ensures
            r as int == spot_pcf(*self, point@, normal@, radius as int),
    {
        if !self.enable_shadow {
            return FX_ONE;
        }
        match self.receiver(point, normal) {
            None => 0,
            Some((cx, cy, depth, bias)) => {
                if self.enable_pcf_sample_accelerate {
                    pcf_fib_vis_exec(&self.z_buffer, self.z_buffer_width, self.z_buffer_height,
                        cx, cy, depth, bias, radius,
                    )
                } else {
                    pcf_dense_vis_exec(&self.z_buffer, self.z_buffer_width,
                        self.z_buffer_height, cx, cy, depth, bias, radius,
                    )
                }
            },
        }
    }

    /// The PCF visibility of a point with the light's fixed kernel radius.
    pub fn in_shadow_pcf(&self, point: &Vec3, normal: &Vec3) -> (r: i64)
        requires
            spot_dims_wf(*self),
            spot_map_wf(*self),
        ensures
            r as int == spot_pcf(*self, point@, normal@, SPOT_LIGHT_PCF_RADIUS as int),
    {
        self.in_shadow_pcf_radius(point, normal, SPOT_LIGHT_PCF_RADIUS)
    }

    /// The PCSS visibility of a point: fully lit whenever the blocker search
    /// finds no blocker, else PCF with the penumbra-derived radius.
    pub fn in_shadow_pcss(&self, point: &Vec3, normal: &Vec3) -> (r: i64)
        requires
            spot_dims_wf(*self),
            spot_map_wf(*self),
        ensures
            r as int == spot_pcss(*self, point@, normal@),
            ({
                let tp = mul4v(self.mvp@, homog(point@));
                let vp = mul4v(self.mv@, homog(point@));
                self.enable_shadow && in_light_frustum(tp) && spot_pcss_blockers(
                    *self,
                    light_texel(tp.x, tp.w, self.z_buffer_width as int),
                    light_texel(tp.y, tp.w, self.z_buffer_height as int),
                    vp.z,
                    spot_bias(*self, point@, normal@, vp.z),
                ).0 == 0
            }) ==> r == FX_ONE,
    {
        if !self.enable_shadow {
            return FX_ONE;
        }
        match self.receiver(point, normal) {
            None => 0,
            Some((cx, cy, depth, bias)) => {
                let sr = self.pcss_radius_exec(depth);
                let (n, d) = if self.enable_pcss_sample_accelerate {
                    self.pcss_search_fib_exec(cx, cy, depth, bias, sr)
                } else {
                    self.pcss_search_dense_exec(cx, cy, depth, bias, sr)
                };
                if n == 0 {
                    return FX_ONE;
                }
                proof {
                    assert(1 <= n as int * FX_ONE as int <= 0x10000000000000000000)
                        by (nonlinear_arith)
                        requires
                            1 <= n,
                            n <= 0x100000000,
                    ;
                }
                let avg = fx_div(d, fx_from_int(n));
                if avg > -FX_EPS {
                    return FX_ONE;
                }
                let pr = self.penumbra_pcf_radius_exec(depth, avg);
                if self.enable_pcf_sample_accelerate {
                    pcf_fib_vis_exec(&self.z_buffer, self.z_buffer_width, self.z_buffer_height,
                        cx, cy, depth, bias, pr,
                    )
                } else {
                    pcf_dense_vis_exec(&self.z_buffer, self.z_buffer_width,
                        self.z_buffer_height, cx, cy, depth, bias, pr,
                    )
                }
            },
        }
    }

    fn pcss_radius_exec(&self, view_z: i64) -> (r: i64)
        requires
            spot_dims_wf(*self),
            spot_map_wf(*self),
        ensures
            r as int == spot_pcss_radius(*self, view_z as int),
            1 <= r <= KERNEL_RADIUS_MAX,
    {
        if view_z == 0 {
            return 1;
        }
        let t = fx_div(
            fx_div(
                fx_div(fx_mul(fx_mul(fx_div(fx_add(view_z, FX_ONE), view_z), FX_HALF),
                    self.light_size), self.fov_factor),
                self.pixel_radius,
            ),
            fx_from_int(32),
        );
        let r = fx_round(t);
        let r1 = if r >= 1 {
            r
        } else {
            1
        };
        if r1 > KERNEL_RADIUS_MAX {
            KERNEL_RADIUS_MAX
        } else {
            r1
        }
    }

    fn penumbra_pcf_radius_exec(&self, view_z: i64, avg_blocker: i64) -> (r: i64)
        requires
            spot_dims_wf(*self),
            spot_map_wf(*self),
        ensures
            r as int == spot_penumbra_pcf_radius(*self, view_z as int, avg_blocker as int),
            1 <= r <= KERNEL_RADIUS_MAX,
    {
        let nz = fx_neg(view_z);
        if avg_blocker == 0 || nz == 0 {
            return 1;
        }
        let penumbra = fx_mul(fx_div(fx_sub(view_z, avg_blocker), avg_blocker),
            self.light_size);
        let t = fx_div(fx_div(fx_div(fx_mul(FX_HALF, penumbra), nz), self.fov_factor),
            self.pixel_radius);
        let r = fx_round(t);
        let r1 = if r >= 1 {
            r
        } else {
            1
        };
        if r1 > KERNEL_RADIUS_MAX {
            KERNEL_RADIUS_MAX
        } else {
            r1
        }
    }

    fn pcss_search_dense_exec(&self, cx: i64, cy: i64, depth: i64, bias: i64, sr: i64) -> (r: (
        i64,
        i64,
    ))
        requires
            spot_dims_wf(*self),
            spot_map_wf(*self),
            0 <= cx < self.z_buffer_width,
            0 <= cy < self.z_buffer_height,
            1 <= sr <= KERNEL_RADIUS_MAX,
        ensures
            (r.0 as int, r.1 as int) == pcss_search(self.z_buffer@, self.z_buffer_width as int,
                self.z_buffer_height as int, cx as int, cy as int, depth as int, bias as int,
                sr as int, -sr as int, -sr as int, 0, 0,
            ),
            0 <= r.0 <= 0x100000000,
    {
        let mut n: i64 = 0;
        let mut dsum: i64 = 0;
        let mut oy: i64 = -sr;
        let mut ox: i64 = -sr;
        let ghost w = self.z_buffer_width as int;
        let ghost h = self.z_buffer_height as int;
        let ghost goal = pcss_search(self.z_buffer@, w, h, cx as int, cy as int, depth as int,
            bias as int, sr as int, -sr as int, -sr as int, 0, 0,
        );
        while oy <= sr
            invariant
                spot_dims_wf(*self),
                spot_map_wf(*self),
                0 <= cx < self.z_buffer_width,
                0 <= cy < self.z_buffer_height,
                1 <= sr <= KERNEL_RADIUS_MAX,
                w == self.z_buffer_width as int,
                h == self.z_buffer_height as int,
                -sr <= oy <= sr + 1,
                -sr <= ox <= sr + 1,
                oy <= sr ==> -sr <= ox,
                0 <= n,
                n <= (oy + sr) * (2 * sr + 1) + (ox + sr),
                goal == pcss_search(self.z_buffer@, w, h, cx as int, cy as int, depth as int,
                    bias as int, sr as int, oy as int, ox as int, n as int, dsum as int,
                ),
            decreases sr - oy + 1, sr - ox + 2,
        {
            if ox > sr {
                proof {
                    assert((oy as int + sr) * (2 * sr as int + 1) + (ox as int + sr) == (
                    oy as int + 1 + sr) * (2 * sr as int + 1)) by (nonlinear_arith)
                        requires
                            ox == sr + 1,
                            1 <= sr,
                    ;
                }
                oy = oy + 1;
                ox = -sr;
            } else {
                let (b, td) = texel_blocked_exec(&self.z_buffer, self.z_buffer_width,
                    self.z_buffer_height, cx, cy, depth, bias, ox, oy,
                );
                if b {
                    proof {
                        assert(n < (2 * sr as int + 1) * (2 * sr as int + 1)
                            <= 0x4004001) by (nonlinear_arith)
                            requires
                                1 <= sr <= KERNEL_RADIUS_MAX,
                                -sr <= oy <= sr,
                                -sr <= ox <= sr,
                                n <= (oy + sr) * (2 * sr + 1) + (ox + sr),
                        ;
                    }
                    n = n + 1;
                    dsum = fx_add(dsum, td);
                }
                proof {
                    assert((oy as int + sr) * (2 * sr as int + 1) + (ox as int + 1 + sr)
                        <= (oy as int + 1 + sr) * (2 * sr as int + 1)) by (nonlinear_arith)
                        requires
                            -sr <= ox <= sr,
                            1 <= sr,
                    ;
                }
                ox = ox + 1;
            }
        }
        proof {
            assert(0x4004001int * 1 <= 0x100000000int) by (nonlinear_arith);
            assert(n <= (2 * sr as int + 2) * (2 * sr as int + 1)) by (nonlinear_arith)
                requires
                    n <= (oy + sr) * (2 * sr + 1) + (ox + sr),
                    oy == sr + 1 || oy <= sr,
                    oy <= sr + 1,
                    -sr <= ox <= sr + 1,
                    1 <= sr,
            ;
            assert((2 * sr as int + 2) * (2 * sr as int + 1) <= 0x100000000int)
                by (nonlinear_arith)
                requires
                    1 <= sr <= KERNEL_RADIUS_MAX,
            ;
        }
        (n, dsum)
    }

    fn pcss_search_fib_exec(&self, cx: i64, cy: i64, depth: i64, bias: i64, sr: i64) -> (r: (
        i64,
        i64,
    ))
        requires
            spot_dims_wf(*self),
            spot_map_wf(*self),
            0 <= cx < self.z_buffer_width,
            0 <= cy < self.z_buffer_height,
            1 <= sr <= KERNEL_RADIUS_MAX,
        ensures
            (r.0 as int, r.1 as int) == pcss_search_fib(self.z_buffer@, self.z_buffer_width
                as int, self.z_buffer_height as int, cx as int, cy as int, depth as int,
                bias as int, sr as int, 0, 0, 0,
            ),
            0 <= r.0 <= 0x100000000,
    {
        let ghost w = self.z_buffer_width as int;
        let ghost h = self.z_buffer_height as int;
        let ghost goal = pcss_search_fib(self.z_buffer@, w, h, cx as int, cy as int,
            depth as int, bias as int, sr as int, 0, 0, 0,
        );
        let radius_fx = fx_from_int(sr);
        let mut n: i64 = 0;
        let mut dsum: i64 = 0;
        let mut i: usize = 0;
        while i < crate::fib::FIB_SAMPLE_NUM
            invariant
                spot_dims_wf(*self),
                spot_map_wf(*self),
                0 <= cx < self.z_buffer_width,
                0 <= cy < self.z_buffer_height,
                1 <= sr <= KERNEL_RADIUS_MAX,
                w == self.z_buffer_width as int,
                h == self.z_buffer_height as int,
                radius_fx as int == sat64(sr as int * FX_ONE as int),
                i <= 64,
                0 <= n <= i,
                goal == pcss_search_fib(self.z_buffer@, w, h, cx as int, cy as int,
                    depth as int, bias as int, sr as int, i as int, n as int, dsum as int,
                ),
            decreases 64 - i,
        {
            let sd = crate::fib::compute_fibonacci_spiral_disk_sample_uniform(i,
                crate::light::FIB_COUNT_INV,
            );
            let ox = crate::fx::fx_clamp(fx_round(fx_mul(radius_fx, sd.x)), -0x4000, 0x4000);
            let oy = crate::fx::fx_clamp(fx_round(fx_mul(radius_fx, sd.y)), -0x4000, 0x4000);
            let (b, td) = texel_blocked_exec(&self.z_buffer, self.z_buffer_width,
                self.z_buffer_height, cx, cy, depth, bias, ox, oy,
            );
            if b {
                n = n + 1;
                dsum = fx_add(dsum, td);
            }
            i = i + 1;
        }
        (n, dsum)
    }

    /// Build the light's shadow map: clear it to the reversed-convention
    /// sentinel, derive the light's own view and perspective projection,
    /// clip and screen-map every model for that projection, and rasterize
    /// depth only, farthest-wins.
    #[verifier::rlimit(100)]
    pub fn look_at(&mut self, models: &mut Vec<Model>)
        requires
            spot_dims_wf(*old(self)),
        ensures
            !old(self).enable_shadow ==> *final(self) == *old(self) && final(models)@
                == old(models)@,
            old(self).enable_shadow ==> {
                let mvp = final(self).mvp@;
                let mv = final(self).mv@;
                let w = old(self).z_buffer_width as int;
                let h = old(self).z_buffer_height as int;
                let prepared = models_prepared(
                    Seq::new(old(models)@.len(), |i: int| if 0 <= i < old(models)@.len() {
                        model_view(old(models)@[i])
                    } else {
                        crate::model::empty_model_g()
                    }),
                    mvp,
                    mv,
                    w,
                    h,
                );
                &&& mv == mul4m(view_mat(old(self).light.pos@, old(self).light_dir@), ident4())
                &&& mvp == mul4m(
                    projection_mat(old(self).tan_half_fov as int, old(self).aspect_ratio as int,
                        old(self).z_near as int, old(self).z_far as int),
                    mv,
                )
                &&& final(self).fov_factor == old(self).tan_half_fov
                &&& final(self).pixel_radius as int == spot_pixel_radius(*old(self))
                &&& *final(self) == (SpotLight {
                    mvp: final(self).mvp,
                    mv: final(self).mv,
                    fov_factor: final(self).fov_factor,
                    pixel_radius: final(self).pixel_radius,
                    z_buffer: final(self).z_buffer,
                    ..*old(self)
                })
                &&& spot_map_wf(*final(self))
                &&& final(models)@.len() == old(models)@.len()
                &&& forall|k: int| 0 <= k < old(models)@.len() ==> model_view(
                    #[trigger] final(models)@[k],
                ) == prepared[k]
                &&& forall|x: int, y: int|
                    #![trigger pix_idx(old(self).z_buffer_width as int, x, y)]
                    0 <= x < w && 0 <= y < h ==> final(self).z_buffer@[pix_idx(w, x, y)] as int
                        == apply_shadow_model_seq(LIGHT_Z_EMPTY as int, prepared, true, true, 0,
                        0, h, w, x, y,
                    )
            },
    {
        if !self.enable_shadow {
            return ;
        }
        let w = self.z_buffer_width;
        let h = self.z_buffer_height;
        proof {
            assert(w * h <= 0x10000000) by (nonlinear_arith)
                requires
                    w <= 0x4000,
                    h <= 0x4000,
            ;
        }
        self.z_buffer = crate::raster::filled_i64(w * h, LIGHT_Z_EMPTY);
        let modeling = Mat4::identity();
        let view = get_view_matrix(&self.light.get_pos(), &self.light_dir);
        let projection = get_projection_matrix(self.tan_half_fov, self.aspect_ratio,
            self.z_near, self.z_far);
        self.mv = view.mul_mat(&modeling);
        self.mvp = projection.mul_mat(&self.mv);
        self.fov_factor = self.tan_half_fov;
        let pr = fx_max(fx_div(FX_ONE, fx_from_int(h as i64)), fx_div(self.aspect_ratio,
            fx_from_int(w as i64)));
        self.pixel_radius = if pr <= 0 {
            1
        } else {
            pr
        };
        let ghost views0 = Seq::new(old(models)@.len(), |i: int| if 0 <= i
            < old(models)@.len() {
            model_view(old(models)@[i])
        } else {
            crate::model::empty_model_g()
        });
        let ghost prepared = models_prepared(views0, self.mvp@, self.mv@, w as int, h as int);
        let ghost lightstate = *self;
        let n = models.len();
        let mut k: usize = 0;
        while k < n
            invariant
                *self == lightstate,
                spot_dims_wf(*self),
                w == self.z_buffer_width,
                h == self.z_buffer_height,
                n == models.len(),
                k <= n,
                n == views0.len(),
                n == prepared.len(),
                prepared == models_prepared(views0, self.mvp@, self.mv@, w as int, h as int),
                forall|j: int| k <= j < n ==> model_view(#[trigger] models@[j]) == views0[j],
                forall|j: int| 0 <= j < k ==> model_view(#[trigger] models@[j]) == prepared[j],
            decreases n - k,
        {
            let mut m = models.remove(k);
            m.clip(&self.mvp, &self.mv);
            m.to_ndc(w as i64, h as i64);
            models.insert(k, m);
            k = k + 1;
        }
        let ghost zgoal = |x: int, y: int| apply_shadow_model_seq(LIGHT_Z_EMPTY as int,
            prepared, true, true, 0, 0, h as int, w as int, x, y,
        );
        let mut k2: usize = 0;
        proof {
            assert(prepared.skip(0) =~= prepared);
            assert forall|x: int, y: int| 0 <= x < w && 0 <= y < h implies self.z_buffer@[
                #[trigger] pix_idx(w as int, x, y)
            ] == LIGHT_Z_EMPTY by {
                assert(0 <= pix_idx(w as int, x, y) < w * h) by (nonlinear_arith)
                    requires
                        0 <= x < w,
                        0 <= y < h,
                ;
            }
        }
        while k2 < n
            invariant
                *self == (SpotLight { z_buffer: self.z_buffer, ..lightstate }),
                spot_dims_wf(*self),
                w == self.z_buffer_width,
                h == self.z_buffer_height,
                self.z_buffer@.len() == w * h,
                n == models.len(),
                k2 <= n,
                n == prepared.len(),
                forall|j: int| 0 <= j < n ==> model_view(#[trigger] models@[j]) == prepared[j],
                forall|x: int, y: int|
                    #![trigger pix_idx(w as int, x, y)]
                    0 <= x < w && 0 <= y < h ==> apply_shadow_model_seq(
                        self.z_buffer@[pix_idx(w as int, x, y)] as int,
                        prepared.skip(k2 as int),
                        true,
                        true,
                        0,
                        0,
                        h as int,
                        w as int,
                        x,
                        y,
                    ) == apply_shadow_model_seq(LIGHT_Z_EMPTY as int, prepared, true, true, 0, 0,
                        h as int, w as int, x, y,
                    ),
            decreases n - k2,
        {
            let m = &models[k2];
            let ghost zpre = self.z_buffer@;
            m.rasterization_shadow_map(&mut self.z_buffer, w, h, true, true, 0, 0, h, w);
            proof {
                assert forall|x: int, y: int| 0 <= x < w && 0 <= y < h implies
                    apply_shadow_model_seq(
                    self.z_buffer@[#[trigger] pix_idx(w as int, x, y)] as int,
                    prepared.skip(k2 as int + 1),
                    true,
                    true,
                    0,
                    0,
                    h as int,
                    w as int,
                    x,
                    y,
                ) == apply_shadow_model_seq(LIGHT_Z_EMPTY as int, prepared, true, true, 0, 0,
                    h as int, w as int, x, y,
                ) by {
                    assert(prepared.skip(k2 as int)[0] == prepared[k2 as int]);
                    assert(prepared.skip(k2 as int).skip(1) =~= prepared.skip(k2 as int + 1));
                    assert(self.z_buffer@[pix_idx(w as int, x, y)] as int
                        == crate::model::apply_shadow_model(
                        zpre[pix_idx(w as int, x, y)] as int,
                        prepared[k2 as int],
                        true,
                        true,
                        0,
                        0,
                        h as int,
                        w as int,
                        x,
                        y,
                    ));
                }
            }
            k2 = k2 + 1;
        }
        proof {
            assert(prepared.skip(n as int) =~= Seq::<ModelG>::empty());
        }
    }

    /// Mark the coarse cells near a hard-shadow boundary: a cell is marked
    /// when its 4x4 block of already-rasterized fragments is neither
    /// unanimously lit nor unanimously shadowed under the cheap DIRECT test.
    pub fn generate_penumbra_mask(&mut self, g: &GBuffer)
        requires
            spot_dims_wf(*old(self)),
            spot_map_wf(*old(self)),
            gbuf_wf(*g),
            1 <= g.width,
            1 <= g.height,
        ensures
            !(old(self).enable_shadow && old(self).enable_penumbra_mask) ==> *final(self)
                == *old(self),
            (old(self).enable_shadow && old(self).enable_penumbra_mask) ==> {
                &&& *final(self) == (SpotLight {
                    penumbra_mask: final(self).penumbra_mask,
                    penumbra_mask_width: final(self).penumbra_mask_width,
                    penumbra_mask_height: final(self).penumbra_mask_height,
                    ..*old(self)
                })
                &&& final(self).penumbra_mask_width == (g.width + 3) / 4
                &&& final(self).penumbra_mask_height == (g.height + 3) / 4
                &&& spot_mask_wf(*final(self))
                &&& forall|cx: int, cy: int|
                    #![trigger pix_idx(final(self).penumbra_mask_width as int, cx, cy)]
                    0 <= cx < final(self).penumbra_mask_width
                        && 0 <= cy < final(self).penumbra_mask_height
                        ==> final(self).penumbra_mask@[pix_idx(
                        final(self).penumbra_mask_width as int,
                        cx,
                        cy,
                    )] as int == penumbra_cell(*old(self), *g, cx, cy)
            },
    {
        if !(self.enable_shadow && self.enable_penumbra_mask) {
            return ;
        }
        let pmw = (g.width + 3) / 4;
        let pmh = (g.height + 3) / 4;
        let ghost l0 = *self;
        let mut mask: Vec<i64> = Vec::new();
        let mut cy: usize = 0;
        while cy < pmh
            invariant
                *self == l0,
                spot_dims_wf(*self),
                spot_map_wf(*self),
                gbuf_wf(*g),
                1 <= g.width,
                1 <= g.height,
                pmw == (g.width + 3) / 4,
                pmh == (g.height + 3) / 4,
                1 <= pmw <= 0x4000,
                1 <= pmh <= 0x4000,
                cy <= pmh,
                mask@.len() == cy * pmw,
                forall|x2: int, y2: int|
                    #![trigger pix_idx(pmw as int, x2, y2)]
                    0 <= x2 < pmw && 0 <= y2 < cy ==> mask@[pix_idx(pmw as int, x2, y2)] as int
                        == penumbra_cell(l0, *g, x2, y2),
                forall|i: int| 0 <= i < mask@.len() ==> 0 <= #[trigger] mask@[i]
                    <= MASK_CELL_MAX,
            decreases pmh - cy,
        {
            let mut cx: usize = 0;
            while cx < pmw
                invariant
                    *self == l0,
                    spot_dims_wf(*self),
                    spot_map_wf(*self),
                    gbuf_wf(*g),
                    1 <= g.width,
                    1 <= g.height,
                    pmw == (g.width + 3) / 4,
                    pmh == (g.height + 3) / 4,
                    1 <= pmw <= 0x4000,
                    1 <= pmh <= 0x4000,
                    cy < pmh,
                    cx <= pmw,
                    mask@.len() == cy * pmw + cx,
                    forall|x2: int, y2: int|
                        #![trigger pix_idx(pmw as int, x2, y2)]
                        (0 <= x2 < pmw && 0 <= y2 < cy) || (y2 == cy && 0 <= x2 < cx) ==> mask@[
                            pix_idx(pmw as int, x2, y2)
                        ] as int == penumbra_cell(l0, *g, x2, y2),
                    forall|i: int| 0 <= i < mask@.len() ==> 0 <= #[trigger] mask@[i]
                        <= MASK_CELL_MAX,
                decreases pmw - cx,
            {
                let cell = self.penumbra_cell_exec(g, cx, cy);
                let ghost pre = mask@;
                mask.push(cell);
                proof {
                    assert forall|x2: int, y2: int| (0 <= x2 < pmw && 0 <= y2 < cy) || (y2 == cy
                        && 0 <= x2 < cx + 1) implies mask@[#[trigger] pix_idx(pmw as int, x2,
                        y2,
                    )] as int == penumbra_cell(l0, *g, x2, y2) by {
                        assert(0 <= pix_idx(pmw as int, x2, y2) < cy * pmw + cx + 1)
                            by (nonlinear_arith)
                            requires
                                (0 <= x2 < pmw && 0 <= y2 < cy) || (y2 == cy && 0 <= x2 < cx
                                    + 1),
                                0 <= y2,
                                0 <= x2 < pmw,
                        ;
                        if !(x2 == cx as int && y2 == cy as int) {
                            assert(pix_idx(pmw as int, x2, y2) < cy * pmw + cx)
                                by (nonlinear_arith)
                                requires
                                    (0 <= x2 < pmw && 0 <= y2 < cy) || (y2 == cy && 0 <= x2
                                        < cx),
                                    0 <= y2,
                                    0 <= x2 < pmw,
                            ;
                            assert(mask@[pix_idx(pmw as int, x2, y2)] == pre[pix_idx(pmw as int,
                                x2, y2,
                            )]);
                        }
                    }
                }
                cx = cx + 1;
            }
            proof {
                assert(cy * pmw + pmw == (cy + 1) * pmw) by (nonlinear_arith);
            }
            cy = cy + 1;
        }
        proof {
            assert(pmh * pmw == pmw * pmh) by (nonlinear_arith);
        }
        self.penumbra_mask = mask;
        self.penumbra_mask_width = pmw;
        self.penumbra_mask_height = pmh;
    }

    fn penumbra_cell_exec(&self, g: &GBuffer, cx: usize, cy: usize) -> (r: i64)
        requires
            spot_dims_wf(*self),
            spot_map_wf(*self),
            gbuf_wf(*g),
            1 <= g.width,
            1 <= g.height,
            cx <= 0x4000,
            cy <= 0x4000,
        ensures
            r as int == penumbra_cell(*self, *g, cx as int, cy as int),
            0 <= r <= MASK_CELL_MAX,
    {
        let mut pcf_num: i64 = 0;
        let mut unshadow: i64 = 0;
        let mut j: usize = 0;
        let ghost goal = penumbra_counts(*self, *g, cx as int, cy as int, 0, 0, 0);
        while j < 16
            invariant
                spot_dims_wf(*self),
                spot_map_wf(*self),
                gbuf_wf(*g),
                1 <= g.width,
                1 <= g.height,
                cx <= 0x4000,
                cy <= 0x4000,
                j <= 16,
                0 <= unshadow <= pcf_num <= j,
                goal == penumbra_counts(*self, *g, cx as int, cy as int, j as int,
                    pcf_num as int, unshadow as int,
                ),
            decreases 16 - j,
        {
            let u = crate::fx::fx_clamp(4 * cx as i64 + (j as i64 % 4), 0, g.width as i64 - 1);
            let v = crate::fx::fx_clamp(4 * cy as i64 + (j as i64 / 4), 0, g.height as i64 - 1);
            proof {
                assert(0 <= pix_idx(g.width as int, u as int, v as int) < g.width * g.height)
                    by (nonlinear_arith)
                    requires
                        0 <= u < g.width,
                        0 <= v < g.height,
                ;
                assert(g.width * g.height <= 0x10000000) by (nonlinear_arith)
                    requires
                        g.width <= 0x4000,
                        g.height <= 0x4000,
                ;
            }
            let idx = (v as usize) * g.width + (u as usize);
            proof {
                assert(idx == pix_idx(g.width as int, u as int, v as int));
            }
            if g.z[idx] < Z_EMPTY {
                pcf_num = pcf_num + 1;
                if self.in_shadow_direct(&g.pos[idx], &g.normal[idx]) > FX_EPS {
                    unshadow = unshadow + 1;
                }
            }
            j = j + 1;
        }
        if unshadow == 0 || pcf_num == unshadow {
            0
        } else {
            FX_ONE
        }
    }

    /// Whether pixel (x, y) falls in a marked (blurred) penumbra cell and so
    /// needs the expensive soft-shadow path; always true when the mask
    /// accelerator is off.
    pub fn in_penumbra_mask(&self, x: usize, y: usize) -> (r: bool)
        requires
            (self.enable_shadow && self.enable_penumbra_mask) ==> spot_mask_wf(*self) && x as int
                / 4 < self.penumbra_mask_width && y as int / 4 < self.penumbra_mask_height,
        ensures
            r == spot_in_penumbra(*self, x as int, y as int),
    {
        if self.enable_shadow && self.enable_penumbra_mask {
            let mx = x / 4;
            let my = y / 4;
            proof {
                assert(0 <= pix_idx(self.penumbra_mask_width as int, mx as int, my as int)
                    < self.penumbra_mask_width * self.penumbra_mask_height) by (nonlinear_arith)
                    requires
                        0 <= mx < self.penumbra_mask_width,
                        0 <= my < self.penumbra_mask_height,
                ;
                assert(self.penumbra_mask_width * self.penumbra_mask_height <= 0x10000000)
                    by (nonlinear_arith)
                    requires
                        self.penumbra_mask_width <= 0x4000,
                        self.penumbra_mask_height <= 0x4000,
                ;
            }
            let idx = my * self.penumbra_mask_width + mx;
            proof {
                assert(idx == pix_idx(self.penumbra_mask_width as int, mx as int, my as int));
            }
            self.penumbra_mask[idx] > FX_EPS
        } else {
            true
        }
    }

    /// Box-blur the penumbra mask to dilate the marked boundary cells so the
    /// grown soft-shadow penumbra stays covered: exactly the direct 2D box
    /// average at every cell.
    pub fn box_blur_penumbra_mask(&mut self, radius: usize)
        requires
            radius <= MASK_RADIUS_MAX,
            (old(self).enable_shadow && old(self).enable_penumbra_mask) ==> spot_mask_wf(
                *old(self),
            ),
        ensures
            !(old(self).enable_shadow && old(self).enable_penumbra_mask) ==> *final(self)
                == *old(self),
            (old(self).enable_shadow && old(self).enable_penumbra_mask) ==> {
                &&& *final(self) == (SpotLight {
                    penumbra_mask: final(self).penumbra_mask,
                    ..*old(self)
                })
                &&& spot_mask_wf(*final(self))
                &&& forall|x: int, y: int|
                    #![trigger pix_idx(old(self).penumbra_mask_width as int, x, y)]
                    0 <= x < old(self).penumbra_mask_width
                        && 0 <= y < old(self).penumbra_mask_height
                        ==> final(self).penumbra_mask@[pix_idx(
                        old(self).penumbra_mask_width as int,
                        x,
                        y,
                    )] as int == box_avg_2d(
                        old(self).penumbra_mask@,
                        old(self).penumbra_mask_width as int,
                        old(self).penumbra_mask_height as int,
                        radius as int,
                        x,
                        y,
                    )
            },
    {
        if !(self.enable_shadow && self.enable_penumbra_mask) {
            return ;
        }
        box_blur_penumbra_mask_grid(&mut self.penumbra_mask, self.penumbra_mask_width,
            self.penumbra_mask_height, radius,
        );
    }
}

/// The covered-fragment count and lit count of the 4x4 block behind one
/// coarse mask cell, walking the block from linear index j with the counts so
/// far: a fragment counts when its depth is not the empty sentinel, and it
/// counts as lit when the cheap DIRECT test clears the tolerance.
pub open spec fn penumbra_counts(
    l: SpotLight,
    g: GBuffer,
    cx: int,
    cy: int,
    j: int,
    n_pcf: int,
    n_lit: int,
) -> (int, int)
    decreases 16 - j,
{
    if j >= 16 {
        (n_pcf, n_lit)
    } else {
        let u = crate::fx::fclamp(4 * cx + (j % 4), 0, g.width - 1);
        let v = crate::fx::fclamp(4 * cy + (j / 4), 0, g.height - 1);
        let idx = pix_idx(g.width as int, u, v);
        if (g.z@[idx] as int) < Z_EMPTY as int {
            let lit: int = if spot_direct(l, g.pos@[idx]@, g.normal@[idx]@) > FX_EPS as int {
                1
            } else {
                0
            };
            penumbra_counts(l, g, cx, cy, j + 1, n_pcf + 1, n_lit + lit)
        } else {
            penumbra_counts(l, g, cx, cy, j + 1, n_pcf, n_lit)
        }
    }
}

/// One coarse mask cell: marked (one) exactly when its block is neither
/// unanimously lit nor unanimously shadowed.
pub open spec fn penumbra_cell(l: SpotLight, g: GBuffer, cx: int, cy: int) -> int {
    let c = penumbra_counts(l, g, cx, cy, 0, 0, 0);
    if c.1 == 0 || c.0 == c.1 {
        0
    } else {
        FX_ONE as int
    }
}

/// Whether a pixel needs the soft-shadow path: its coarse cell is inside the
/// blurred mask (always, when the accelerator is off).
pub open spec fn spot_in_penumbra(l: SpotLight, x: int, y: int) -> bool {
    if l.enable_shadow && l.enable_penumbra_mask {
        l.penumbra_mask@[pix_idx(l.penumbra_mask_width as int, x / 4, y / 4)] > FX_EPS as int
    } else {
        true
    }
}


/// PCF with kernel radius zero produces the same visibility as DIRECT for
/// the same point and normal: outside the frustum both report zero, inside
/// it the radius-zero dense kernel is the single DIRECT comparison. (The
/// sample-accelerated kernel is excluded: its sixty-four coincident samples
/// average to the same answer, but that is not proved here.)
pub proof fn lemma_spot_pcf_zero_is_direct(l: SpotLight, point: V3, normal: V3)
    requires
        !l.enable_pcf_sample_accelerate,
    ensures
        spot_pcf(l, point, normal, 0) == spot_direct(l, point, normal),
{
    if l.enable_shadow {
        let tp = mul4v(l.mvp@, homog(point));
        if in_light_frustum(tp) {
            let cx = light_texel(tp.x, tp.w, l.z_buffer_width as int);
            let cy = light_texel(tp.y, tp.w, l.z_buffer_height as int);
            let vp = mul4v(l.mv@, homog(point));
            let bias = spot_bias(l, point, normal, vp.z);
            crate::light::lemma_pcf_radius_zero_is_direct(l.z_buffer@, l.z_buffer_width as int,
                l.z_buffer_height as int, cx, cy, vp.z, bias,
            );
        }
    }
}

/// The depth-map texel size used by the bias: at least one grid step.
pub open spec fn spot_pixel_radius(l: SpotLight) -> int {
    let pr = {
        let a = fdiv(FX_ONE as int, sat64(l.z_buffer_height as int * FX_ONE as int));
        let b = fdiv(l.aspect_ratio as int, sat64(l.z_buffer_width as int * FX_ONE as int));
        if a >= b {
            a
        } else {
            b
        }
    };
    if pr <= 0 {
        1
    } else {
        pr
    }
}

} // verus!
