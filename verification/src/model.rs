//! Models: nodes owning triangles, child models (a tree), an accumulated
//! position and uniform scale, and up to four optional texture bindings.
//! Transforms are applied immediately to every owned vertex and recursively
//! to the children; there is no lazy transform stack. The per-frame clip
//! pass rewrites each node's scratch clip triangles, and rasterization folds
//! the tree's triangles into the pixel buffers in order: children first,
//! then the node's own.

use vstd::prelude::*;

use crate::camera::{identity_nm, modeling_mat, scaling_mat, scaling_nm, translation_mat};
use crate::clip::{clip_triangle, tri_seq_view};
use crate::fx::{fdiv, fneg, fx_div, FX_ONE};
use crate::geom::{triangle_to_ndc, vertex_transformed, Triangle, TriangleG, TriangleRG,
    TriangleRasterization};
use crate::raster::{apply_frag, apply_shadow, frag_at, gbuf_wf, opt_tex, pix_idx,
    shadow_depth_at, state_at, tested, GBuffer, PixelState};
use crate::texture::{texture_wf, Texture, TextureG};
use crate::vec::{mul4m, neg3, sub3, Mat3, Mat4, Vec3, M3, M4, V3};

verus! {

broadcast use vstd::seq::axiom_seq_index_decreases, vstd::std_specs::vec::axiom_vec_index_decreases, vstd::std_specs::vec::axiom_vec_decreases_to_view;

/// The four texture binding slots of a model.
#[derive(Clone, Copy, Debug, PartialEq, Eq, Structural)]
pub enum TextureTypes {
    Diffuse,
    Specular,
    Normal,
    Glow,
}

impl TextureTypes {
    /// The slot's position in the binding order.
    pub fn as_usize(&self) -> (r: usize)
        ensures
            r == (match self {
                TextureTypes::Diffuse => 0usize,
                TextureTypes::Specular => 1usize,
                TextureTypes::Normal => 2usize,
                TextureTypes::Glow => 3usize,
            }),
    {
        match self {
            TextureTypes::Diffuse => 0,
            TextureTypes::Specular => 1,
            TextureTypes::Normal => 2,
            TextureTypes::Glow => 3,
        }
    }
}

/// Ghost mirror of a model node.
pub ghost struct ModelG {
    pub sub_models: Seq<ModelG>,
    pub triangles: Seq<TriangleG>,
    pub clip_triangles: Seq<TriangleRG>,
    pub pos: V3,
    pub scale: int,
    pub texture_diffuse: Option<TextureG>,
    pub texture_specular: Option<TextureG>,
    pub texture_normal: Option<TextureG>,
    pub texture_glow: Option<TextureG>,
}

/// A model node.
pub struct Model {
    pub sub_models: Vec<Model>,
    pub triangles: Vec<Triangle>,
    pub clip_triangles: Vec<TriangleRasterization>,
    pub pos: Vec3,
    pub scale: i64,
    pub texture_diffuse: Option<Texture>,
    pub texture_specular: Option<Texture>,
    pub texture_normal: Option<Texture>,
    pub texture_glow: Option<Texture>,
}

/// The ghost view of an owned optional texture.
pub open spec fn opt_tex_view(t: Option<Texture>) -> Option<TextureG> {
    match t {
        Some(tex) => Some(tex@),
        None => None,
    }
}

/// The empty ghost model (a placeholder for out-of-range indices).
pub open spec fn empty_model_g() -> ModelG {
    ModelG {
        sub_models: Seq::empty(),
        triangles: Seq::empty(),
        clip_triangles: Seq::empty(),
        pos: V3 { x: 0, y: 0, z: 0 },
        scale: 0,
        texture_diffuse: None,
        texture_specular: None,
        texture_normal: None,
        texture_glow: None,
    }
}

/// The ghost tree of a model.
pub open spec fn model_view(m: Model) -> ModelG
    decreases m,
{
    ModelG {
        sub_models: Seq::new(m.sub_models@.len(), |i: int| if 0 <= i < m.sub_models@.len() {
            model_view(m.sub_models@[i])
        } else {
            empty_model_g()
        }),
        triangles: m.triangles@.map_values(|t: Triangle| t@),
        clip_triangles: m.clip_triangles@.map_values(|t: TriangleRasterization| t@),
        pos: m.pos@,
        scale: m.scale as int,
        texture_diffuse: opt_tex_view(m.texture_diffuse),
        texture_specular: opt_tex_view(m.texture_specular),
        texture_normal: opt_tex_view(m.texture_normal),
        texture_glow: opt_tex_view(m.texture_glow),
    }
}

/// A well-formed ghost texture binding: absent, or a well-formed RGB texture.
pub open spec fn tex_binding_wf(t: Option<TextureG>) -> bool {
    match t {
        Some(tex) => texture_wf(tex) && tex.channels >= 3,
        None => true,
    }
}

/// A well-formed model: positive scale, well-formed texture bindings, and
/// well-formed children.
pub open spec fn model_wf(m: ModelG) -> bool
    decreases m,
{
    &&& m.scale > 0
    &&& tex_binding_wf(m.texture_diffuse)
    &&& tex_binding_wf(m.texture_specular)
    &&& tex_binding_wf(m.texture_normal)
    &&& tex_binding_wf(m.texture_glow)
    &&& (forall|i: int| 0 <= i < m.sub_models.len() ==> model_wf(#[trigger] m.sub_models[i]))
}

/// What a whole-model transform does to the ghost tree: every owned triangle
/// and every child transformed; position, scale, textures and the scratch
/// clip triangles unchanged.
pub open spec fn model_transformed(m: ModelG, mat: M4, nm: M3) -> ModelG
    decreases m,
{
    ModelG {
        sub_models: Seq::new(m.sub_models.len(), |i: int| if 0 <= i < m.sub_models.len() {
            model_transformed(m.sub_models[i], mat, nm)
        } else {
            empty_model_g()
        }),
        triangles: m.triangles.map_values(|t: TriangleG| TriangleG {
            v0: vertex_transformed(t.v0, mat, nm),
            v1: vertex_transformed(t.v1, mat, nm),
            v2: vertex_transformed(t.v2, mat, nm),
        }),
        ..m
    }
}

/// The triangles a list of model triangles clips to, in order.
pub open spec fn clipped_tri_list(ts: Seq<TriangleG>, mvp: M4, mv: M4) -> Seq<TriangleRG>
    decreases ts.len(),
{
    if ts.len() == 0 {
        Seq::empty()
    } else {
        clip_triangle(ts[0], mvp, mv) + clipped_tri_list(ts.skip(1), mvp, mv)
    }
}

/// What the clip pass does to the ghost tree: every node's scratch clip
/// triangles are regenerated from its own triangles; everything else stays.
pub open spec fn model_clipped(m: ModelG, mvp: M4, mv: M4) -> ModelG
    decreases m,
{
    ModelG {
        sub_models: Seq::new(m.sub_models.len(), |i: int| if 0 <= i < m.sub_models.len() {
            model_clipped(m.sub_models[i], mvp, mv)
        } else {
            empty_model_g()
        }),
        clip_triangles: clipped_tri_list(m.triangles, mvp, mv),
        ..m
    }
}

/// What the screen mapping does to the ghost tree: every node's clip
/// triangles are mapped to screen coordinates.
pub open spec fn model_ndc(m: ModelG, width: int, height: int) -> ModelG
    decreases m,
{
    ModelG {
        sub_models: Seq::new(m.sub_models.len(), |i: int| if 0 <= i < m.sub_models.len() {
            model_ndc(m.sub_models[i], width, height)
        } else {
            empty_model_g()
        }),
        clip_triangles: m.clip_triangles.map_values(|t: TriangleRG| triangle_to_ndc(t, width,
            height,
        )),
        ..m
    }
}

/// What a list of models looks like after the clip pass and the screen
/// mapping, in order.
pub open spec fn models_prepared(ms: Seq<ModelG>, mvp: M4, mv: M4, w: int, h: int)
    -> Seq<ModelG> {
    Seq::new(ms.len(), |i: int| if 0 <= i < ms.len() {
        model_ndc(model_clipped(ms[i], mvp, mv), w, h)
    } else {
        empty_model_g()
    })
}

/// The pixel state after rasterizing a list of triangles (with one set of
/// texture bindings) in order.
pub open spec fn apply_tri_list(
    s: PixelState,
    ts: Seq<TriangleRG>,
    td: Option<TextureG>,
    tsp: Option<TextureG>,
    tn: Option<TextureG>,
    tg: Option<TextureG>,
    sr: int,
    sc: int,
    br: int,
    bc: int,
    x: int,
    y: int,
) -> PixelState
    decreases ts.len(),
{
    if ts.len() == 0 {
        s
    } else {
        apply_tri_list(
            apply_frag(s, frag_at(ts[0], td, tsp, tn, tg, x, y), tested(ts[0], sr, sc, br, bc, x,
                y,
            )),
            ts.skip(1),
            td,
            tsp,
            tn,
            tg,
            sr,
            sc,
            br,
            bc,
            x,
            y,
        )
    }
}

/// The pixel state after rasterizing a whole model tree: children first,
/// then the node's own clip triangles with its texture bindings.
pub open spec fn apply_model(
    s: PixelState,
    m: ModelG,
    sr: int,
    sc: int,
    br: int,
    bc: int,
    x: int,
    y: int,
) -> PixelState
    decreases m, 1int,
{
    apply_tri_list(
        apply_model_seq(s, m.sub_models, sr, sc, br, bc, x, y),
        m.clip_triangles,
        m.texture_diffuse,
        m.texture_specular,
        m.texture_normal,
        m.texture_glow,
        sr,
        sc,
        br,
        bc,
        x,
        y,
    )
}

/// The pixel state after rasterizing a list of model trees in order.
pub open spec fn apply_model_seq(
    s: PixelState,
    ms: Seq<ModelG>,
    sr: int,
    sc: int,
    br: int,
    bc: int,
    x: int,
    y: int,
) -> PixelState
    decreases ms, 0int,
{
    if ms.len() == 0 {
        s
    } else {
        apply_model_seq(apply_model(s, ms[0], sr, sc, br, bc, x, y), ms.skip(1), sr, sc, br, bc,
            x, y,
        )
    }
}

/// The depth a light-space map holds at one texel after rasterizing a list
/// of triangles.
pub open spec fn apply_shadow_tri_list(
    z: int,
    ts: Seq<TriangleRG>,
    is_projection: bool,
    depth_from_w: bool,
    sr: int,
    sc: int,
    br: int,
    bc: int,
    x: int,
    y: int,
) -> int
    decreases ts.len(),
{
    if ts.len() == 0 {
        z
    } else {
        apply_shadow_tri_list(
            apply_shadow(z, shadow_depth_at(ts[0], is_projection, depth_from_w, x, y), tested(
                ts[0],
                sr,
                sc,
                br,
                bc,
                x,
                y,
            )),
            ts.skip(1),
            is_projection,
            depth_from_w,
            sr,
            sc,
            br,
            bc,
            x,
            y,
        )
    }
}

/// The depth a light-space map holds at one texel after rasterizing a whole
/// model tree: children first, then the node's own clip triangles.
pub open spec fn apply_shadow_model(
    z: int,
    m: ModelG,
    is_projection: bool,
    depth_from_w: bool,
    sr: int,
    sc: int,
    br: int,
    bc: int,
    x: int,
    y: int,
) -> int
    decreases m, 1int,
{
    apply_shadow_tri_list(
        apply_shadow_model_seq(z, m.sub_models, is_projection, depth_from_w, sr, sc, br, bc, x,
            y,
        ),
        m.clip_triangles,
        is_projection,
        depth_from_w,
        sr,
        sc,
        br,
        bc,
        x,
        y,
    )
}

/// The depth a light-space map holds at one texel after rasterizing a list of
/// model trees in order.
pub open spec fn apply_shadow_model_seq(
    z: int,
    ms: Seq<ModelG>,
    is_projection: bool,
    depth_from_w: bool,
    sr: int,
    sc: int,
    br: int,
    bc: int,
    x: int,
    y: int,
) -> int
    decreases ms, 0int,
{
    if ms.len() == 0 {
        z
    } else {
        apply_shadow_model_seq(
            apply_shadow_model(z, ms[0], is_projection, depth_from_w, sr, sc, br, bc, x, y),
            ms.skip(1),
            is_projection,
            depth_from_w,
            sr,
            sc,
            br,
            bc,
            x,
            y,
        )
    }
}

impl Model {
    /// An empty model: no triangles, no children, unit scale, no textures.
    pub fn new() -> (r: Model)
        ensures
            model_view(r) == (ModelG {
                sub_models: Seq::<ModelG>::empty(),
                triangles: Seq::<TriangleG>::empty(),
                clip_triangles: Seq::<TriangleRG>::empty(),
                pos: V3 { x: 0, y: 0, z: 0 },
                scale: FX_ONE as int,
                texture_diffuse: None,
                texture_specular: None,
                texture_normal: None,
                texture_glow: None,
            }),
            model_wf(model_view(r)),
    {
        let r = Model {
            sub_models: Vec::new(),
            triangles: Vec::new(),
            clip_triangles: Vec::new(),
            pos: Vec3 { x: 0, y: 0, z: 0 },
            scale: FX_ONE,
            texture_diffuse: None,
            texture_specular: None,
            texture_normal: None,
            texture_glow: None,
        };
        proof {
            assert(model_view(r).sub_models =~= Seq::<ModelG>::empty());
            assert(model_view(r).triangles =~= Seq::<TriangleG>::empty());
            assert(model_view(r).clip_triangles =~= Seq::<TriangleRG>::empty());
        }
        r
    }

    /// Attach a child model.
    pub fn add_sub_model(&mut self, sub_model: Model)
        ensures
            model_view(*final(self)) == (ModelG {
                sub_models: model_view(*old(self)).sub_models.push(model_view(sub_model)),
                ..model_view(*old(self))
            }),
    {
        self.sub_models.push(sub_model);
        proof {
            let m0 = *old(self);
            assert(model_view(*self).sub_models =~= model_view(m0).sub_models.push(
                model_view(sub_model),
            ));
            assert(model_view(*self).triangles =~= model_view(m0).triangles);
            assert(model_view(*self).clip_triangles =~= model_view(m0).clip_triangles);
        }
    }

    /// Add one triangle to the model.
    pub fn add_triangle(&mut self, triangle: &Triangle)
        ensures
            model_view(*final(self)) == (ModelG {
                triangles: model_view(*old(self)).triangles.push(triangle@),
                ..model_view(*old(self))
            }),
    {
        self.triangles.push(*triangle);
        proof {
            let m0 = *old(self);
            assert(model_view(*self).sub_models =~= model_view(m0).sub_models);
            assert(model_view(*self).triangles =~= model_view(m0).triangles.push(triangle@));
            assert(model_view(*self).clip_triangles =~= model_view(m0).clip_triangles);
        }
    }

    /// The model's accumulated position.
    pub fn get_pos(&self) -> (r: Vec3)
        ensures
            r@ == model_view(*self).pos,
    {
        self.pos
    }

    /// The model's accumulated uniform scale.
    pub fn get_scale(&self) -> (r: i64)
        ensures
            r as int == model_view(*self).scale,
    {
        self.scale
    }

    /// Bind or clear one texture slot.
    pub fn set_texture(&mut self, texture: Option<Texture>, id: TextureTypes)
        ensures
            model_view(*final(self)) == (match id {
                TextureTypes::Diffuse => ModelG {
                    texture_diffuse: opt_tex_view(texture),
                    ..model_view(*old(self))
                },
                TextureTypes::Specular => ModelG {
                    texture_specular: opt_tex_view(texture),
                    ..model_view(*old(self))
                },
                TextureTypes::Normal => ModelG {
                    texture_normal: opt_tex_view(texture),
                    ..model_view(*old(self))
                },
                TextureTypes::Glow => ModelG {
                    texture_glow: opt_tex_view(texture),
                    ..model_view(*old(self))
                },
            }),
    {
        match id {
            TextureTypes::Diffuse => {
                self.texture_diffuse = texture;
            },
            TextureTypes::Specular => {
                self.texture_specular = texture;
            },
            TextureTypes::Normal => {
                self.texture_normal = texture;
            },
            TextureTypes::Glow => {
                self.texture_glow = texture;
            },
        }
        proof {
            let m0 = *old(self);
            assert(model_view(*self).sub_models =~= model_view(m0).sub_models);
            assert(model_view(*self).triangles =~= model_view(m0).triangles);
            assert(model_view(*self).clip_triangles =~= model_view(m0).clip_triangles);
        }
    }

    /// Borrow one texture slot.
    pub fn get_texture(&self, id: TextureTypes) -> (r: &Option<Texture>)
        ensures
            opt_tex_view(*r) == (match id {
                TextureTypes::Diffuse => model_view(*self).texture_diffuse,
                TextureTypes::Specular => model_view(*self).texture_specular,
                TextureTypes::Normal => model_view(*self).texture_normal,
                TextureTypes::Glow => model_view(*self).texture_glow,
            }),
    {
        match id {
            TextureTypes::Diffuse => &self.texture_diffuse,
            TextureTypes::Specular => &self.texture_specular,
            TextureTypes::Normal => &self.texture_normal,
            TextureTypes::Glow => &self.texture_glow,
        }
    }

    /// Apply an affine transform (with its normal matrix) to every owned
    /// triangle and, recursively, to every child model.
    pub fn modeling(&mut self, matrix: &Mat4, normal_matrix: &Mat3)
        ensures
            model_view(*final(self)) == model_transformed(
                model_view(*old(self)),
                matrix@,
                normal_matrix@,
            ),
        decreases *old(self),
    {
        let ghost m0 = *self;
        let n = self.triangles.len();
        let mut i: usize = 0;
        while i < n
            invariant
                n == self.triangles.len(),
                i <= n,
                self.sub_models == m0.sub_models,
                self.clip_triangles == m0.clip_triangles,
                self.pos == m0.pos,
                self.scale == m0.scale,
                self.texture_diffuse == m0.texture_diffuse,
                self.texture_specular == m0.texture_specular,
                self.texture_normal == m0.texture_normal,
                self.texture_glow == m0.texture_glow,
                forall|j: int| i <= j < n ==> self.triangles@[j] == #[trigger] m0.triangles@[j],
                forall|j: int| 0 <= j < i ==> #[trigger] self.triangles@[j]@ == (TriangleG {
                    v0: vertex_transformed(m0.triangles@[j]@.v0, matrix@, normal_matrix@),
                    v1: vertex_transformed(m0.triangles@[j]@.v1, matrix@, normal_matrix@),
                    v2: vertex_transformed(m0.triangles@[j]@.v2, matrix@, normal_matrix@),
                }),
            decreases n - i,
        {
            let mut t = self.triangles[i];
            t.modeling(matrix, normal_matrix);
            self.triangles.set(i, t);
            i = i + 1;
        }
        let nc = self.sub_models.len();
        let mut k: usize = 0;
        while k < nc
            invariant
                m0 == *old(self),
                nc == self.sub_models.len(),
                k <= nc,
                self.clip_triangles == m0.clip_triangles,
                self.pos == m0.pos,
                self.scale == m0.scale,
                self.texture_diffuse == m0.texture_diffuse,
                self.texture_specular == m0.texture_specular,
                self.texture_normal == m0.texture_normal,
                self.texture_glow == m0.texture_glow,
                self.triangles@.len() == m0.triangles@.len(),
                forall|j: int| 0 <= j < self.triangles@.len() ==> #[trigger] self.triangles@[j]@
                    == (TriangleG {
                    v0: vertex_transformed(m0.triangles@[j]@.v0, matrix@, normal_matrix@),
                    v1: vertex_transformed(m0.triangles@[j]@.v1, matrix@, normal_matrix@),
                    v2: vertex_transformed(m0.triangles@[j]@.v2, matrix@, normal_matrix@),
                }),
                nc == m0.sub_models@.len(),
                forall|j: int| k <= j < nc ==> self.sub_models@[j] == #[trigger] m0.sub_models@[
                    j
                ],
                forall|j: int| 0 <= j < k ==> model_view(#[trigger] self.sub_models@[j])
                    == model_transformed(model_view(m0.sub_models@[j]), matrix@, normal_matrix@),
            decreases nc - k,
        {
            let mut c = self.sub_models.remove(k);
            proof {
                assert(c == m0.sub_models@[k as int]);
                assert(decreases_to!(m0 => m0.sub_models));
                assert(decreases_to!(m0.sub_models => m0.sub_models[k as int]));
                assert(decreases_to!(*old(self) => c));
            }
            c.modeling(matrix, normal_matrix);
            self.sub_models.insert(k, c);
            k = k + 1;
        }
        proof {
            assert(model_view(*self).sub_models =~= model_transformed(
                model_view(m0),
                matrix@,
                normal_matrix@,
            ).sub_models);
            assert(model_view(*self).triangles =~= model_transformed(
                model_view(m0),
                matrix@,
                normal_matrix@,
            ).triangles);
            assert(model_view(*self).clip_triangles =~= model_transformed(
                model_view(m0),
                matrix@,
                normal_matrix@,
            ).clip_triangles);
        }
    }

    /// Move the model so its accumulated position becomes `pos`: every vertex
    /// is translated by the difference (normals are unchanged by a
    /// translation).
    pub fn set_pos(&mut self, pos: Vec3)
        ensures
            model_view(*final(self)) == (ModelG {
                pos: pos@,
                ..model_transformed(
                    model_view(*old(self)),
                    translation_mat(sub3(pos@, old(self).pos@)),
                    identity_nm(),
                )
            }),
    {
        let d = pos.sub(&self.pos);
        let m = crate::camera::get_translation_matrix(&d);
        let nm = Mat3::identity();
        self.modeling(&m, &nm);
        self.pos = pos;
        proof {
            let t = model_transformed(
                model_view(*old(self)),
                translation_mat(sub3(pos@, old(self).pos@)),
                identity_nm(),
            );
            assert(model_view(*self).sub_models =~= t.sub_models);
            assert(model_view(*self).triangles =~= t.triangles);
            assert(model_view(*self).clip_triangles =~= t.clip_triangles);
        }
    }

    /// Rescale the model to the given accumulated uniform scale: positions
    /// scale by the ratio of new to old, normals by the inverse ratio (the
    /// transpose inverse of a uniform scaling).
    pub fn set_scale(&mut self, scale: i64)
        requires
            old(self).scale > 0,
            scale > 0,
        ensures
            model_view(*final(self)) == (ModelG {
                scale: scale as int,
                ..model_transformed(
                    model_view(*old(self)),
                    scaling_mat(fdiv(scale as int, old(self).scale as int)),
                    scaling_nm(fdiv(old(self).scale as int, scale as int)),
                )
            }),
    {
        let rate = fx_div(scale, self.scale);
        let inv_rate = fx_div(self.scale, scale);
        let m = crate::camera::get_scaling_matrix(rate);
        let nm = crate::camera::get_scaling_normal_matrix(inv_rate);
        self.modeling(&m, &nm);
        self.scale = scale;
        proof {
            let t = model_transformed(
                model_view(*old(self)),
                scaling_mat(fdiv(scale as int, old(self).scale as int)),
                scaling_nm(fdiv(old(self).scale as int, scale as int)),
            );
            assert(model_view(*self).sub_models =~= t.sub_models);
            assert(model_view(*self).triangles =~= t.triangles);
            assert(model_view(*self).clip_triangles =~= t.clip_triangles);
        }
    }

    /// Rotate the model about its own position: translate the position to the
    /// origin, rotate about the (normalized) axis by the angle whose cosine
    /// and sine are given, and translate back.
    pub fn rotate(&mut self, axis: &Vec3, cos_a: i64, sin_a: i64)
        ensures
            model_view(*final(self)) == model_transformed(
                model_view(*old(self)),
                mul4m(
                    mul4m(
                        translation_mat(old(self).pos@),
                        modeling_mat(axis@, cos_a as int, sin_a as int, V3 { x: 0, y: 0, z: 0 }),
                    ),
                    translation_mat(neg3(old(self).pos@)),
                ),
                model_rotation_nm(axis@, cos_a as int, sin_a as int),
            ),
    {
        let move_to_origin = crate::camera::get_translation_matrix(&self.pos.neg());
        let rot = crate::camera::get_modeling_matrix(axis, cos_a, sin_a, &Vec3::zero());
        let move_to_pos = crate::camera::get_translation_matrix(&self.pos);
        let m = move_to_pos.mul_mat(&rot).mul_mat(&move_to_origin);
        let nm = crate::camera::get_rotation_normal_matrix(axis, cos_a, sin_a);
        proof {
            assert(nm@ == model_rotation_nm(axis@, cos_a as int, sin_a as int));
        }
        self.modeling(&m, &nm);
    }

    /// Regenerate every node's scratch clip triangles from its own triangles:
    /// backface culling, the six half-space clips, and fan re-triangulation.
    #[verifier::rlimit(100)]
    pub fn clip(&mut self, mvp: &Mat4, mv: &Mat4)
        ensures
            model_view(*final(self)) == model_clipped(model_view(*old(self)), mvp@, mv@),
        decreases *old(self),
    {
        let ghost m0 = *self;
        self.clip_triangles.clear();
        let nc = self.sub_models.len();
        let mut k: usize = 0;
        while k < nc
            invariant
                m0 == *old(self),
                nc == self.sub_models.len(),
                k <= nc,
                self.clip_triangles@.len() == 0,
                self.triangles == m0.triangles,
                self.pos == m0.pos,
                self.scale == m0.scale,
                self.texture_diffuse == m0.texture_diffuse,
                self.texture_specular == m0.texture_specular,
                self.texture_normal == m0.texture_normal,
                self.texture_glow == m0.texture_glow,
                nc == m0.sub_models@.len(),
                forall|j: int| k <= j < nc ==> self.sub_models@[j] == #[trigger] m0.sub_models@[
                    j
                ],
                forall|j: int| 0 <= j < k ==> model_view(#[trigger] self.sub_models@[j])
                    == model_clipped(model_view(m0.sub_models@[j]), mvp@, mv@),
            decreases nc - k,
        {
            let mut c = self.sub_models.remove(k);
            proof {
                assert(c == m0.sub_models@[k as int]);
                assert(decreases_to!(m0 => m0.sub_models));
                assert(decreases_to!(m0.sub_models => m0.sub_models[k as int]));
                assert(decreases_to!(*old(self) => c));
            }
            c.clip(mvp, mv);
            self.sub_models.insert(k, c);
            k = k + 1;
        }
        let ghost ts = model_view(m0).triangles;
        let ghost full = clipped_tri_list(ts, mvp@, mv@);
        let n = self.triangles.len();
        let mut i: usize = 0;
        proof {
            assert(ts.skip(0) =~= ts);
        }
        while i < n
            invariant
                m0 == *old(self),
                n == self.triangles.len(),
                i <= n,
                self.triangles == m0.triangles,
                self.pos == m0.pos,
                self.scale == m0.scale,
                self.texture_diffuse == m0.texture_diffuse,
                self.texture_specular == m0.texture_specular,
                self.texture_normal == m0.texture_normal,
                self.texture_glow == m0.texture_glow,
                ts == model_view(m0).triangles,
                full == clipped_tri_list(ts, mvp@, mv@),
                n == ts.len(),
                self.sub_models@.len() == m0.sub_models@.len(),
                forall|j: int| 0 <= j < m0.sub_models@.len() ==> model_view(
                    #[trigger] self.sub_models@[j],
                ) == model_clipped(model_view(m0.sub_models@[j]), mvp@, mv@),
                tri_seq_view(self.clip_triangles@) + clipped_tri_list(ts.skip(i as int), mvp@,
                    mv@,
                ) == full,
            decreases n - i,
        {
            let t = self.triangles[i];
            proof {
                assert(t@ == ts[i as int]);
                assert(ts.skip(i as int)[0] == ts[i as int]);
                assert(ts.skip(i as int).skip(1) =~= ts.skip(i as int + 1));
            }
            let ghost pre = tri_seq_view(self.clip_triangles@);
            t.clip(mvp, mv, &mut self.clip_triangles);
            proof {
                assert(tri_seq_view(self.clip_triangles@) == pre + clip_triangle(ts[i as int],
                    mvp@, mv@,
                ));
                assert((pre + clip_triangle(ts[i as int], mvp@, mv@)) + clipped_tri_list(ts.skip(
                    i as int + 1,
                ), mvp@, mv@) =~= pre + clipped_tri_list(ts.skip(i as int), mvp@, mv@));
            }
            i = i + 1;
        }
        proof {
            assert(ts.skip(n as int) =~= Seq::<TriangleG>::empty());
            assert(tri_seq_view(self.clip_triangles@) + Seq::<TriangleRG>::empty() =~=
                tri_seq_view(self.clip_triangles@));
            assert(model_view(*self).sub_models =~= model_clipped(model_view(m0), mvp@, mv@)
                .sub_models);
            assert(model_view(*self).triangles =~= model_clipped(model_view(m0), mvp@, mv@)
                .triangles);
            assert(model_view(*self).clip_triangles =~= model_clipped(model_view(m0), mvp@, mv@)
                .clip_triangles);
        }
    }

    /// Map every node's clip triangles to screen coordinates.
    pub fn to_ndc(&mut self, width: i64, height: i64)
        requires
            0 <= width,
            0 <= height,
        ensures
            model_view(*final(self)) == model_ndc(
                model_view(*old(self)),
                width as int,
                height as int,
            ),
        decreases *old(self),
    {
        let ghost m0 = *self;
        let nc = self.sub_models.len();
        let mut k: usize = 0;
        while k < nc
            invariant
                m0 == *old(self),
                0 <= width,
                0 <= height,
                nc == self.sub_models.len(),
                k <= nc,
                self.clip_triangles == m0.clip_triangles,
                self.triangles == m0.triangles,
                self.pos == m0.pos,
                self.scale == m0.scale,
                self.texture_diffuse == m0.texture_diffuse,
                self.texture_specular == m0.texture_specular,
                self.texture_normal == m0.texture_normal,
                self.texture_glow == m0.texture_glow,
                nc == m0.sub_models@.len(),
                forall|j: int| k <= j < nc ==> self.sub_models@[j] == #[trigger] m0.sub_models@[
                    j
                ],
                forall|j: int| 0 <= j < k ==> model_view(#[trigger] self.sub_models@[j])
                    == model_ndc(model_view(m0.sub_models@[j]), width as int, height as int),
            decreases nc - k,
        {
            let mut c = self.sub_models.remove(k);
            proof {
                assert(c == m0.sub_models@[k as int]);
                assert(decreases_to!(m0 => m0.sub_models));
                assert(decreases_to!(m0.sub_models => m0.sub_models[k as int]));
                assert(decreases_to!(*old(self) => c));
            }
            c.to_ndc(width, height);
            self.sub_models.insert(k, c);
            k = k + 1;
        }
        let n = self.clip_triangles.len();
        let mut i: usize = 0;
        while i < n
            invariant
                m0 == *old(self),
                0 <= width,
                0 <= height,
                n == self.clip_triangles.len(),
                i <= n,
                self.triangles == m0.triangles,
                self.pos == m0.pos,
                self.scale == m0.scale,
                self.texture_diffuse == m0.texture_diffuse,
                self.texture_specular == m0.texture_specular,
                self.texture_normal == m0.texture_normal,
                self.texture_glow == m0.texture_glow,
                n == m0.clip_triangles@.len(),
                self.sub_models@.len() == m0.sub_models@.len(),
                forall|j: int| 0 <= j < m0.sub_models@.len() ==> model_view(
                    #[trigger] self.sub_models@[j],
                ) == model_ndc(model_view(m0.sub_models@[j]), width as int, height as int),
                forall|j: int| i <= j < n ==> self.clip_triangles@[j] == #[trigger] m0
                    .clip_triangles@[j],
                forall|j: int| 0 <= j < i ==> #[trigger] self.clip_triangles@[j]@
                    == triangle_to_ndc(m0.clip_triangles@[j]@, width as int, height as int),
            decreases n - i,
        {
            let mut t = self.clip_triangles[i];
            t.to_ndc(width, height);
            self.clip_triangles.set(i, t);
            i = i + 1;
        }
        proof {
            assert(model_view(*self).sub_models =~= model_ndc(model_view(m0), width as int,
                height as int,
            ).sub_models);
            assert(model_view(*self).triangles =~= model_ndc(model_view(m0), width as int,
                height as int,
            ).triangles);
            assert(model_view(*self).clip_triangles =~= model_ndc(model_view(m0), width as int,
                height as int,
            ).clip_triangles);
        }
    }

    /// Rasterize the whole model tree into the pixel buffers, restricted to a
    /// block: children first, then the node's own clip triangles with its
    /// texture bindings, each fragment through the nearest-wins depth test.
    pub fn rasterization(
        &self,
        g: &mut GBuffer,
        start_row: usize,
        start_col: usize,
        block_row: usize,
        block_col: usize,
    )
        requires
            gbuf_wf(*old(g)),
            model_wf(model_view(*self)),
            1 <= block_row,
            1 <= block_col,
            start_row + block_row <= old(g).height,
            start_col + block_col <= old(g).width,
        ensures
            gbuf_wf(*final(g)),
            final(g).width == old(g).width,
            final(g).height == old(g).height,
            final(g).frame@ == old(g).frame@,
            forall|x: int, y: int|
                #![trigger pix_idx(old(g).width as int, x, y)]
                0 <= x < old(g).width && 0 <= y < old(g).height ==> state_at(
                    *final(g),
                    pix_idx(old(g).width as int, x, y),
                ) == apply_model(
                    state_at(*old(g), pix_idx(old(g).width as int, x, y)),
                    model_view(*self),
                    start_row as int,
                    start_col as int,
                    block_row as int,
                    block_col as int,
                    x,
                    y,
                ),
        decreases *self,
    {
        let ghost g0 = *g;
        let ghost w = old(g).width as int;
        let ghost h = old(g).height as int;
        let ghost mv = model_view(*self);
        let ghost subs = mv.sub_models;
        let nc = self.sub_models.len();
        let mut k: usize = 0;
        proof {
            assert(subs.skip(0) =~= subs);
        }
        while k < nc
            invariant
                gbuf_wf(*g),
                g.width == g0.width,
                g.height == g0.height,
                g.frame@ == g0.frame@,
                w == g0.width as int,
                h == g0.height as int,
                mv == model_view(*self),
                subs == mv.sub_models,
                model_wf(mv),
                nc == self.sub_models.len(),
                nc == subs.len(),
                k <= nc,
                1 <= block_row,
                1 <= block_col,
                start_row + block_row <= g.height,
                start_col + block_col <= g.width,
                forall|x: int, y: int|
                    #![trigger pix_idx(w, x, y)]
                    0 <= x < w && 0 <= y < h ==> apply_model_seq(
                        state_at(*g, pix_idx(w, x, y)),
                        subs.skip(k as int),
                        start_row as int,
                        start_col as int,
                        block_row as int,
                        block_col as int,
                        x,
                        y,
                    ) == apply_model_seq(
                        state_at(g0, pix_idx(w, x, y)),
                        subs,
                        start_row as int,
                        start_col as int,
                        block_row as int,
                        block_col as int,
                        x,
                        y,
                    ),
            decreases nc - k,
        {
            let c = &self.sub_models[k];
            proof {
                assert(decreases_to!(*self => self.sub_models));
                assert(decreases_to!(self.sub_models => self.sub_models[k as int]));
                assert(model_view(*c) == subs[k as int]);
                assert(model_wf(subs[k as int]));
            }
            let ghost gpre = *g;
            c.rasterization(g, start_row, start_col, block_row, block_col);
            proof {
                assert forall|x: int, y: int| 0 <= x < w && 0 <= y < h implies apply_model_seq(
                    state_at(*g, #[trigger] pix_idx(w, x, y)),
                    subs.skip(k as int + 1),
                    start_row as int,
                    start_col as int,
                    block_row as int,
                    block_col as int,
                    x,
                    y,
                ) == apply_model_seq(
                    state_at(g0, pix_idx(w, x, y)),
                    subs,
                    start_row as int,
                    start_col as int,
                    block_row as int,
                    block_col as int,
                    x,
                    y,
                ) by {
                    assert(subs.skip(k as int)[0] == subs[k as int]);
                    assert(subs.skip(k as int).skip(1) =~= subs.skip(k as int + 1));
                    assert(state_at(*g, pix_idx(w, x, y)) == apply_model(
                        state_at(gpre, pix_idx(w, x, y)),
                        subs[k as int],
                        start_row as int,
                        start_col as int,
                        block_row as int,
                        block_col as int,
                        x,
                        y,
                    ));
                }
            }
            k = k + 1;
        }
        let ghost gmid = *g;
        let ghost cts = mv.clip_triangles;
        let n = self.clip_triangles.len();
        let mut i: usize = 0;
        proof {
            assert(subs.skip(nc as int) =~= Seq::<ModelG>::empty());
            assert(cts.skip(0) =~= cts);
        }
        while i < n
            invariant
                gbuf_wf(*g),
                g.width == g0.width,
                g.height == g0.height,
                g.frame@ == g0.frame@,
                w == g0.width as int,
                h == g0.height as int,
                mv == model_view(*self),
                cts == mv.clip_triangles,
                model_wf(mv),
                n == self.clip_triangles.len(),
                n == cts.len(),
                i <= n,
                1 <= block_row,
                1 <= block_col,
                start_row + block_row <= g.height,
                start_col + block_col <= g.width,
                forall|x: int, y: int|
                    #![trigger pix_idx(w, x, y)]
                    0 <= x < w && 0 <= y < h ==> apply_tri_list(
                        state_at(*g, pix_idx(w, x, y)),
                        cts.skip(i as int),
                        mv.texture_diffuse,
                        mv.texture_specular,
                        mv.texture_normal,
                        mv.texture_glow,
                        start_row as int,
                        start_col as int,
                        block_row as int,
                        block_col as int,
                        x,
                        y,
                    ) == apply_model(
                        state_at(g0, pix_idx(w, x, y)),
                        mv,
                        start_row as int,
                        start_col as int,
                        block_row as int,
                        block_col as int,
                        x,
                        y,
                    ),
            decreases n - i,
        {
            let t = self.clip_triangles[i];
            proof {
                assert(t@ == cts[i as int]);
            }
            let ghost gpre = *g;
            let td = self.texture_diffuse.as_ref();
            let tsp = self.texture_specular.as_ref();
            let tn = self.texture_normal.as_ref();
            let tg = self.texture_glow.as_ref();
            proof {
                assert(opt_tex(td) == mv.texture_diffuse);
                assert(opt_tex(tsp) == mv.texture_specular);
                assert(opt_tex(tn) == mv.texture_normal);
                assert(opt_tex(tg) == mv.texture_glow);
            }
            g.rasterize_triangle(
                &t,
                td,
                tsp,
                tn,
                tg,
                start_row,
                start_col,
                block_row,
                block_col,
            );
            proof {
                assert forall|x: int, y: int| 0 <= x < w && 0 <= y < h implies apply_tri_list(
                    state_at(*g, #[trigger] pix_idx(w, x, y)),
                    cts.skip(i as int + 1),
                    mv.texture_diffuse,
                    mv.texture_specular,
                    mv.texture_normal,
                    mv.texture_glow,
                    start_row as int,
                    start_col as int,
                    block_row as int,
                    block_col as int,
                    x,
                    y,
                ) == apply_model(
                    state_at(g0, pix_idx(w, x, y)),
                    mv,
                    start_row as int,
                    start_col as int,
                    block_row as int,
                    block_col as int,
                    x,
                    y,
                ) by {
                    assert(cts.skip(i as int)[0] == cts[i as int]);
                    assert(cts.skip(i as int).skip(1) =~= cts.skip(i as int + 1));
                    assert(state_at(*g, pix_idx(w, x, y)) == apply_frag(
                        state_at(gpre, pix_idx(w, x, y)),
                        frag_at(cts[i as int], mv.texture_diffuse, mv.texture_specular,
                            mv.texture_normal, mv.texture_glow, x, y,
                        ),
                        tested(cts[i as int], start_row as int, start_col as int,
                            block_row as int, block_col as int, x, y,
                        ),
                    ));
                }
            }
            i = i + 1;
        }
        proof {
            assert(cts.skip(n as int) =~= Seq::<TriangleRG>::empty());
        }
    }

    /// Rasterize the whole model tree into a light-space depth map,
    /// restricted to a block: depth only, farthest-wins.
    pub fn rasterization_shadow_map(
        &self,
        zbuf: &mut Vec<i64>,
        width: usize,
        height: usize,
        is_projection: bool,
        depth_from_w: bool,
        start_row: usize,
        start_col: usize,
        block_row: usize,
        block_col: usize,
    )
        requires
            old(zbuf)@.len() == width * height,
            width <= 0x4000,
            height <= 0x4000,
            1 <= block_row,
            1 <= block_col,
            start_row + block_row <= height,
            start_col + block_col <= width,
        ensures
            final(zbuf)@.len() == old(zbuf)@.len(),
            forall|x: int, y: int|
                #![trigger pix_idx(width as int, x, y)]
                0 <= x < width && 0 <= y < height ==> final(zbuf)@[pix_idx(width as int, x, y)]
                    as int == apply_shadow_model(
                    old(zbuf)@[pix_idx(width as int, x, y)] as int,
                    model_view(*self),
                    is_projection,
                    depth_from_w,
                    start_row as int,
                    start_col as int,
                    block_row as int,
                    block_col as int,
                    x,
                    y,
                ),
        decreases *self,
    {
        let ghost z0 = zbuf@;
        let ghost w = width as int;
        let ghost h = height as int;
        let ghost mv = model_view(*self);
        let ghost subs = mv.sub_models;
        let nc = self.sub_models.len();
        let mut k: usize = 0;
        proof {
            assert(subs.skip(0) =~= subs);
        }
        while k < nc
            invariant
                zbuf@.len() == z0.len(),
                z0.len() == width * height,
                width <= 0x4000,
                height <= 0x4000,
                w == width as int,
                h == height as int,
                mv == model_view(*self),
                subs == mv.sub_models,
                nc == self.sub_models.len(),
                nc == subs.len(),
                k <= nc,
                1 <= block_row,
                1 <= block_col,
                start_row + block_row <= height,
                start_col + block_col <= width,
                forall|x: int, y: int|
                    #![trigger pix_idx(w, x, y)]
                    0 <= x < w && 0 <= y < h ==> apply_shadow_model_seq(
                        zbuf@[pix_idx(w, x, y)] as int,
                        subs.skip(k as int),
                        is_projection,
                        depth_from_w,
                        start_row as int,
                        start_col as int,
                        block_row as int,
                        block_col as int,
                        x,
                        y,
                    ) == apply_shadow_model_seq(
                        z0[pix_idx(w, x, y)] as int,
                        subs,
                        is_projection,
                        depth_from_w,
                        start_row as int,
                        start_col as int,
                        block_row as int,
                        block_col as int,
                        x,
                        y,
                    ),
            decreases nc - k,
        {
            let c = &self.sub_models[k];
            proof {
                assert(decreases_to!(*self => self.sub_models));
                assert(decreases_to!(self.sub_models => self.sub_models[k as int]));
                assert(model_view(*c) == subs[k as int]);
            }
            let ghost zpre = zbuf@;
            c.rasterization_shadow_map(zbuf, width, height, is_projection, depth_from_w,
                start_row, start_col, block_row, block_col,
            );
            proof {
                assert forall|x: int, y: int| 0 <= x < w && 0 <= y < h implies
                    apply_shadow_model_seq(
                    zbuf@[#[trigger] pix_idx(w, x, y)] as int,
                    subs.skip(k as int + 1),
                    is_projection,
                    depth_from_w,
                    start_row as int,
                    start_col as int,
                    block_row as int,
                    block_col as int,
                    x,
                    y,
                ) == apply_shadow_model_seq(
                    z0[pix_idx(w, x, y)] as int,
                    subs,
                    is_projection,
                    depth_from_w,
                    start_row as int,
                    start_col as int,
                    block_row as int,
                    block_col as int,
                    x,
                    y,
                ) by {
                    assert(subs.skip(k as int)[0] == subs[k as int]);
                    assert(subs.skip(k as int).skip(1) =~= subs.skip(k as int + 1));
                    assert(zbuf@[pix_idx(w, x, y)] as int == apply_shadow_model(
                        zpre[pix_idx(w, x, y)] as int,
                        subs[k as int],
                        is_projection,
                        depth_from_w,
                        start_row as int,
                        start_col as int,
                        block_row as int,
                        block_col as int,
                        x,
                        y,
                    ));
                }
            }
            k = k + 1;
        }
        let ghost cts = mv.clip_triangles;
        let n = self.clip_triangles.len();
        let mut i: usize = 0;
        proof {
            assert(subs.skip(nc as int) =~= Seq::<ModelG>::empty());
            assert(cts.skip(0) =~= cts);
        }
        while i < n
            invariant
                zbuf@.len() == z0.len(),
                z0.len() == width * height,
                width <= 0x4000,
                height <= 0x4000,
                w == width as int,
                h == height as int,
                mv == model_view(*self),
                cts == mv.clip_triangles,
                n == self.clip_triangles.len(),
                n == cts.len(),
                i <= n,
                1 <= block_row,
                1 <= block_col,
                start_row + block_row <= height,
                start_col + block_col <= width,
                forall|x: int, y: int|
                    #![trigger pix_idx(w, x, y)]
                    0 <= x < w && 0 <= y < h ==> apply_shadow_tri_list(
                        zbuf@[pix_idx(w, x, y)] as int,
                        cts.skip(i as int),
                        is_projection,
                        depth_from_w,
                        start_row as int,
                        start_col as int,
                        block_row as int,
                        block_col as int,
                        x,
                        y,
                    ) == apply_shadow_model(
                        z0[pix_idx(w, x, y)] as int,
                        mv,
                        is_projection,
                        depth_from_w,
                        start_row as int,
                        start_col as int,
                        block_row as int,
                        block_col as int,
                        x,
                        y,
                    ),
            decreases n - i,
        {
            let t = self.clip_triangles[i];
            proof {
                assert(t@ == cts[i as int]);
            }
            let ghost zpre = zbuf@;
            crate::raster::rasterize_shadow(zbuf, width, height, &t, is_projection,
                depth_from_w, start_row, start_col, block_row, block_col,
            );
            proof {
                assert forall|x: int, y: int| 0 <= x < w && 0 <= y < h implies
                    apply_shadow_tri_list(
                    zbuf@[#[trigger] pix_idx(w, x, y)] as int,
                    cts.skip(i as int + 1),
                    is_projection,
                    depth_from_w,
                    start_row as int,
                    start_col as int,
                    block_row as int,
                    block_col as int,
                    x,
                    y,
                ) == apply_shadow_model(
                    z0[pix_idx(w, x, y)] as int,
                    mv,
                    is_projection,
                    depth_from_w,
                    start_row as int,
                    start_col as int,
                    block_row as int,
                    block_col as int,
                    x,
                    y,
                ) by {
                    assert(cts.skip(i as int)[0] == cts[i as int]);
                    assert(cts.skip(i as int).skip(1) =~= cts.skip(i as int + 1));
                    assert(zbuf@[pix_idx(w, x, y)] as int == apply_shadow(
                        zpre[pix_idx(w, x, y)] as int,
                        shadow_depth_at(cts[i as int], is_projection, depth_from_w, x, y),
                        tested(cts[i as int], start_row as int, start_col as int,
                            block_row as int, block_col as int, x, y,
                        ),
                    ));
                }
            }
            i = i + 1;
        }
        proof {
            assert(cts.skip(n as int) =~= Seq::<TriangleRG>::empty());
        }
    }
}

/// The normal matrix of a rotation: the rotation's own linear part (a
/// rotation is orthogonal, so it equals its transpose inverse).
pub open spec fn model_rotation_nm(axis: V3, c: int, s: int) -> M3 {
    let m = modeling_mat(axis, c, s, V3 { x: 0, y: 0, z: 0 });
    M3 {
        r0: V3 { x: m.r0.x, y: m.r0.y, z: m.r0.z },
        r1: V3 { x: m.r1.x, y: m.r1.y, z: m.r1.z },
        r2: V3 { x: m.r2.x, y: m.r2.y, z: m.r2.z },
    }
}

/// A model's persistent geometry: everything but the per-frame scratch clip
/// triangles.
pub open spec fn model_core(m: ModelG) -> ModelG
    decreases m,
{
    ModelG {
        sub_models: Seq::new(m.sub_models.len(), |i: int| if 0 <= i < m.sub_models.len() {
            model_core(m.sub_models[i])
        } else {
            empty_model_g()
        }),
        clip_triangles: Seq::empty(),
        ..m
    }
}

/// The clip pass reads only a model's persistent geometry: two models with
/// the same core clip identically, so a frame's clip results are independent
/// of whatever scratch state an earlier projection left behind.
pub proof fn lemma_clipped_of_same_core(a: ModelG, b: ModelG, mvp: M4, mv: M4)
    requires
        model_core(a) == model_core(b),
    ensures
        model_clipped(a, mvp, mv) == model_clipped(b, mvp, mv),
    decreases a,
{
    assert(model_core(a).triangles == a.triangles);
    assert(model_core(b).triangles == b.triangles);
    assert(model_core(a).sub_models.len() == a.sub_models.len());
    assert(model_core(b).sub_models.len() == b.sub_models.len());
    assert forall|i: int| 0 <= i < a.sub_models.len() implies model_clipped(
        #[trigger] a.sub_models[i],
        mvp,
        mv,
    ) == model_clipped(b.sub_models[i], mvp, mv) by {
        assert(model_core(a).sub_models[i] == model_core(a.sub_models[i]));
        assert(model_core(b).sub_models[i] == model_core(b.sub_models[i]));
        lemma_clipped_of_same_core(a.sub_models[i], b.sub_models[i], mvp, mv);
    }
    assert(model_clipped(a, mvp, mv).sub_models =~= model_clipped(b, mvp, mv).sub_models);
}

/// Clipping and screen-mapping leave a model's persistent geometry alone.
pub proof fn lemma_core_of_prepared(m: ModelG, mvp: M4, mv: M4, w: int, h: int)
    ensures
        model_core(model_ndc(model_clipped(m, mvp, mv), w, h)) == model_core(m),
    decreases m,
{
    let m2 = model_ndc(model_clipped(m, mvp, mv), w, h);
    assert forall|i: int| 0 <= i < m.sub_models.len() implies model_core(
        #[trigger] m2.sub_models[i],
    ) == model_core(m.sub_models[i]) by {
        lemma_core_of_prepared(m.sub_models[i], mvp, mv, w, h);
    }
    assert(model_core(m2).sub_models =~= model_core(m).sub_models);
}

/// Whether a model is well formed depends only on its persistent geometry.
pub proof fn lemma_wf_of_same_core(a: ModelG, b: ModelG)
    requires
        model_core(a) == model_core(b),
    ensures
        model_wf(a) == model_wf(b),
    decreases a,
{
    assert(model_core(a).sub_models.len() == a.sub_models.len());
    assert(model_core(b).sub_models.len() == b.sub_models.len());
    assert(a.sub_models.len() == b.sub_models.len());
    assert forall|i: int| 0 <= i < a.sub_models.len() implies model_wf(
        #[trigger] a.sub_models[i],
    ) == model_wf(b.sub_models[i]) by {
        assert(model_core(a).sub_models[i] == model_core(a.sub_models[i]));
        assert(model_core(b).sub_models[i] == model_core(b.sub_models[i]));
        lemma_wf_of_same_core(a.sub_models[i], b.sub_models[i]);
    }
    assert forall|i: int| 0 <= i < b.sub_models.len() implies model_wf(
        #[trigger] b.sub_models[i],
    ) == model_wf(a.sub_models[i]) by {
        assert(model_wf(a.sub_models[i]) == model_wf(b.sub_models[i]));
    }
    assert(a.scale == model_core(a).scale && b.scale == model_core(b).scale);
    assert(a.texture_diffuse == model_core(a).texture_diffuse && b.texture_diffuse == model_core(
        b,
    ).texture_diffuse);
    assert(a.texture_specular == model_core(a).texture_specular && b.texture_specular
        == model_core(b).texture_specular);
    assert(a.texture_normal == model_core(a).texture_normal && b.texture_normal == model_core(
        b,
    ).texture_normal);
    assert(a.texture_glow == model_core(a).texture_glow && b.texture_glow == model_core(
        b,
    ).texture_glow);
    if model_wf(a) {
        assert(model_wf(b));
    }
    if model_wf(b) {
        assert(model_wf(a));
    }
}

} // verus!
