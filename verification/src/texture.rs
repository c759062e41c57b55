//! Decoded textures: an immutable pixel grid sampled bilinearly by normalized
//! UV coordinates. Out-of-range coordinates are always clamped, never an
//! error. Rows are stored bottom-up: texel (x, y) lives at
//! `channels * (width * (height - y - 1) + x)`.

use vstd::prelude::*;

use crate::fx::{fadd, fclamp, fdiv, fmul, fsub, fx_add, fx_clamp, fx_div, fx_from_int, fx_mul,
    fx_round, fx_round_spec, fx_sub, sat64, FX_HALF, FX_ONE};
use crate::vec::{Vec2, Vec3, Vec4, V2, V3, V4};

verus! {

/// An immutable decoded pixel grid.
pub struct Texture {
    pub data: Vec<u8>,
    pub width: u32,
    pub height: u32,
    pub channels: u32,
}

/// Ghost mirror of `Texture`.
pub ghost struct TextureG {
    pub data: Seq<u8>,
    pub width: int,
    pub height: int,
    pub channels: int,
}

impl View for Texture {
    type V = TextureG;

    open spec fn view(&self) -> TextureG {
        TextureG {
            data: self.data@,
            width: self.width as int,
            height: self.height as int,
            channels: self.channels as int,
        }
    }
}

/// A texture is well formed when the data holds exactly one byte per channel
/// per texel, the channel count is one of the decoded layouts, the grid is
/// not empty, and every index fits an `i32`.
pub open spec fn texture_wf(t: TextureG) -> bool {
    &&& t.data.len() == t.width * t.height * t.channels
    &&& 1 <= t.channels <= 4
    &&& 1 <= t.width
    &&& 1 <= t.height
    &&& t.width * t.height * t.channels <= i32::MAX as int
}

/// The byte offset of texel (x, y): rows are stored bottom-up.
pub open spec fn texel_index(t: TextureG, x: int, y: int) -> int {
    t.channels * (t.width * (t.height - y - 1) + x)
}

/// The fixed-point value of one stored byte, mapped from [0, 255] to [0, 1].
pub open spec fn byte_fx(b: u8) -> int {
    fdiv(sat64(b * FX_ONE as int), sat64(255 * FX_ONE as int))
}

/// One channel of texel (x, y) as a fixed-point value in [0, 1].
pub open spec fn texel_fx(t: TextureG, x: int, y: int, c: int) -> int
    recommends
        texture_wf(t),
        0 <= x < t.width,
        0 <= y < t.height,
        0 <= c < t.channels,
{
    byte_fx(t.data[texel_index(t, x, y) + c])
}

/// The bilinear sample of one channel at normalized UV coordinates (u, v):
/// the four texels around the sample point, blended by the fractional
/// offsets, with all coordinates clamped to the grid.
pub open spec fn sample_channel(t: TextureG, u: int, v: int, c: int) -> int
    recommends
        texture_wf(t),
        0 <= c < t.channels,
{
    let wf = sat64(t.width * FX_ONE as int);
    let hf = sat64(t.height * FX_ONE as int);
    let uu = fclamp(fmul(u, wf), 0, wf);
    let vv = fclamp(fmul(v, hf), 0, hf);
    let cx = fx_round_spec(uu);
    let cy = fx_round_spec(vv);
    let x0 = fclamp(cx - 1, 0, t.width - 1);
    let x1 = fclamp(cx, 0, t.width - 1);
    let y0 = fclamp(cy - 1, 0, t.height - 1);
    let y1 = fclamp(cy, 0, t.height - 1);
    let h_rate = fsub(fadd(uu, FX_HALF as int), sat64(cx * FX_ONE as int));
    let v_rate = fsub(fadd(vv, FX_HALF as int), sat64(cy * FX_ONE as int));
    let top = fadd(
        fmul(fsub(FX_ONE as int, h_rate), texel_fx(t, x0, y1, c)),
        fmul(h_rate, texel_fx(t, x1, y1, c)),
    );
    let bottom = fadd(
        fmul(fsub(FX_ONE as int, h_rate), texel_fx(t, x0, y0, c)),
        fmul(h_rate, texel_fx(t, x1, y0, c)),
    );
    fadd(fmul(fsub(FX_ONE as int, v_rate), bottom), fmul(v_rate, top))
}

impl Texture {
    /// Build a texture from already-decoded pixel bytes.
    pub fn from_raw(data: Vec<u8>, width: u32, height: u32, channels: u32) -> (r: Texture)
        requires
            data@.len() == width * height * channels,
            1 <= channels <= 4,
            1 <= width,
            1 <= height,
            width * height * channels <= i32::MAX as int,
        ensures
            texture_wf(r@),
            r@ == (TextureG {
                data: data@,
                width: width as int,
                height: height as int,
                channels: channels as int,
            }),
    {
        Texture { data, width, height, channels }
    }

    /// The byte offset of texel (x, y); rows are stored bottom-up.
    pub fn get_index(&self, x: i32, y: i32) -> (r: i32)
        requires
            texture_wf(self@),
            0 <= x < self@.width,
            0 <= y < self@.height,
        ensures
            r as int == texel_index(self@, x as int, y as int),
    {
        proof {
            lemma_texel_index_bounds(self@, x as int, y as int);
        }
        self.channels as i32 * (self.width as i32 * (self.height as i32 - y - 1) + x)
    }

    fn texel(&self, x: i64, y: i64, c: u32) -> (r: i64)
        requires
            texture_wf(self@),
            0 <= x < self@.width,
            0 <= y < self@.height,
            0 <= c < self@.channels,
        ensures
            r as int == texel_fx(self@, x as int, y as int, c as int),
    {
        proof {
            lemma_texel_index_bounds(self@, x as int, y as int);
        }
        let base = self.channels as usize * (self.width as usize * (self.height as usize - y
            as usize - 1) + x as usize);
        let b = self.data[base + c as usize];
        fx_div(fx_from_int(b as i64), fx_from_int(255))
    }

    fn sample(&self, u: i64, v: i64, c: u32) -> (r: i64)
        requires
            texture_wf(self@),
            0 <= c < self@.channels,
        ensures
            r as int == sample_channel(self@, u as int, v as int, c as int),
    {
        let wf = fx_from_int(self.width as i64);
        let hf = fx_from_int(self.height as i64);
        let uu = fx_clamp(fx_mul(u, wf), 0, wf);
        let vv = fx_clamp(fx_mul(v, hf), 0, hf);
        let cx = fx_round(uu);
        let cy = fx_round(vv);
        let x0 = fx_clamp(cx - 1, 0, self.width as i64 - 1);
        let x1 = fx_clamp(cx, 0, self.width as i64 - 1);
        let y0 = fx_clamp(cy - 1, 0, self.height as i64 - 1);
        let y1 = fx_clamp(cy, 0, self.height as i64 - 1);
        let h_rate = fx_sub(fx_add(uu, FX_HALF), fx_from_int(cx));
        let v_rate = fx_sub(fx_add(vv, FX_HALF), fx_from_int(cy));
        let one_h = fx_sub(FX_ONE, h_rate);
        let one_v = fx_sub(FX_ONE, v_rate);
        let top = fx_add(fx_mul(one_h, self.texel(x0, y1, c)), fx_mul(h_rate, self.texel(x1, y1,
            c)));
        let bottom = fx_add(fx_mul(one_h, self.texel(x0, y0, c)), fx_mul(h_rate, self.texel(x1,
            y0, c)));
        fx_add(fx_mul(one_v, bottom), fx_mul(v_rate, top))
    }

    /// Sample a one-channel texture.
    pub fn get_luma(&self, u: i64, v: i64) -> (r: i64)
        requires
            texture_wf(self@),
        ensures
            r as int == sample_channel(self@, u as int, v as int, 0),
    {
        self.sample(u, v, 0)
    }

    /// Sample a two-channel texture.
    pub fn get_luma_alpha(&self, u: i64, v: i64) -> (r: Vec2)
        requires
            texture_wf(self@),
            self@.channels >= 2,
        ensures
            r@ == (V2 {
                x: sample_channel(self@, u as int, v as int, 0),
                y: sample_channel(self@, u as int, v as int, 1),
            }),
    {
        Vec2 { x: self.sample(u, v, 0), y: self.sample(u, v, 1) }
    }

    /// Sample the RGB channels of a texture.
    pub fn get_rgb(&self, u: i64, v: i64) -> (r: Vec3)
        requires
            texture_wf(self@),
            self@.channels >= 3,
        ensures
            r@ == texture_rgb(self@, u as int, v as int),
    {
        Vec3 { x: self.sample(u, v, 0), y: self.sample(u, v, 1), z: self.sample(u, v, 2) }
    }

    /// Sample all four channels of an RGBA texture.
    pub fn get_rgba(&self, u: i64, v: i64) -> (r: Vec4)
        requires
            texture_wf(self@),
            self@.channels >= 4,
        ensures
            r@ == (V4 {
                x: sample_channel(self@, u as int, v as int, 0),
                y: sample_channel(self@, u as int, v as int, 1),
                z: sample_channel(self@, u as int, v as int, 2),
                w: sample_channel(self@, u as int, v as int, 3),
            }),
    {
        Vec4 {
            x: self.sample(u, v, 0),
            y: self.sample(u, v, 1),
            z: self.sample(u, v, 2),
            w: self.sample(u, v, 3),
        }
    }
}

/// The RGB triple sampled from a texture at (u, v).
pub open spec fn texture_rgb(t: TextureG, u: int, v: int) -> V3 {
    V3 {
        x: sample_channel(t, u, v, 0),
        y: sample_channel(t, u, v, 1),
        z: sample_channel(t, u, v, 2),
    }
}

proof fn lemma_texel_index_bounds(t: TextureG, x: int, y: int)
    requires
        texture_wf(t),
        0 <= x < t.width,
        0 <= y < t.height,
    ensures
        0 <= texel_index(t, x, y),
        texel_index(t, x, y) + t.channels <= t.data.len(),
        0 <= t.width * (t.height - y - 1),
        t.width * (t.height - y - 1) + x < t.width * t.height,
        t.width * t.height <= i32::MAX as int,
        t.width <= i32::MAX as int,
        t.height <= i32::MAX as int,
{
    let row = t.height - y - 1;
    assert(0 <= row < t.height);
    assert(t.width * row + x < t.width * t.height) by (nonlinear_arith)
        requires
            0 <= x < t.width,
            0 <= row < t.height,
    ;
    assert(0 <= t.width * row) by (nonlinear_arith)
        requires
            0 <= row,
            0 <= t.width,
    ;
    assert(t.channels * (t.width * row + x) + t.channels <= t.width * t.height * t.channels)
        by (nonlinear_arith)
        requires
            0 <= t.width * row + x,
            t.width * row + x < t.width * t.height,
            1 <= t.channels,
    ;
    assert(0 <= t.channels * (t.width * row + x)) by (nonlinear_arith)
        requires
            0 <= t.width * row + x,
            1 <= t.channels,
    ;
    assert(t.width * t.height <= t.width * t.height * t.channels && t.width <= t.width * t.height
        && t.height <= t.width * t.height) by (nonlinear_arith)
        requires
            1 <= t.width,
            1 <= t.height,
            1 <= t.channels,
    ;
}

} // verus!
