//! Shadow-query and buffer-update scenarios: the depth test is
//! order-independent, PCF at radius zero matches DIRECT, PCSS is fully lit
//! without blockers, and the mask blur is a true 2D box average.

use render_lib::fx::FX_ONE;
use render_lib::geom::{Triangle, TriangleRasterization, Vertex, VertexRasterization};
use render_lib::light::ShadowMethod;
use render_lib::mask::box_blur_penumbra_mask_grid;
use render_lib::model::Model;
use render_lib::raster::{GBuffer, Z_EMPTY};
use render_lib::spot_light::SpotLight;
use render_lib::vec::{Vec2, Vec3, Vec4};

fn screen_vertex(x_px: i64, y_px: i64, z: i64) -> VertexRasterization {
    VertexRasterization {
        pos: Vec3 { x: 0, y: 0, z },
        transform_pos: Vec4 { x: x_px, y: y_px, z, w: -FX_ONE },
        normal: Vec3 { x: 0, y: 0, z: FX_ONE },
        color: Vec3 { x: FX_ONE / 2, y: FX_ONE / 2, z: FX_ONE / 2 },
        texture_coords: Vec2 { x: 0, y: 0 },
    }
}
fn screen_triangle(z: i64, shift: i64) -> TriangleRasterization {
    // a large triangle covering the middle of an 8x8 grid, in pixel-scaled
    // fixed-point screen coordinates
    TriangleRasterization {
        v0: screen_vertex(shift, 0, z),
        v1: screen_vertex(8 * FX_ONE + shift, 0, z),
        v2: screen_vertex(4 * FX_ONE + shift, 8 * FX_ONE, z),
    }
}

/// Depth test order independence: drawing the near triangle before or after
/// the far one leaves identical buffers.
#[test]
fn depth_test_order_independent() {
    let near = screen_triangle(-FX_ONE / 2, 0);
    let far = screen_triangle(FX_ONE / 2, FX_ONE);
    let mut g1 = GBuffer::new(8, 8);
    g1.rasterize_triangle(&near, None, None, None, None, 0, 0, 8, 8);
    g1.rasterize_triangle(&far, None, None, None, None, 0, 0, 8, 8);
    let mut g2 = GBuffer::new(8, 8);
    g2.rasterize_triangle(&far, None, None, None, None, 0, 0, 8, 8);
    g2.rasterize_triangle(&near, None, None, None, None, 0, 0, 8, 8);
    assert_eq!(g1.z, g2.z);
    for i in 0..64 {
        assert_eq!(g1.pos[i], g2.pos[i]);
        assert_eq!(g1.normal[i], g2.normal[i]);
        assert_eq!(g1.diffuse[i], g2.diffuse[i]);
    }
    // and something was actually drawn
    assert!(g1.z.iter().any(|&z| z != Z_EMPTY));
}

fn quad(cx: i64, cy: i64, half: i64, z: i64) -> Vec<Triangle> {
    let v = |x: i64, y: i64| Vertex {
        pos: Vec3 { x, y, z },
        normal: Vec3 { x: 0, y: 0, z: FX_ONE },
        color: Vec3 { x: FX_ONE / 2, y: FX_ONE / 2, z: FX_ONE / 2 },
        texture_coords: Vec2 { x: 0, y: 0 },
    };
    vec![
        Triangle { v0: v(cx - half, cy - half), v1: v(cx + half, cy - half), v2: v(cx + half, cy + half) },
        Triangle { v0: v(cx - half, cy - half), v1: v(cx + half, cy + half), v2: v(cx - half, cy + half) },
    ]
}

fn spot_over_quad() -> (SpotLight, Vec<Model>) {
    let mut light = SpotLight::new();
    light.set_pos(Vec3 { x: 0, y: 0, z: 5 * FX_ONE });
    light.set_light_dir(Vec3 { x: 0, y: 0, z: -FX_ONE });
    light.set_z_buffer_width(128);
    light.set_z_buffer_height(128);
    let mut m = Model::new();
    for t in quad(0, 0, FX_ONE, -2 * FX_ONE) {
        m.add_triangle(&t);
    }
    let mut models = vec![m];
    light.look_at(&mut models);
    (light, models)
}

/// PCF with kernel radius zero produces the same visibility as DIRECT for
/// the same point and normal.
#[test]
fn pcf_radius_zero_matches_direct() {
    let (light, _models) = spot_over_quad();
    let n = Vec3 { x: 0, y: 0, z: FX_ONE };
    for &(px, py) in &[(0i64, 0i64), (FX_ONE / 4, FX_ONE / 4), (-FX_ONE / 2, FX_ONE / 3)] {
        let p = Vec3 { x: px, y: py, z: -2 * FX_ONE };
        let d = light.in_shadow_direct(&p, &n);
        let f = light.in_shadow_pcf_radius(&p, &n, 0);
        assert_eq!(d, f);
    }
    // a point outside the light frustum reports zero under both
    let behind = Vec3 { x: 0, y: 0, z: 20 * FX_ONE };
    assert_eq!(light.in_shadow_direct(&behind, &n), 0);
    assert_eq!(light.in_shadow_pcf_radius(&behind, &n, 0), 0);
}

/// PCSS reports full visibility when the blocker search finds no blocker:
/// here the only occluder sits far outside the search radius around the
/// receiver.
#[test]
fn pcss_fully_lit_without_blockers() {
    let mut light = SpotLight::new();
    light.set_pos(Vec3 { x: 0, y: 0, z: 5 * FX_ONE });
    light.set_light_dir(Vec3 { x: 0, y: 0, z: -FX_ONE });
    light.set_z_buffer_width(128);
    light.set_z_buffer_height(128);
    // a small occluder far off to the side
    let mut m = Model::new();
    for t in quad(3 * FX_ONE, 3 * FX_ONE, FX_ONE / 4, 2 * FX_ONE) {
        m.add_triangle(&t);
    }
    let mut models = vec![m];
    light.look_at(&mut models);
    let p = Vec3 { x: 0, y: 0, z: -3 * FX_ONE };
    let n = Vec3 { x: 0, y: 0, z: FX_ONE };
    assert_eq!(light.in_shadow(&p, &n, ShadowMethod::PCSS), FX_ONE);
    // with no geometry at all the answer is the same
    let mut empty_light = SpotLight::new();
    empty_light.set_pos(Vec3 { x: 0, y: 0, z: 5 * FX_ONE });
    empty_light.set_light_dir(Vec3 { x: 0, y: 0, z: -FX_ONE });
    empty_light.set_z_buffer_width(64);
    empty_light.set_z_buffer_height(64);
    let mut no_models: Vec<Model> = Vec::new();
    empty_light.look_at(&mut no_models);
    assert_eq!(empty_light.in_shadow(&p, &n, ShadowMethod::PCSS), FX_ONE);
}

/// Box blur with radius zero is the identity on the penumbra mask, and the
/// horizontal-then-vertical passes equal the direct symmetric 2D box average.
#[test]
fn box_blur_identity_and_separability() {
    let w = 8usize;
    let h = 6usize;
    let mut mask: Vec<i64> = vec![0; w * h];
    mask[3 * w + 3] = FX_ONE;
    mask[1 * w + 6] = FX_ONE;
    let original = mask.clone();
    // radius zero: identity
    let mut m0 = mask.clone();
    box_blur_penumbra_mask_grid(&mut m0, w, h, 0);
    assert_eq!(m0, original);
    // radius one: equal to the direct 2D box average with clamped borders
    let r = 1i64;
    box_blur_penumbra_mask_grid(&mut mask, w, h, 1);
    for y in 0..h as i64 {
        for x in 0..w as i64 {
            let mut sum: i64 = 0;
            for oy in -r..=r {
                for ox in -r..=r {
                    let cx = (x + ox).clamp(0, w as i64 - 1);
                    let cy = (y + oy).clamp(0, h as i64 - 1);
                    sum += original[(cy as usize) * w + cx as usize];
                }
            }
            let expected = sum / ((2 * r + 1) * (2 * r + 1));
            assert_eq!(mask[(y as usize) * w + x as usize], expected);
        }
    }
}
