//! Exact values of the fixed-point arithmetic, vectors and textures.

use render_lib::fx::{fx_add, fx_div, fx_mul, fx_round, fx_sqrt, fx_sub, fx_trunc, FX_ONE};
use render_lib::texture::Texture;
use render_lib::vec::Vec3;

#[test]
fn fixed_point_ops_exact() {
    assert_eq!(fx_add(FX_ONE, FX_ONE), 2 * FX_ONE);
    assert_eq!(fx_sub(FX_ONE, 3 * FX_ONE), -2 * FX_ONE);
    // 1.5 * 2 = 3
    assert_eq!(fx_mul(3 * FX_ONE / 2, 2 * FX_ONE), 3 * FX_ONE);
    // 1 / 4 = 0.25
    assert_eq!(fx_div(FX_ONE, 4 * FX_ONE), FX_ONE / 4);
    // truncation toward zero
    assert_eq!(fx_trunc(-3 * FX_ONE / 2), -1);
    assert_eq!(fx_trunc(3 * FX_ONE / 2), 1);
    // rounding half away from zero
    assert_eq!(fx_round(FX_ONE / 2), 1);
    assert_eq!(fx_round(-FX_ONE / 2), -1);
    // sqrt(4) = 2 exactly on the grid
    assert_eq!(fx_sqrt(4 * FX_ONE), 2 * FX_ONE);
    // sqrt(2) to the grid: floor(sqrt(2) * 65536) = 92681
    assert_eq!(fx_sqrt(2 * FX_ONE), 92681);
}

#[test]
fn vector_ops_exact() {
    let a = Vec3 { x: FX_ONE, y: 0, z: 0 };
    let b = Vec3 { x: 0, y: FX_ONE, z: 0 };
    let c = a.cross(&b);
    assert_eq!((c.x, c.y, c.z), (0, 0, FX_ONE));
    assert_eq!(a.dot(&b), 0);
    let d = Vec3 { x: 3 * FX_ONE, y: 4 * FX_ONE, z: 0 };
    assert_eq!(d.dot(&d), 25 * FX_ONE);
    let n = d.normalize();
    // 3/5 and 4/5 exactly on the grid
    assert_eq!(n.x, 3 * FX_ONE / 5);
    assert_eq!(n.y, 4 * FX_ONE / 5);
    // a zero vector normalizes to zero, not an error
    let z = Vec3 { x: 0, y: 0, z: 0 }.normalize();
    assert_eq!((z.x, z.y, z.z), (0, 0, 0));
}

#[test]
fn texture_index_and_sampling() {
    // 2x2 RGB texture, rows stored bottom-up
    let data = vec![
        255, 0, 0, 0, 255, 0, // texel row y = 1: red, green
        0, 0, 255, 255, 255, 255, // texel row y = 0: blue, white
    ];
    let t = Texture::from_raw(data, 2, 2, 3);
    assert_eq!(t.get_index(0, 1), 0);
    assert_eq!(t.get_index(1, 1), 3);
    assert_eq!(t.get_index(0, 0), 6);
    assert_eq!(t.get_index(1, 0), 9);
    // sampling the exact center of texel (0, 0): u = 0.25, v = 0.25
    let c = t.get_rgb(FX_ONE / 4, FX_ONE / 4);
    // byte 255 maps to 1.0 on the grid
    assert_eq!(c.z, FX_ONE);
    assert_eq!(c.x, 0);
}
