//! End-to-end frames: a lit quad shades to the analytic ambient-plus-diffuse
//! value, and an occluder casts a hard shadow with a soft boundary.

use render_lib::fx::FX_ONE;
use render_lib::geom::{Triangle, Vertex};
use render_lib::light::{Light, ShadowMethod};
use render_lib::directional_light::DirectionalLight;
use render_lib::model::Model;
use render_lib::scene::Scene;
use render_lib::shader::SceneLight;
use render_lib::spot_light::SpotLight;
use render_lib::texture::Texture;
use render_lib::vec::{Vec2, Vec3};

fn quad_model(cx: i64, cy: i64, half: i64, z: i64) -> Model {
    let v = |x: i64, y: i64| Vertex {
        pos: Vec3 { x, y, z },
        normal: Vec3 { x: 0, y: 0, z: FX_ONE },
        color: Vec3 { x: FX_ONE / 2, y: FX_ONE / 2, z: FX_ONE / 2 },
        texture_coords: Vec2 { x: 0, y: 0 },
    };
    let mut m = Model::new();
    m.add_triangle(&Triangle {
        v0: v(cx - half, cy - half),
        v1: v(cx + half, cy - half),
        v2: v(cx + half, cy + half),
    });
    m.add_triangle(&Triangle {
        v0: v(cx - half, cy - half),
        v1: v(cx + half, cy + half),
        v2: v(cx - half, cy + half),
    });
    m
}

/// A single quad facing a directional light of intensity one, the camera
/// looking straight at it, a zero specular texture bound: the shaded center
/// pixel is the ambient plus diffuse value, on the fixed-point grid.
#[test]
fn directional_lit_quad_center_pixel() {
    let mut scene = Scene::new(64, 64);
    scene.set_eye_pos(Vec3 { x: 0, y: 0, z: 0 });
    scene.set_view_dir(Vec3 { x: 0, y: 0, z: -FX_ONE });
    let mut m = quad_model(0, 0, 2 * FX_ONE, -5 * FX_ONE);
    // zero specular: a one-texel black specular texture
    m.set_texture(
        Some(Texture::from_raw(vec![0, 0, 0], 1, 1, 3)),
        render_lib::model::TextureTypes::Specular,
    );
    scene.add_model(m);
    let mut light = DirectionalLight::new();
    light.set_pos(Vec3 { x: 0, y: 0, z: 10 * FX_ONE });
    light.set_light_dir(Vec3 { x: 0, y: 0, z: -FX_ONE });
    light.set_intensity(Vec3 { x: FX_ONE, y: FX_ONE, z: FX_ONE });
    light.set_z_far(-100 * FX_ONE);
    light.set_z_buffer_width(128);
    light.set_z_buffer_height(128);
    scene.add_light(SceneLight::Directional(light));
    scene.start_render();
    let frame = scene.get_frame_buffer();
    let center = frame[32 * 64 + 32];
    // ambient 0.05 * 0.5 = 0.025 and diffuse 1.0 * 0.5 * 1.0 = 0.5:
    // 0.525 is 34406 on the grid (up to interpolation rounding)
    let expected = 34406i64;
    let tol = 300i64;
    assert!((center.x - expected).abs() <= tol, "center {} expected {}", center.x, expected);
    assert!((center.y - expected).abs() <= tol);
    assert!((center.z - expected).abs() <= tol);
    // the packed image agrees: 0.525 * 255 rounds to 134
    let bytes = scene.to_rgb_bytes();
    assert_eq!(bytes.len(), 64 * 64 * 3);
    let base = 3 * (64 * (64 - 32 - 1) + 32);
    assert!((bytes[base] as i64 - 134).abs() <= 2);
}

/// Two parallel planes with a spot light: the point directly behind the
/// occluder is fully shadowed under DIRECT, and near the shadow boundary
/// PCSS reports a visibility strictly between zero and one.
#[test]
fn spot_shadow_and_penumbra() {
    let mut light = SpotLight::new();
    light.set_pos(Vec3 { x: 0, y: 0, z: 5 * FX_ONE });
    light.set_light_dir(Vec3 { x: 0, y: 0, z: -FX_ONE });
    light.set_z_buffer_width(128);
    light.set_z_buffer_height(128);
    let near = quad_model(0, 0, FX_ONE / 2, 2 * FX_ONE);
    let far = quad_model(0, 0, 6 * FX_ONE, -4 * FX_ONE);
    let mut models = vec![near, far];
    light.look_at(&mut models);
    let n = Vec3 { x: 0, y: 0, z: FX_ONE };
    // directly behind the occluder: hard shadow
    let blocked = Vec3 { x: 0, y: 0, z: -4 * FX_ONE };
    assert_eq!(light.in_shadow(&blocked, &n, ShadowMethod::DIRECT), 0);
    // far from the shadow: fully lit
    let lit = Vec3 { x: 4 * FX_ONE, y: 0, z: -4 * FX_ONE };
    assert_eq!(light.in_shadow(&lit, &n, ShadowMethod::DIRECT), FX_ONE);
    // near the geometric shadow edge (x around 1.5 on the far plane) PCSS
    // finds a partial visibility
    let mut partial = false;
    for i in 0..33 {
        let x = FX_ONE + i * (FX_ONE / 16);
        let p = Vec3 { x, y: 0, z: -4 * FX_ONE };
        let vis = light.in_shadow(&p, &n, ShadowMethod::PCSS);
        if vis > 0 && vis < FX_ONE {
            partial = true;
        }
    }
    assert!(partial, "no point near the shadow edge saw a partial PCSS visibility");
}

/// The orchestrated render marks penumbra cells only near the shadow
/// boundary and the light answers queries through the scene.
#[test]
fn scene_render_with_spot_shadow() {
    let mut scene = Scene::new(64, 64);
    scene.set_eye_pos(Vec3 { x: 0, y: 0, z: 6 * FX_ONE });
    scene.set_view_dir(Vec3 { x: 0, y: 0, z: -FX_ONE });
    scene.add_model(quad_model(0, 0, FX_ONE / 2, 2 * FX_ONE));
    scene.add_model(quad_model(0, 0, 6 * FX_ONE, -4 * FX_ONE));
    let mut light = SpotLight::new();
    light.set_pos(Vec3 { x: 0, y: 0, z: 5 * FX_ONE });
    light.set_light_dir(Vec3 { x: 0, y: 0, z: -FX_ONE });
    light.set_intensity(Vec3 { x: 50 * FX_ONE, y: 50 * FX_ONE, z: 50 * FX_ONE });
    light.set_z_buffer_width(128);
    light.set_z_buffer_height(128);
    scene.add_light(SceneLight::Spot(light));
    scene.start_render();
    // something rendered: the frame is not all background grey
    let frame = scene.get_frame_buffer();
    let grey = 45875i64;
    assert!(frame.iter().any(|c| c.x != grey));
    // the light's mask marks some boundary cell
    if let SceneLight::Spot(l) = &scene.lights[0] {
        assert!(l.penumbra_mask.iter().any(|&c| c > 0));
    } else {
        panic!("light variant changed");
    }
}

/// Point lights fall off with the inverse square of the distance.
#[test]
fn point_light_falloff() {
    let l = Light::new(
        Vec3 { x: 0, y: 0, z: 0 },
        Vec3 { x: 8 * FX_ONE, y: 8 * FX_ONE, z: 8 * FX_ONE },
    );
    let i2 = l.compute_world_light_intensity(&Vec3 { x: 0, y: 0, z: 2 * FX_ONE });
    assert_eq!(i2.x, 2 * FX_ONE);
    let at_light = l.compute_world_light_intensity(&Vec3 { x: 0, y: 0, z: 0 });
    assert_eq!(at_light.x, 0);
}
