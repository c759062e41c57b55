//! A CPU software rasterizer over exact fixed-point arithmetic.
//!
//! Geometry is transformed and clipped against the view frustum, scan-converted
//! with perspective-correct interpolation into a set of per-pixel buffers, lit
//! by point/spot and directional lights with shadow maps (hard shadows, PCF and
//! PCSS with a penumbra-mask accelerator), and shaded with a Blinn-Phong model.
//!
//! All scalar quantities are fixed-point numbers: an `i64` holding the value
//! scaled by `fx::FX_ONE`. Every arithmetic step is exact and verified.

pub mod camera;
pub mod fib;
pub mod clip;
pub mod directional_light;
pub mod fx;
pub mod geom;
pub mod light;
pub mod mask;
pub mod model;
pub mod raster;
pub mod scene;
pub mod shader;
pub mod spot_light;
pub mod texture;
pub mod vec;
