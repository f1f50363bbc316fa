//! A fixed-point software rasterizer: vector and matrix math, triangle
//! clipping, scanline rasterization and a per-frame geometry pipeline.
//!
//! All geometry is Q16.16 fixed point (`fixed`): every operation saturates
//! to the `i32` range and rounds toward negative infinity, and every
//! function states its result exactly over spec functions of `int`
//! arithmetic. Rasterizers state per pixel what the buffer holds after a
//! call. `laws` holds the properties that relate several calls.
pub mod fixed;
pub mod vector;
pub mod vector2;
pub mod vector3;
pub mod vector4;
pub mod triangle;
pub mod clip;
pub mod renderer;
pub mod renderer_2d;
pub mod renderer_3d;
pub mod mesh;
pub mod matrix4x4;
pub mod object3d;
pub mod palettes;
pub mod texture;
pub mod texture_pool;
pub mod pipeline;
pub mod obj_loader;
pub mod laws;
