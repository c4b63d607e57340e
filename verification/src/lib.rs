//! A software rasterizer whose integer logic is specified and proved:
//! stencil tests and operations, primitive assembly, clipping plans,
//! line stepping, pixel buffer access and the tiling of the render target.

pub mod utils;
pub mod error;
pub mod stencil;
pub mod geometry;
pub mod primitive;
pub mod pixels;
pub mod pipeline;
pub mod framebuffer;
pub mod texture;
pub mod renderer;
