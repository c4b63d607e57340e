//! The rendering pipeline: primitive storage for the geometry stage and the
//! integer parts of the fragment stage (tiling and line stepping).

pub mod fragment;
pub mod rasterization;
pub mod storage;
