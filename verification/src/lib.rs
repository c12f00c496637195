//! Verified core of a NanoVG-style vector graphics renderer: vertex and
//! index bookkeeping, draw-call recording and the integer decisions that
//! the GPU backends act on.

pub mod mesh;
pub mod paint;
pub mod path;
pub mod pipeline;
pub mod pipeline_cache;
pub mod texture;
pub mod call;
pub mod render;
pub mod expand;
pub mod uniform;
pub mod context;
pub mod cache;
pub mod stroke;
