//! A frame rendering and batching core for a scene-graph renderer: a
//! transient GPU buffer arena, a glyph atlas with shelf packing, a scene
//! graph loader and keyframe animation sampler for the glTF interchange
//! format, and a draw-call batching engine that groups submissions by GPU
//! state and issues one instanced draw per unique state pair.
//!
//! Floating-point values are carried as the bit patterns of their
//! single-precision representations, and the arithmetic on them is done by
//! glam and the IEEE operators behind named, trusted boundaries; everything
//! the renderer decides (allocation, packing, grouping, deduplication,
//! traversal, validation) is verified.

pub mod animation;
pub mod arena;
pub mod atlas;
pub mod bytes;
pub mod draw_calls;
pub mod fbits;
pub mod font;
pub mod gltf;
pub mod gpu;
pub mod json;
pub mod loader;
pub mod mat;
