//! Soft-edged 2D glow primitives: point nodes, straight edges and quadratic
//! curve strokes, each expanded into a small covering polygon and colored by a
//! distance-based falloff shading model.
//!
//! All geometry and color arithmetic is carried out in fixed-point integers
//! (scale `fixed::ONE`), so every stage is an exact, pure function of its
//! inputs.

pub mod color;
pub mod edge;
pub mod fixed;
pub mod node;
pub mod pipeline;
pub mod qbezier;
pub mod shading;
pub mod vec2;
pub mod vertex;

pub use fixed::ONE;
