//! A mosaic of alternating triangles that tiles a viewport, and the
//! per-frame animation of the shapes that were kept.
//!
//! Every quantity is a fixed-point integer (see [`cfg::UNIT`]), so that each
//! function has an exact contract over the integers.

pub mod animation;
pub mod cfg;
pub mod color;
pub mod isqrt;
pub mod mosaic;
pub mod triangle;
pub mod visibility;
