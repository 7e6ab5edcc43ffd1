//! Compile-time configuration of the mosaic.
//!
//! Lengths are held in thousandths of a pixel, factors (gap, scale, colour
//! channels) in thousandths, times in thousandths of a second and hues in
//! thousandths of a degree.

use vstd::prelude::*;

verus! {

/// Number of fixed-point steps in one whole.
pub const UNIT: i64 = 1000;

/// Width of the window the configuration is laid out for.
pub const WIDTH: i32 = 1_920_000;

/// Height of the window the configuration is laid out for.
pub const HEIGHT: i32 = 1_080_000;

/// Number of sides of every shape of the mosaic.
pub const POLYGON_SIDES: usize = 3;

/// Scale, on both axes, that a shape starts with.
pub const TRIANGLE_SCALE: i64 = 0;

/// Circumradius of every triangle: the 250th part of the configured
/// window's width and height together.
pub const TRIANGLE_RADIUS: i32 = 12_000;

/// Horizontal spacing factor between neighbours; `UNIT` is edge to edge.
pub const GAP_X: i32 = 1100;

/// Vertical spacing factor between neighbours; `UNIT` is edge to edge.
pub const GAP_Y: i32 = 1100;

/// Largest number of rings one generation pass may run. A pass of `k` rings
/// holds `4^k` triangles, so this caps a mosaic at 1 048 576 triangles.
pub const MAX_RINGS: u32 = 10;

/// Degrees per second by which the stroke hue turns.
pub const HUE_RATE: u32 = 20;

/// Length of the hue circle: 360 degrees.
pub const HUE_RANGE: u32 = 360_000;

/// Saturation of an animated stroke: one whole.
pub const STROKE_SATURATION: u32 = 1000;

/// Lightness of an animated stroke: one half.
pub const STROKE_LIGHTNESS: u32 = 500;

/// Opacity of an animated stroke: one whole.
pub const STROKE_ALPHA: u32 = 1000;

/// The configured radius follows from the configured window.
pub proof fn lemma_triangle_radius()
    ensures
        TRIANGLE_RADIUS == (WIDTH + HEIGHT) / 250,
{
}

} // verus!
