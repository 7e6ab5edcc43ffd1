//! The triangle: the unit of geometry and of rendering state.

use vstd::prelude::*;
use crate::cfg::TRIANGLE_RADIUS;
use crate::color::Color;
use crate::isqrt::{floor_sqrt, isqrt};

verus! {

/// Which way a triangle points. The tiling alternates between the two.
#[derive(Clone, Copy, Debug, PartialEq, Eq)]
pub enum Orientation {
    /// Apex up: a rotation of 0.
    Upright,
    /// Apex down: a rotation of half a turn.
    Inverted,
}

impl Orientation {
    /// The opposite orientation.
    pub open spec fn spec_flipped(self) -> Orientation {
        match self {
            Orientation::Upright => Orientation::Inverted,
            Orientation::Inverted => Orientation::Upright,
        }
    }

    /// The opposite orientation.
    #[verifier::when_used_as_spec(spec_flipped)]
    pub fn flipped(self) -> (o: Orientation)
        ensures
            o == self.spec_flipped(),
    {
        match self {
            Orientation::Upright => Orientation::Inverted,
            Orientation::Inverted => Orientation::Upright,
        }
    }

    /// The rotation in whole degrees: 0 or 180.
    pub open spec fn spec_degrees(self) -> u16 {
        match self {
            Orientation::Upright => 0u16,
            Orientation::Inverted => 180u16,
        }
    }

    /// The rotation in whole degrees: 0 or 180.
    #[verifier::when_used_as_spec(spec_degrees)]
    pub fn degrees(self) -> (d: u16)
        ensures
            d == self.spec_degrees(),
    {
        match self {
            Orientation::Upright => 0,
            Orientation::Inverted => 180,
        }
    }
}

/// A triangle as the contracts see it: coordinates and radius are unbounded
/// integers.
pub struct TriangleModel {
    pub x: int,
    pub y: int,
    pub z: int,
    pub angle: Orientation,
    pub radius: int,
    pub stroke: Color,
    pub fill: Color,
}

/// A regular triangle, given by its centre, orientation and circumradius,
/// with the colours it is drawn in. `z` is a paint-order hint.
#[derive(Clone, Copy, Debug, PartialEq, Eq)]
pub struct Triangle {
    pub x: i64,
    pub y: i64,
    pub z: i64,
    pub angle: Orientation,
    pub radius: i32,
    pub stroke: Color,
    pub fill: Color,
}

impl View for Triangle {
    type V = TriangleModel;

    open spec fn view(&self) -> TriangleModel {
        TriangleModel {
            x: self.x as int,
            y: self.y as int,
            z: self.z as int,
            angle: self.angle,
            radius: self.radius as int,
            stroke: self.stroke,
            fill: self.fill,
        }
    }
}

/// The views of a sequence of triangles, in order.
pub open spec fn models(triangles: Seq<Triangle>) -> Seq<TriangleModel> {
    triangles.map_values(|t: Triangle| t@)
}

/// The side of a regular triangle of circumradius `radius`: the radius times
/// the square root of three, rounded towards zero.
pub open spec fn side_of(radius: int) -> int {
    if radius >= 0 {
        floor_sqrt(3 * radius * radius)
    } else {
        -floor_sqrt(3 * radius * radius)
    }
}

/// The seed of every mosaic: upright at the origin, without colour.
pub open spec fn seed(radius: int) -> TriangleModel {
    TriangleModel {
        x: 0,
        y: 0,
        z: 0,
        angle: Orientation::Upright,
        radius,
        stroke: Color::none(),
        fill: Color::none(),
    }
}

/// `t` mirrored on the x axis, turned upside down and moved by `(dx, dy)`.
pub open spec fn shift_one(t: TriangleModel, dx: int, dy: int) -> TriangleModel {
    TriangleModel { x: t.x + dx, y: -t.y + dy, angle: t.angle.flipped(), ..t }
}

/// The centre of `shift_one(t, dx, dy)` can be held in a `Triangle`.
pub open spec fn shift_fits(t: TriangleModel, dx: int, dy: int) -> bool {
    &&& i64::MIN <= t.x + dx <= i64::MAX
    &&& i64::MIN <= -t.y + dy <= i64::MAX
}

impl Default for Triangle {
    /// The seed with the configured radius.
    fn default() -> (t: Triangle)
        ensures
            t@ == seed(TRIANGLE_RADIUS as int),
    {
        Triangle {
            x: 0,
            y: 0,
            z: 0,
            radius: TRIANGLE_RADIUS,
            angle: Orientation::Upright,
            stroke: Color::none(),
            fill: Color::none(),
        }
    }
}

impl Triangle {
    /// The x coordinate of the centre.
    pub fn x(&self) -> (x: i64)
        ensures
            x == self@.x,
    {
        self.x
    }

    /// The y coordinate of the centre.
    pub fn y(&self) -> (y: i64)
        ensures
            y == self@.y,
    {
        self.y
    }

    /// The circumradius.
    pub fn radius(&self) -> (radius: i32)
        ensures
            radius == self@.radius,
    {
        self.radius
    }

    /// The length of a side: the radius times the square root of three,
    /// rounded towards zero.
    pub fn side(&self) -> (side: i64)
        ensures
            side == side_of(self@.radius),
            self@.radius >= 0 ==> 0 <= side <= 2 * self@.radius,
    {
        let r: u64 = if self.radius >= 0 {
            self.radius as u64
        } else {
            (-(self.radius as i64)) as u64
        };
        assert(3 * r * r <= 3 * 0x8000_0000 * 0x8000_0000) by (nonlinear_arith)
            requires
                0 <= r <= 0x8000_0000,
        ;
        assert(3 * r * r == 3 * self@.radius * self@.radius) by (nonlinear_arith)
            requires
                r == self@.radius || r == -self@.radius,
        ;
        let s: u64 = isqrt(3 * r * r);
        assert(s <= 2 * r) by (nonlinear_arith)
            requires
                0 <= s,
                0 <= r,
                s * s <= 3 * r * r,
        ;
        if self.radius >= 0 {
            s as i64
        } else {
            -(s as i64)
        }
    }

    /// Moves the centre to the given x coordinate.
    pub fn set_x(self, x: i64) -> (t: Triangle)
        ensures
            t@ == (TriangleModel { x: x as int, ..self@ }),
    {
        Triangle { x, ..self }
    }

    /// Moves the centre to the given y coordinate.
    pub fn set_y(self, y: i64) -> (t: Triangle)
        ensures
            t@ == (TriangleModel { y: y as int, ..self@ }),
    {
        Triangle { y, ..self }
    }

    /// Sets the paint-order hint.
    pub fn set_z(self, z: i64) -> (t: Triangle)
        ensures
            t@ == (TriangleModel { z: z as int, ..self@ }),
    {
        Triangle { z, ..self }
    }

    /// Sets the circumradius.
    pub fn set_radius(self, radius: i32) -> (t: Triangle)
        ensures
            t@ == (TriangleModel { radius: radius as int, ..self@ }),
    {
        Triangle { radius, ..self }
    }

    /// Sets the orientation.
    pub fn set_angle(self, angle: Orientation) -> (t: Triangle)
        ensures
            t@ == (TriangleModel { angle, ..self@ }),
    {
        Triangle { angle, ..self }
    }

    /// Sets the colour of the outline.
    pub fn set_stroke(self, stroke: Color) -> (t: Triangle)
        ensures
            t@ == (TriangleModel { stroke, ..self@ }),
    {
        Triangle { stroke, ..self }
    }

    /// Sets the colour of the inside.
    pub fn set_fill(self, fill: Color) -> (t: Triangle)
        ensures
            t@ == (TriangleModel { fill, ..self@ }),
    {
        Triangle { fill, ..self }
    }

    /// The triangle mirrored on the x axis, turned upside down and moved by
    /// `(dx, dy)`.
    pub fn shifted(&self, dx: i64, dy: i64) -> (t: Triangle)
        requires
            shift_fits(self@, dx as int, dy as int),
        ensures
            t@ == shift_one(self@, dx as int, dy as int),
    {
        Triangle { x: self.x + dx, y: dy - self.y, angle: self.angle.flipped(), ..*self }
    }
}

/// A shifted triangle points the opposite way of the one it was made from:
/// its rotation is 0 or half a turn, and is half a turn minus the rotation
/// of its source.
pub proof fn lemma_shift_alternates(t: TriangleModel, dx: int, dy: int)
    ensures
        shift_one(t, dx, dy).angle != t.angle,
        shift_one(t, dx, dy).angle.degrees() == 0 || shift_one(t, dx, dy).angle.degrees() == 180,
        shift_one(t, dx, dy).angle.degrees() == (180 - t.angle.degrees()) % 360,
        shift_one(shift_one(t, dx, dy), dx, dy).angle == t.angle,
{
}

} // verus!
