//! The shapes that were made of the visible triangles, and the step that
//! animates them once per frame.

use vstd::prelude::*;
use vstd::arithmetic::div_mod::{
    lemma_add_mod_noop_right, lemma_mod_add_multiples_vanish, lemma_mod_self_0, lemma_small_mod,
};
use crate::cfg::{GAP_X, GAP_Y, TRIANGLE_RADIUS, TRIANGLE_SCALE, UNIT};
use crate::mosaic::{ConfigError, MosaicConfig, Size, Triangles};
use crate::triangle::{models, Triangle, TriangleModel};
use crate::visibility::{filter, visible_part};

verus! {

/// A shape as the contracts see it.
pub struct ShapeModel {
    pub triangle: TriangleModel,
    pub scale_x: int,
    pub scale_y: int,
}

/// A triangle that was visible when the mosaic was made, with the scale it
/// is drawn at, in thousandths. Position, orientation and radius stay as
/// they were made; scale and stroke are animated.
#[derive(Clone, Copy, Debug, PartialEq, Eq)]
pub struct Shape {
    pub triangle: Triangle,
    pub scale_x: i64,
    pub scale_y: i64,
}

impl View for Shape {
    type V = ShapeModel;

    open spec fn view(&self) -> ShapeModel {
        ShapeModel {
            triangle: self.triangle@,
            scale_x: self.scale_x as int,
            scale_y: self.scale_y as int,
        }
    }
}

/// The cursor: the place of one shape among those that were made.
#[derive(Clone, Copy, Debug, PartialEq, Eq)]
pub struct Index(pub usize);

/// One step of easing: as long as the scale is at most one whole on both
/// axes, both grow by `delta`; after that the scale stays.
pub open spec fn eased(scale: (int, int), delta: int) -> (int, int) {
    if scale.0 <= UNIT && scale.1 <= UNIT {
        (scale.0 + delta, scale.1 + delta)
    } else {
        scale
    }
}

/// `steps` steps of easing, each by `delta`.
pub open spec fn eased_n(scale: (int, int), delta: int, steps: nat) -> (int, int)
    decreases steps,
{
    if steps == 0 {
        scale
    } else {
        eased(eased_n(scale, delta, (steps - 1) as nat), delta)
    }
}

/// The shape after one frame that took `delta` thousandths of a second: the
/// scale eased, the stroke turned along the hue circle.
pub open spec fn animate_one(shape: ShapeModel, delta: u32) -> ShapeModel {
    ShapeModel {
        triangle: TriangleModel { stroke: shape.triangle.stroke.rotated(delta), ..shape.triangle },
        scale_x: eased((shape.scale_x, shape.scale_y), delta as int).0,
        scale_y: eased((shape.scale_x, shape.scale_y), delta as int).1,
    }
}

/// Every shape after one frame.
pub open spec fn animate_all(shapes: Seq<ShapeModel>, delta: u32) -> Seq<ShapeModel> {
    shapes.map_values(|s: ShapeModel| animate_one(s, delta))
}

/// The shapes made of `triangles`: one each, in order, at the starting scale.
pub open spec fn fresh_shapes(triangles: Seq<TriangleModel>) -> Seq<ShapeModel> {
    triangles.map_values(
        |t: TriangleModel|
            ShapeModel { triangle: t, scale_x: TRIANGLE_SCALE as int, scale_y: TRIANGLE_SCALE as int },
    )
}

/// The cursor after one frame, among `count` shapes: the next place, or the
/// first after the last. A cursor that points at no shape stays.
pub open spec fn next_index(index: int, count: int) -> int {
    if 0 <= index < count {
        if index + 1 >= count {
            0
        } else {
            index + 1
        }
    } else {
        index
    }
}

/// The cursor after `steps` frames.
pub open spec fn next_index_n(index: int, count: int, steps: nat) -> int
    decreases steps,
{
    if steps == 0 {
        index
    } else {
        next_index(next_index_n(index, count, (steps - 1) as nat), count)
    }
}

impl Shape {
    /// The shape of a triangle that was just made: at the starting scale.
    pub fn new(triangle: Triangle) -> (shape: Shape)
        ensures
            shape@ == (ShapeModel {
                triangle: triangle@,
                scale_x: TRIANGLE_SCALE as int,
                scale_y: TRIANGLE_SCALE as int,
            }),
    {
        Shape { triangle, scale_x: TRIANGLE_SCALE, scale_y: TRIANGLE_SCALE }
    }

    /// One step of easing: as long as the scale is at most one whole on both
    /// axes, both grow by `delta`.
    pub fn ease(self, delta: u32) -> (shape: Shape)
        ensures
            shape@.triangle == self@.triangle,
            (shape@.scale_x, shape@.scale_y) == eased((self@.scale_x, self@.scale_y), delta as int),
    {
        if self.scale_x <= UNIT && self.scale_y <= UNIT {
            Shape {
                triangle: self.triangle,
                scale_x: self.scale_x + delta as i64,
                scale_y: self.scale_y + delta as i64,
            }
        } else {
            self
        }
    }

    /// The shape after one frame that took `delta` thousandths of a second.
    pub fn animated(self, delta: u32) -> (shape: Shape)
        ensures
            shape@ == animate_one(self@, delta),
    {
        let eased = self.ease(delta);
        Shape {
            triangle: eased.triangle.set_stroke(eased.triangle.stroke.rotated(delta)),
            scale_x: eased.scale_x,
            scale_y: eased.scale_y,
        }
    }
}

impl Index {
    /// The cursor after one frame, among `count` shapes.
    pub fn advance(self, count: usize) -> (next: Index)
        ensures
            next.0 == next_index(self.0 as int, count as int),
    {
        if self.0 < count {
            if self.0 + 1 >= count {
                Index(0)
            } else {
                Index(self.0 + 1)
            }
        } else {
            self
        }
    }
}

/// The state of the animation as the contracts see it.
pub struct AnimationModel {
    pub shapes: Seq<ShapeModel>,
    pub index: Option<int>,
}

/// The state after one frame that took `delta` thousandths of a second.
///
/// The first frame only makes the cursor, at the first place. Every later
/// frame animates every shape and moves the cursor on by one place.
pub open spec fn animation_step(state: AnimationModel, delta: u32) -> AnimationModel {
    match state.index {
        None => AnimationModel { shapes: state.shapes, index: Some(0) },
        Some(index) => AnimationModel {
            shapes: animate_all(state.shapes, delta),
            index: Some(next_index(index, state.shapes.len() as int)),
        },
    }
}

/// The configuration that the mosaic of a viewport is generated from: the
/// configured radius and gaps.
pub open spec fn configured(size: Size) -> MosaicConfig {
    MosaicConfig {
        width: size.0 as int,
        height: size.1 as int,
        radius: TRIANGLE_RADIUS as int,
        gap_x: GAP_X as int,
        gap_y: GAP_Y as int,
    }
}

/// The shapes of the mosaic and the cursor that runs over them.
#[derive(Debug, PartialEq, Eq)]
pub struct TrianglesPlugin {
    pub shapes: Vec<Shape>,
    pub index: Option<Index>,
}

impl View for TrianglesPlugin {
    type V = AnimationModel;

    open spec fn view(&self) -> AnimationModel {
        AnimationModel {
            shapes: self.shapes@.map_values(|s: Shape| s@),
            index: match self.index {
                Some(index) => Some(index.0 as int),
                None => None,
            },
        }
    }
}

impl TrianglesPlugin {
    /// Makes the shapes for a viewport: builds the mosaic with the
    /// configured radius and gaps, keeps the triangles that are visible, and
    /// makes a shape of each, at the starting scale. There is no cursor yet.
    ///
    /// Fails when the mosaic would take more than `MAX_RINGS` rings.
    pub fn generate(size: Size) -> (r: Result<TrianglesPlugin, ConfigError>)
        ensures
            r is Ok <==> configured(size).build_error() is None,
            r matches Ok(plugin) ==> plugin@ == (AnimationModel {
                shapes: fresh_shapes(
                    visible_part(configured(size).mosaic(), size.0 as int, size.1 as int),
                ),
                index: None,
            }),
            r matches Err(e) ==> configured(size).build_error() == Some(e),
    {
        let config = Triangles::default().set_width(size.0).set_height(size.1).set_triangle_radius(
            TRIANGLE_RADIUS,
        ).set_gap_x(GAP_X).set_gap_y(GAP_Y);
        let triangles = match config.build() {
            Err(e) => {
                return Err(e);
            },
            Ok(triangles) => triangles,
        };
        let visible = filter(&triangles, size);
        let mut shapes: Vec<Shape> = Vec::new();
        let mut i: usize = 0;
        while i < visible.len()
            invariant
                i <= visible.len(),
                shapes.len() == i,
                forall|j: int| 0 <= j < i ==> (#[trigger] shapes[j])@ == (ShapeModel {
                    triangle: visible[j]@,
                    scale_x: TRIANGLE_SCALE as int,
                    scale_y: TRIANGLE_SCALE as int,
                }),
            decreases visible.len() - i,
        {
            shapes.push(Shape::new(visible[i]));
            i = i + 1;
        }
        let plugin = TrianglesPlugin { shapes, index: None };
        assert(plugin@.shapes =~= fresh_shapes(models(visible@)));
        Ok(plugin)
    }

    /// One frame that took `delta` thousandths of a second.
    ///
    /// The first frame only makes the cursor, at the first place. Every later
    /// frame eases the scale and turns the stroke of every shape, and moves
    /// the cursor on by one place, back to the first after the last. Without
    /// shapes the cursor stays where it is.
    pub fn animation(&mut self, delta: u32)
        ensures
            final(self)@ == animation_step(old(self)@, delta),
            final(self).shapes.len() == old(self).shapes.len(),
    {
        match self.index {
            None => {
                self.index = Some(Index(0));
            },
            Some(index) => {
                let count: usize = self.shapes.len();
                let ghost before = self.shapes@;
                let mut i: usize = 0;
                while i < count
                    invariant
                        i <= count,
                        count == before.len(),
                        self.shapes.len() == count,
                        self.index == Some(index),
                        forall|j: int|
                            0 <= j < i ==> (#[trigger] self.shapes[j])@ == animate_one(
                                before[j]@,
                                delta,
                            ),
                        forall|j: int| i <= j < count ==> #[trigger] self.shapes[j] == before[j],
                    decreases count - i,
                {
                    let shape = self.shapes[i];
                    self.shapes.set(i, shape.animated(delta));
                    i = i + 1;
                }
                self.index = Some(index.advance(count));
                assert(self@.shapes =~= animate_all(old(self)@.shapes, delta));
            },
        }
    }
}

/// A frame neither makes nor drops a shape, and moves, turns or resizes no
/// triangle: only scale and stroke change.
pub proof fn lemma_animation_keeps_geometry(state: AnimationModel, delta: u32, i: int)
    requires
        0 <= i < state.shapes.len(),
    ensures
        animation_step(state, delta).shapes.len() == state.shapes.len(),
        animation_step(state, delta).shapes[i].triangle == (TriangleModel {
            stroke: animation_step(state, delta).shapes[i].triangle.stroke,
            ..state.shapes[i].triangle
        }),
{
}

/// Easing never makes a scale smaller.
pub proof fn lemma_eased_never_decreases(scale: (int, int), delta: int)
    requires
        0 <= delta,
    ensures
        eased(scale, delta).0 >= scale.0,
        eased(scale, delta).1 >= scale.1,
{
}

/// From nothing, easing grows the scale by `delta` a step for as long as the
/// step before left it at one whole or less.
pub proof fn lemma_eased_n_from_zero(delta: int, steps: nat)
    requires
        0 <= delta,
        steps > 0 ==> (steps - 1) * delta <= UNIT,
    ensures
        eased_n((0, 0), delta, steps) == (steps * delta, steps * delta),
    decreases steps,
{
    if steps > 0 {
        let before = (steps - 1) as nat;
        if before > 0 {
            assert((before - 1) * delta <= before * delta) by (nonlinear_arith)
                requires
                    0 <= delta,
            ;
        }
        lemma_eased_n_from_zero(delta, before);
        assert(before * delta + delta == steps * delta) by (nonlinear_arith)
            requires
                before + 1 == steps,
        ;
    }
}

/// With a step that divides one whole, as many steps as go into one whole
/// bring the scale from nothing to exactly one whole.
pub proof fn lemma_eased_reaches_one(delta: int, steps: nat)
    requires
        0 < delta,
        steps * delta == UNIT,
    ensures
        eased_n((0, 0), delta, steps) == (UNIT as int, UNIT as int),
{
    if steps > 0 {
        assert((steps - 1) * delta <= steps * delta) by (nonlinear_arith)
            requires
                0 < delta,
        ;
    }
    lemma_eased_n_from_zero(delta, steps);
}

/// A cursor that points at a shape still does after a frame.
pub proof fn lemma_next_index_in_range(index: int, count: int)
    requires
        0 <= index < count,
    ensures
        0 <= next_index(index, count) < count,
        next_index(index, count) == (index + 1) % count,
{
    if index + 1 < count {
        lemma_small_mod((index + 1) as nat, count as nat);
    } else {
        lemma_mod_self_0(count);
    }
}

/// After `steps` frames the cursor is `steps` places on, around the ring of
/// shapes.
pub proof fn lemma_next_index_n(index: int, count: int, steps: nat)
    requires
        0 <= index < count,
    ensures
        next_index_n(index, count, steps) == (index + steps) % count,
    decreases steps,
{
    if steps == 0 {
        lemma_small_mod(index as nat, count as nat);
    } else {
        let before = (steps - 1) as nat;
        lemma_next_index_n(index, count, before);
        let at = (index + before) % count;
        lemma_next_index_in_range(at, count);
        lemma_add_mod_noop_right(1, index + before, count);
    }
}

/// After as many frames as there are shapes, the cursor is back where it
/// started.
pub proof fn lemma_cursor_wraps(index: int, count: int)
    requires
        0 <= index < count,
    ensures
        next_index_n(index, count, count as nat) == index,
{
    lemma_next_index_n(index, count, count as nat);
    lemma_mod_add_multiples_vanish(index, count);
    lemma_small_mod(index as nat, count as nat);
}

} // verus!
