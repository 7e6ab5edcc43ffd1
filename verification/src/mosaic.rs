//! The mosaic: one seed triangle, expanded ring by ring until the rings
//! reach past the viewport.

use vstd::prelude::*;
use vstd::arithmetic::power::pow;
use vstd::arithmetic::power2::{lemma2_to64, lemma_pow2_strictly_increases, lemma_pow2_unfold, pow2};
use crate::cfg::{MAX_RINGS, UNIT};
use crate::triangle::{models, seed, shift_fits, shift_one, side_of, Triangle, TriangleModel};

verus! {

/// Width and height of the viewport, in the unit of the coordinates.
#[derive(Clone, Copy, Debug, PartialEq, Eq)]
pub struct Size(pub u32, pub u32);

/// A point or an offset in the plane.
#[derive(Clone, Copy, Debug, PartialEq, Eq)]
pub struct Position(pub i64, pub i64);

/// Horizontal and vertical spacing factors, in thousandths: `UNIT` tiles
/// edge to edge, more leaves a visible gap.
#[derive(Clone, Copy, Debug, PartialEq, Eq)]
pub struct Gap(pub i32, pub i32);

/// Why a configuration is refused.
#[derive(Clone, Copy, Debug, PartialEq, Eq)]
pub enum ConfigError {
    /// A gap factor is zero or negative: the rings would not grow outwards.
    NonPositiveGap,
    /// The radius of the triangles is negative.
    NegativeRadius,
    /// The mosaic would take more than `MAX_RINGS` rings.
    TooManyRings,
}

impl Default for Size {
    fn default() -> (s: Size)
        ensures
            s == Size(0, 0),
    {
        Size(0, 0)
    }
}

impl Default for Position {
    fn default() -> (p: Position)
        ensures
            p == Position(0, 0),
    {
        Position(0, 0)
    }
}

impl Default for Gap {
    fn default() -> (g: Gap)
        ensures
            g == Gap(0, 0),
    {
        Gap(0, 0)
    }
}

impl View for Position {
    type V = (int, int);

    open spec fn view(&self) -> (int, int) {
        (self.0 as int, self.1 as int)
    }
}

/// The three offsets by which one ring copies what the rings before it made.
pub struct DeviationModel {
    pub a: (int, int),
    pub b: (int, int),
    pub c: (int, int),
}

impl DeviationModel {
    /// The offsets of the next ring: twice as far out, on the other side of
    /// the x axis.
    pub open spec fn doubled(self) -> DeviationModel {
        DeviationModel {
            a: (2 * self.a.0, -2 * self.a.1),
            b: (2 * self.b.0, -2 * self.b.1),
            c: (self.c.0, -2 * self.c.1),
        }
    }

    /// The offsets after `rings` rings.
    pub open spec fn after(self, rings: nat) -> DeviationModel
        decreases rings,
    {
        if rings == 0 {
            self
        } else {
            self.after((rings - 1) as nat).doubled()
        }
    }

    /// The ring with these offsets is still to be made for a viewport of the
    /// given size.
    pub open spec fn within(self, width: int, height: int) -> bool {
        &&& self.a.0 <= width
        &&& self.a.1 <= height
        &&& self.b.0 <= 0
        &&& self.b.1 <= height
        &&& self.c.1 <= height
    }

    /// No component is further from zero than `limit`.
    pub open spec fn bounded(self, limit: int) -> bool {
        &&& -limit <= self.a.0 <= limit
        &&& -limit <= self.a.1 <= limit
        &&& -limit <= self.b.0 <= limit
        &&& -limit <= self.b.1 <= limit
        &&& -limit <= self.c.0 <= limit
        &&& -limit <= self.c.1 <= limit
    }
}

/// The three offsets of a ring, as held at run time.
#[derive(Clone, Copy, Debug, PartialEq, Eq)]
pub struct Deviation {
    pub a: Position,
    pub b: Position,
    pub c: Position,
}

impl View for Deviation {
    type V = DeviationModel;

    open spec fn view(&self) -> DeviationModel {
        DeviationModel { a: self.a@, b: self.b@, c: self.c@ }
    }
}

/// The offsets of the first ring, from the side and radius of the seed and
/// the gap factors.
pub open spec fn first_deviation(side: int, radius: int, gap_x: int, gap_y: int) -> DeviationModel {
    DeviationModel {
        a: (side * gap_x / (2 * UNIT), radius * gap_y / (2 * UNIT)),
        b: (-(side * gap_x / (2 * UNIT)), radius * gap_y / (2 * UNIT)),
        c: (0, -(radius * gap_y / (UNIT as int))),
    }
}

/// The number of rings made from offsets `d` on: rings are made as long as
/// the offsets are within the viewport, and at most `cap` of them.
pub open spec fn ring_count(d: DeviationModel, width: int, height: int, cap: nat) -> nat
    decreases cap,
{
    if cap == 0 || !d.within(width, height) {
        0
    } else {
        1 + ring_count(d.doubled(), width, height, (cap - 1) as nat)
    }
}

/// Every triangle of `triangles`, shifted by `(dx, dy)`.
pub open spec fn shift_all(triangles: Seq<TriangleModel>, dx: int, dy: int) -> Seq<TriangleModel> {
    triangles.map_values(|t: TriangleModel| shift_one(t, dx, dy))
}

/// Every triangle of `triangles` can be shifted by `(dx, dy)` without leaving
/// the range of the coordinates.
pub open spec fn all_shift_fit(triangles: Seq<TriangleModel>, dx: int, dy: int) -> bool {
    forall|i: int| 0 <= i < triangles.len() ==> shift_fits(#[trigger] triangles[i], dx, dy)
}

/// One ring: what there was, followed by its three shifted copies.
pub open spec fn expand_once(triangles: Seq<TriangleModel>, d: DeviationModel) -> Seq<TriangleModel> {
    triangles + shift_all(triangles, d.a.0, d.a.1) + shift_all(triangles, d.b.0, d.b.1)
        + shift_all(triangles, d.c.0, d.c.1)
}

/// The mosaic after `rings` rings, started from `first` with offsets `d`.
pub open spec fn expand(first: TriangleModel, d: DeviationModel, rings: nat) -> Seq<TriangleModel>
    decreases rings,
{
    if rings == 0 {
        seq![first]
    } else {
        expand_once(expand(first, d, (rings - 1) as nat), d.after((rings - 1) as nat))
    }
}

/// What a generation pass is made from.
pub struct MosaicConfig {
    pub width: int,
    pub height: int,
    pub radius: int,
    pub gap_x: int,
    pub gap_y: int,
}

impl MosaicConfig {
    /// The fault in the values themselves, if there is one.
    pub open spec fn error(self) -> Option<ConfigError> {
        if self.gap_x <= 0 || self.gap_y <= 0 {
            Some(ConfigError::NonPositiveGap)
        } else if self.radius < 0 {
            Some(ConfigError::NegativeRadius)
        } else {
            None
        }
    }

    /// The offsets of the first ring.
    pub open spec fn deviation(self) -> DeviationModel {
        first_deviation(side_of(self.radius), self.radius, self.gap_x, self.gap_y)
    }

    /// The number of rings the mosaic takes, counted up to one past
    /// `MAX_RINGS`.
    pub open spec fn rings(self) -> nat {
        ring_count(self.deviation(), self.width, self.height, (MAX_RINGS + 1) as nat)
    }

    /// Why no mosaic is made of this configuration, if none is.
    pub open spec fn build_error(self) -> Option<ConfigError> {
        if self.error() is Some {
            self.error()
        } else if self.rings() > MAX_RINGS {
            Some(ConfigError::TooManyRings)
        } else {
            None
        }
    }

    /// The mosaic of this configuration.
    pub open spec fn mosaic(self) -> Seq<TriangleModel> {
        expand(seed(self.radius), self.deviation(), self.rings())
    }
}

/// The mosaic starts with the triangle it was started from.
pub proof fn lemma_expand_starts_with_first(first: TriangleModel, d: DeviationModel, rings: nat)
    ensures
        expand(first, d, rings).len() > 0,
        expand(first, d, rings)[0] == first,
    decreases rings,
{
    if rings > 0 {
        lemma_expand_starts_with_first(first, d, (rings - 1) as nat);
    }
}

/// Each ring makes the mosaic four times as long: after `rings` rings it
/// holds `4^rings` triangles.
pub proof fn lemma_expand_len(first: TriangleModel, d: DeviationModel, rings: nat)
    ensures
        expand(first, d, rings).len() == pow(4, rings),
    decreases rings,
{
    reveal(pow);
    if rings > 0 {
        lemma_expand_len(first, d, (rings - 1) as nat);
    }
}

/// A ring keeps what there was, in place, and adds three copies of it, each
/// copy shifted by one of the ring's offsets.
pub proof fn lemma_expand_once_index(triangles: Seq<TriangleModel>, d: DeviationModel, i: int)
    requires
        0 <= i < triangles.len(),
    ensures
        expand_once(triangles, d).len() == 4 * triangles.len(),
        expand_once(triangles, d)[i] == triangles[i],
        expand_once(triangles, d)[triangles.len() + i] == shift_one(triangles[i], d.a.0, d.a.1),
        expand_once(triangles, d)[2 * triangles.len() + i] == shift_one(triangles[i], d.b.0, d.b.1),
        expand_once(triangles, d)[3 * triangles.len() + i] == shift_one(triangles[i], d.c.0, d.c.1),
{
}

/// Every triangle of a mosaic has the radius, the paint order and the
/// colours of the one it was started from, and points up or down.
pub proof fn lemma_expand_keeps_style(first: TriangleModel, d: DeviationModel, rings: nat, i: int)
    requires
        0 <= i < expand(first, d, rings).len(),
    ensures
        expand(first, d, rings)[i].radius == first.radius,
        expand(first, d, rings)[i].z == first.z,
        expand(first, d, rings)[i].stroke == first.stroke,
        expand(first, d, rings)[i].fill == first.fill,
        expand(first, d, rings)[i].angle == first.angle || expand(first, d, rings)[i].angle
            == first.angle.flipped(),
    decreases rings,
{
    if rings > 0 {
        let before = expand(first, d, (rings - 1) as nat);
        let n = before.len() as int;
        let j = if i < n {
            i
        } else if i < 2 * n {
            i - n
        } else if i < 3 * n {
            i - 2 * n
        } else {
            i - 3 * n
        };
        lemma_expand_keeps_style(first, d, (rings - 1) as nat, j);
        lemma_expand_once_index(before, d.after((rings - 1) as nat), j);
    }
}

/// Doubling the offsets and then running `rings` rings gives what running
/// `rings` rings and then doubling gives.
pub proof fn lemma_after_doubled(d: DeviationModel, rings: nat)
    ensures
        d.doubled().after(rings) == d.after(rings).doubled(),
    decreases rings,
{
    if rings > 0 {
        lemma_after_doubled(d, (rings - 1) as nat);
    }
}

/// The offset to the right doubles with every ring.
pub proof fn lemma_after_reaches_right(d: DeviationModel, rings: nat)
    ensures
        d.after(rings).a.0 == pow2(rings) * d.a.0,
    decreases rings,
{
    if rings == 0 {
        lemma2_to64();
    } else {
        let before = (rings - 1) as nat;
        lemma_after_reaches_right(d, before);
        lemma_pow2_unfold(rings);
        assert(2 * (pow2(before) * d.a.0) == (2 * pow2(before)) * d.a.0) by (nonlinear_arith);
    }
}

/// No ring is made after the first ring whose offsets are not within the
/// viewport.
pub proof fn lemma_ring_count_stops(
    d: DeviationModel,
    width: int,
    height: int,
    cap: nat,
    rings: nat,
)
    requires
        !d.after(rings).within(width, height),
    ensures
        ring_count(d, width, height, cap) <= rings,
    decreases rings,
{
    if cap > 0 && d.within(width, height) {
        lemma_after_doubled(d, (rings - 1) as nat);
        lemma_ring_count_stops(d.doubled(), width, height, (cap - 1) as nat, (rings - 1) as nat);
    }
}

/// Generation ends by itself: when the first offset to the right is
/// positive, there are no more rings than it takes to double one step past
/// the width of the viewport, whatever the cap.
pub proof fn lemma_rings_end(d: DeviationModel, width: int, height: int, cap: nat, rings: nat)
    requires
        d.a.0 > 0,
        pow2(rings) > width,
    ensures
        ring_count(d, width, height, cap) <= rings,
{
    lemma_after_reaches_right(d, rings);
    assert(pow2(rings) * d.a.0 >= pow2(rings)) by (nonlinear_arith)
        requires
            d.a.0 >= 1,
            pow2(rings) >= 0,
    ;
    lemma_ring_count_stops(d, width, height, cap, rings);
}

/// The furthest from zero that a component of the first ring's offsets
/// can be, whatever the configuration: the largest side times the largest
/// gap, halved.
pub const DEVIATION_LIMIT: i64 = 4_611_686_018_427_388;

/// The furthest from zero that an offset can be after `rings` rings.
pub open spec fn deviation_limit(rings: nat) -> int {
    4_611_686_018_427_388 * (pow2(rings) as int)
}

/// The furthest from the origin, on either axis, that a centre can be after
/// `rings` rings.
pub open spec fn reach(rings: nat) -> int {
    4_611_686_018_427_388 * (pow2(rings) - 1)
}

/// Offsets double with every ring, and no faster.
pub proof fn lemma_after_bounded(d: DeviationModel, rings: nat)
    requires
        d.bounded(DEVIATION_LIMIT as int),
    ensures
        d.after(rings).bounded(deviation_limit(rings)),
    decreases rings,
{
    if rings == 0 {
        lemma2_to64();
    } else {
        lemma_after_bounded(d, (rings - 1) as nat);
        lemma_pow2_unfold(rings);
    }
}

/// No centre is further than `limit` from the origin on either axis.
pub open spec fn all_within(triangles: Seq<TriangleModel>, limit: int) -> bool {
    forall|i: int|
        #![trigger triangles[i]]
        0 <= i < triangles.len() ==> -limit <= triangles[i].x <= limit && -limit
            <= triangles[i].y <= limit
}

/// A mosaic that starts at the origin stays within `reach(rings)` of it.
pub proof fn lemma_expand_within(radius: int, d: DeviationModel, rings: nat)
    requires
        d.bounded(DEVIATION_LIMIT as int),
    ensures
        all_within(expand(seed(radius), d, rings), reach(rings)),
    decreases rings,
{
    if rings == 0 {
        lemma2_to64();
    } else {
        let k = (rings - 1) as nat;
        let before = expand(seed(radius), d, k);
        let step = d.after(k);
        let after = expand(seed(radius), d, rings);
        let n = before.len() as int;
        lemma_expand_within(radius, d, k);
        lemma_after_bounded(d, k);
        lemma_pow2_unfold(rings);
        assert forall|i: int| 0 <= i < after.len() implies -reach(rings) <= (#[trigger] after[i]).x
            <= reach(rings) && -reach(rings) <= after[i].y <= reach(rings) by {
            let j = if i < n {
                i
            } else if i < 2 * n {
                i - n
            } else if i < 3 * n {
                i - 2 * n
            } else {
                i - 3 * n
            };
            lemma_expand_once_index(before, step, j);
            assert(-reach(k) <= before[j].x <= reach(k));
        }
    }
}

/// The views of two sequences, one after the other, are the views of the
/// two together.
pub proof fn lemma_models_add(left: Seq<Triangle>, right: Seq<Triangle>)
    ensures
        models(left + right) == models(left) + models(right),
{
    assert(models(left + right) =~= models(left) + models(right));
}

impl Deviation {
    /// Whether the ring with these offsets is still to be made for a
    /// viewport of the given size.
    pub fn within(&self, size: Size) -> (b: bool)
        ensures
            b == self@.within(size.0 as int, size.1 as int),
    {
        self.a.0 <= size.0 as i64 && self.a.1 <= size.1 as i64 && self.b.0 <= 0 && self.b.1
            <= size.1 as i64 && self.c.1 <= size.1 as i64
    }

    /// The offsets of the next ring.
    pub fn doubled(&self) -> (d: Deviation)
        requires
            self@.bounded(i64::MAX / 2),
        ensures
            d@ == self@.doubled(),
    {
        Deviation {
            a: Position(2 * self.a.0, -(2 * self.a.1)),
            b: Position(2 * self.b.0, -(2 * self.b.1)),
            c: Position(self.c.0, -(2 * self.c.1)),
        }
    }
}

/// The configuration of a generation pass: the viewport, the seed triangle
/// and the gaps. The seed is upright at the origin and has no colour; only
/// its radius can be chosen.
#[derive(Clone, Copy, Debug, PartialEq, Eq)]
pub struct Triangles {
    size: Size,
    triangle: Triangle,
    gap: Gap,
}

impl View for Triangles {
    type V = MosaicConfig;

    closed spec fn view(&self) -> MosaicConfig {
        MosaicConfig {
            width: self.size.0 as int,
            height: self.size.1 as int,
            radius: self.triangle.radius as int,
            gap_x: self.gap.0 as int,
            gap_y: self.gap.1 as int,
        }
    }
}

impl Default for Triangles {
    /// An empty viewport, the configured radius and no gap factors yet: the
    /// gaps have to be set before a mosaic can be built.
    fn default() -> (t: Triangles)
        ensures
            t@ == (MosaicConfig {
                width: 0,
                height: 0,
                radius: crate::cfg::TRIANGLE_RADIUS as int,
                gap_x: 0,
                gap_y: 0,
            }),
    {
        Triangles { size: Size::default(), triangle: Triangle::default(), gap: Gap::default() }
    }
}

impl Triangles {
    #[verifier::type_invariant]
    spec fn seed_at_origin(self) -> bool {
        self.triangle@ == seed(self.triangle.radius as int)
    }

    /// Sets the width of the viewport.
    pub fn set_width(self, width: u32) -> (t: Triangles)
        ensures
            t@ == (MosaicConfig { width: width as int, ..self@ }),
    {
        proof {
            use_type_invariant(&self);
        }
        Triangles { size: Size(width, self.size.1), triangle: self.triangle, gap: self.gap }
    }

    /// Sets the height of the viewport.
    pub fn set_height(self, height: u32) -> (t: Triangles)
        ensures
            t@ == (MosaicConfig { height: height as int, ..self@ }),
    {
        proof {
            use_type_invariant(&self);
        }
        Triangles { size: Size(self.size.0, height), triangle: self.triangle, gap: self.gap }
    }

    /// Sets the circumradius of the seed, and so of every triangle.
    pub fn set_triangle_radius(self, radius: i32) -> (t: Triangles)
        ensures
            t@ == (MosaicConfig { radius: radius as int, ..self@ }),
    {
        proof {
            use_type_invariant(&self);
        }
        Triangles { size: self.size, triangle: self.triangle.set_radius(radius), gap: self.gap }
    }

    /// Sets the horizontal gap factor.
    pub fn set_gap_x(self, x: i32) -> (t: Triangles)
        ensures
            t@ == (MosaicConfig { gap_x: x as int, ..self@ }),
    {
        proof {
            use_type_invariant(&self);
        }
        Triangles { size: self.size, triangle: self.triangle, gap: Gap(x, self.gap.1) }
    }

    /// Sets the vertical gap factor.
    pub fn set_gap_y(self, y: i32) -> (t: Triangles)
        ensures
            t@ == (MosaicConfig { gap_y: y as int, ..self@ }),
    {
        proof {
            use_type_invariant(&self);
        }
        Triangles { size: self.size, triangle: self.triangle, gap: Gap(self.gap.0, y) }
    }

    /// The seed triangle.
    pub fn seed(&self) -> (t: Triangle)
        ensures
            t@ == seed(self@.radius),
    {
        proof {
            use_type_invariant(self);
        }
        self.triangle
    }

    /// Refuses a gap factor that is not positive and a negative radius.
    pub fn validate(&self) -> (r: Result<(), ConfigError>)
        ensures
            r is Ok <==> self@.error() is None,
            r matches Err(e) ==> self@.error() == Some(e),
    {
        if self.gap.0 <= 0 || self.gap.1 <= 0 {
            Err(ConfigError::NonPositiveGap)
        } else if self.triangle.radius < 0 {
            Err(ConfigError::NegativeRadius)
        } else {
            Ok(())
        }
    }

    /// The offsets of the first ring, for a configuration without fault.
    pub fn deviation(&self) -> (r: Result<Deviation, ConfigError>)
        ensures
            r is Ok <==> self@.error() is None,
            r matches Ok(d) ==> d@ == self@.deviation() && d@.bounded(DEVIATION_LIMIT as int),
            r matches Err(e) ==> self@.error() == Some(e),
    {
        match self.validate() {
            Err(e) => {
                return Err(e);
            },
            Ok(()) => {},
        }
        let side: i64 = self.triangle.side();
        let radius: i64 = self.triangle.radius as i64;
        let gap_x: i64 = self.gap.0 as i64;
        let gap_y: i64 = self.gap.1 as i64;
        assert(0 <= side * gap_x <= 0xffff_fffe * 0x7fff_ffff) by (nonlinear_arith)
            requires
                0 <= side <= 0xffff_fffe,
                0 <= gap_x <= 0x7fff_ffff,
        ;
        assert(0 <= radius * gap_y <= 0x7fff_ffff * 0x7fff_ffff) by (nonlinear_arith)
            requires
                0 <= radius <= 0x7fff_ffff,
                0 <= gap_y <= 0x7fff_ffff,
        ;
        let a_x: i64 = side * gap_x / (2 * UNIT);
        let a_y: i64 = radius * gap_y / (2 * UNIT);
        let c_y: i64 = -(radius * gap_y / UNIT);
        Ok(Deviation { a: Position(a_x, a_y), b: Position(-a_x, a_y), c: Position(0, c_y) })
    }

    /// The number of rings of the mosaic.
    ///
    /// Fails as `build` does, and before anything is allocated.
    pub fn rings(&self) -> (r: Result<u32, ConfigError>)
        ensures
            r is Ok <==> self@.build_error() is None,
            r matches Ok(n) ==> n == self@.rings() && n <= MAX_RINGS,
            r matches Err(e) ==> self@.build_error() == Some(e),
    {
        let mut d = match self.deviation() {
            Err(e) => {
                return Err(e);
            },
            Ok(d) => d,
        };
        let mut k: u32 = 0;
        let ghost first = d@;
        let ghost width = self.size.0 as int;
        let ghost height = self.size.1 as int;
        while d.within(self.size)
            invariant
                k <= MAX_RINGS,
                self@.error() is None,
                first == self@.deviation(),
                first.bounded(DEVIATION_LIMIT as int),
                d@ == first.after(k as nat),
                width == self@.width == self.size.0,
                height == self@.height == self.size.1,
                ring_count(first, width, height, (MAX_RINGS + 1) as nat) == k + ring_count(
                    d@,
                    width,
                    height,
                    (MAX_RINGS + 1 - k) as nat,
                ),
            decreases MAX_RINGS - k,
        {
            if k == MAX_RINGS {
                assert(ring_count(d@.doubled(), width, height, 0) == 0);
                return Err(ConfigError::TooManyRings);
            }
            proof {
                lemma_after_bounded(first, k as nat);
                lemma2_to64();
                lemma_pow2_strictly_increases(k as nat, 10);
            }
            d = d.doubled();
            k = k + 1;
        }
        Ok(k)
    }

    /// Every triangle of `triangles`, mirrored on the x axis, turned upside
    /// down and moved by `(deviation_x, deviation_y)`, in the same order.
    pub fn shift(&self, triangles: &Vec<Triangle>, deviation_x: i64, deviation_y: i64) -> (shifted:
        Vec<Triangle>)
        requires
            all_shift_fit(models(triangles@), deviation_x as int, deviation_y as int),
        ensures
            models(shifted@) == shift_all(models(triangles@), deviation_x as int, deviation_y as int),
    {
        let mut shifted: Vec<Triangle> = Vec::new();
        let mut i: usize = 0;
        while i < triangles.len()
            invariant
                i <= triangles.len(),
                shifted.len() == i,
                all_shift_fit(models(triangles@), deviation_x as int, deviation_y as int),
                forall|j: int|
                    0 <= j < i ==> (#[trigger] shifted[j])@ == shift_one(
                        triangles[j]@,
                        deviation_x as int,
                        deviation_y as int,
                    ),
            decreases triangles.len() - i,
        {
            assert(models(triangles@)[i as int] == triangles[i as int]@);
            shifted.push(triangles[i].shifted(deviation_x, deviation_y));
            i = i + 1;
        }
        assert(models(shifted@) =~= shift_all(
            models(triangles@),
            deviation_x as int,
            deviation_y as int,
        ));
        shifted
    }

    /// Builds the mosaic: the seed, then ring after ring, each ring adding
    /// three shifted copies of all there is, until a ring's offsets reach
    /// past the viewport.
    ///
    /// Refuses a gap factor that is not positive, a negative radius, and a
    /// mosaic of more than `MAX_RINGS` rings.
    pub fn build(&self) -> (r: Result<Vec<Triangle>, ConfigError>)
        ensures
            r is Ok <==> self@.build_error() is None,
            r matches Ok(triangles) ==> {
                &&& models(triangles@) == self@.mosaic()
                &&& triangles@.len() == pow(4, self@.rings())
                &&& triangles@[0]@ == seed(self@.radius)
            },
            r matches Err(e) ==> self@.build_error() == Some(e),
    {
        match self.rings() {
            Err(e) => {
                return Err(e);
            },
            Ok(_) => {},
        }
        let mut d = match self.deviation() {
            Err(e) => {
                return Err(e);
            },
            Ok(d) => d,
        };
        let mut triangles: Vec<Triangle> = Vec::new();
        triangles.push(self.seed());
        let ghost first = d@;
        let ghost radius = self@.radius;
        let ghost width = self.size.0 as int;
        let ghost height = self.size.1 as int;
        let ghost cap = (MAX_RINGS + 1) as nat;
        let ghost mut k: nat = 0;
        assert(models(triangles@) =~= expand(seed(radius), first, 0));
        while d.within(self.size)
            invariant
                k < cap == MAX_RINGS + 1,
                width == self.size.0,
                height == self.size.1,
                first.bounded(DEVIATION_LIMIT as int),
                d@ == first.after(k),
                ring_count(first, width, height, cap) <= MAX_RINGS,
                ring_count(first, width, height, cap) == k + ring_count(
                    d@,
                    width,
                    height,
                    (cap - k) as nat,
                ),
                models(triangles@) == expand(seed(radius), first, k),
            decreases cap - k,
        {
            proof {
                lemma_after_bounded(first, k);
                lemma_expand_within(radius, first, k);
                lemma2_to64();
                lemma_pow2_strictly_increases(k, 10);
            }
            let mut a = self.shift(&triangles, d.a.0, d.a.1);
            let mut b = self.shift(&triangles, d.b.0, d.b.1);
            let mut c = self.shift(&triangles, d.c.0, d.c.1);
            let ghost before = triangles@;
            proof {
                lemma_models_add(before, a@);
                lemma_models_add(before + a@, b@);
                lemma_models_add(before + a@ + b@, c@);
                k = k + 1;
            }
            d = d.doubled();
            triangles.append(&mut a);
            triangles.append(&mut b);
            triangles.append(&mut c);
        }
        proof {
            lemma_expand_len(seed(radius), first, k);
            lemma_expand_starts_with_first(seed(radius), first, k);
            assert(models(triangles@)[0] == triangles@[0]@);
        }
        Ok(triangles)
    }
}

} // verus!
