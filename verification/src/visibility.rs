//! Which triangles of a mosaic can be seen in the viewport.

use vstd::prelude::*;
use crate::mosaic::Size;
use crate::triangle::{models, Triangle, TriangleModel};

verus! {

/// The bounding circle of `t` meets the viewport of the given size, which
/// is centred at the origin:
/// `x + radius > -width / 2`, `x - radius < width / 2`, and the same for `y`
/// and the height. Both sides are doubled, so that nothing is rounded.
pub open spec fn visible(t: TriangleModel, width: int, height: int) -> bool {
    &&& 2 * (t.x + t.radius) > -width
    &&& 2 * (t.x - t.radius) < width
    &&& 2 * (t.y + t.radius) > -height
    &&& 2 * (t.y - t.radius) < height
}

/// The visible triangles of `triangles`, in the same order.
pub open spec fn visible_part(triangles: Seq<TriangleModel>, width: int, height: int) -> Seq<
    TriangleModel,
> {
    triangles.filter(|t: TriangleModel| visible(t, width, height))
}

impl Triangle {
    /// Whether the bounding circle of the triangle meets the viewport.
    pub fn is_visible(&self, size: Size) -> (b: bool)
        ensures
            b == visible(self@, size.0 as int, size.1 as int),
    {
        let x: i128 = self.x as i128;
        let y: i128 = self.y as i128;
        let radius: i128 = self.radius as i128;
        let width: i128 = size.0 as i128;
        let height: i128 = size.1 as i128;
        2 * (x + radius) > -width && 2 * (x - radius) < width && 2 * (y + radius) > -height && 2 * (
        y - radius) < height
    }
}

/// Keeps the triangles whose bounding circle meets the viewport, in their
/// order, and drops the others.
pub fn filter(triangles: &Vec<Triangle>, size: Size) -> (kept: Vec<Triangle>)
    ensures
        kept@ == triangles@.filter(|t: Triangle| visible(t@, size.0 as int, size.1 as int)),
        models(kept@) == visible_part(models(triangles@), size.0 as int, size.1 as int),
{
    let ghost width = size.0 as int;
    let ghost height = size.1 as int;
    let ghost pred = |t: Triangle| visible(t@, width, height);
    let mut kept: Vec<Triangle> = Vec::new();
    let mut i: usize = 0;
    proof {
        reveal(Seq::filter);
        assert(triangles@.take(0) =~= Seq::<Triangle>::empty());
    }
    while i < triangles.len()
        invariant
            i <= triangles.len(),
            width == size.0,
            height == size.1,
            pred == |t: Triangle| visible(t@, width, height),
            kept@ == triangles@.take(i as int).filter(pred),
        decreases triangles.len() - i,
    {
        proof {
            reveal(Seq::filter);
            assert(triangles@.take(i + 1).drop_last() =~= triangles@.take(i as int));
        }
        let t = triangles[i];
        if t.is_visible(size) {
            kept.push(t);
        }
        i = i + 1;
    }
    proof {
        assert(triangles@.take(i as int) =~= triangles@);
        lemma_visible_part_of_models(triangles@, width, height);
    }
    kept
}

/// Filtering triangles by what their views show is filtering their views.
pub proof fn lemma_visible_part_of_models(triangles: Seq<Triangle>, width: int, height: int)
    ensures
        models(triangles.filter(|t: Triangle| visible(t@, width, height))) == visible_part(
            models(triangles),
            width,
            height,
        ),
    decreases triangles.len(),
{
    reveal(Seq::filter);
    let pred = |t: Triangle| visible(t@, width, height);
    let model_pred = |t: TriangleModel| visible(t, width, height);
    if triangles.len() == 0 {
        assert(models(triangles.filter(pred)) =~= models(triangles).filter(model_pred));
    } else {
        lemma_visible_part_of_models(triangles.drop_last(), width, height);
        assert(models(triangles).drop_last() =~= models(triangles.drop_last()));
        assert(models(triangles).last() == triangles.last()@);
        assert(models(triangles.filter(pred)) =~= models(triangles).filter(model_pred));
    }
}

/// A triangle at the origin is visible in every viewport that is not empty.
pub proof fn lemma_origin_is_visible(t: TriangleModel, width: int, height: int)
    requires
        t.x == 0,
        t.y == 0,
        t.radius >= 0,
        width > 0,
        height > 0,
    ensures
        visible(t, width, height),
{
}

/// A triangle whose centre lies further from the origin than half the
/// viewport and a radius, on either axis, is not visible.
pub proof fn lemma_far_is_hidden(t: TriangleModel, width: int, height: int)
    requires
        2 * t.x > width + 2 * t.radius || 2 * t.x < -width - 2 * t.radius || 2 * t.y > height + 2
            * t.radius || 2 * t.y < -height - 2 * t.radius,
    ensures
        !visible(t, width, height),
{
}

/// Filtering keeps every visible triangle and nothing else.
pub proof fn lemma_visible_part_members(triangles: Seq<TriangleModel>, width: int, height: int)
    ensures
        forall|i: int|
            0 <= i < visible_part(triangles, width, height).len() ==> visible(
                #[trigger] visible_part(triangles, width, height)[i],
                width,
                height,
            ) && triangles.contains(visible_part(triangles, width, height)[i]),
        forall|i: int|
            0 <= i < triangles.len() && visible(#[trigger] triangles[i], width, height)
                ==> visible_part(triangles, width, height).contains(triangles[i]),
{
    let pred = |t: TriangleModel| visible(t, width, height);
    let kept = triangles.filter(pred);
    assert forall|i: int| 0 <= i < kept.len() implies visible(#[trigger] kept[i], width, height)
        && triangles.contains(kept[i]) by {
        triangles.lemma_filter_pred(pred, i);
        assert(kept.contains(kept[i]));
        triangles.lemma_filter_contains_rev(pred, kept[i]);
    }
    assert forall|i: int|
        0 <= i < triangles.len() && visible(#[trigger] triangles[i], width, height) implies kept.contains(
        triangles[i],
    ) by {
        triangles.lemma_filter_contains(pred, i);
    }
}

} // verus!
