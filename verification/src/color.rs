//! Colours in hue, saturation, lightness and opacity.

use vstd::prelude::*;
use crate::cfg::{HUE_RANGE, HUE_RATE, STROKE_ALPHA, STROKE_LIGHTNESS, STROKE_SATURATION};

verus! {

/// A colour. `hue` counts thousandths of a degree; the other channels count
/// thousandths of the full value.
#[derive(Clone, Copy, Debug, PartialEq, Eq)]
pub struct Color {
    pub hue: u32,
    pub saturation: u32,
    pub lightness: u32,
    pub alpha: u32,
}

/// The hue that `hue` has turned into after `delta` thousandths of a second.
pub open spec fn turned_hue(hue: int, delta: int) -> int {
    (hue + HUE_RATE * delta) % (HUE_RANGE as int)
}

impl Color {
    /// "No colour": fully transparent black.
    pub open spec fn spec_none() -> Color {
        Color { hue: 0, saturation: 0, lightness: 0, alpha: 0 }
    }

    /// "No colour": fully transparent black.
    #[verifier::when_used_as_spec(spec_none)]
    pub fn none() -> (c: Color)
        ensures
            c == Color::spec_none(),
    {
        Color { hue: 0, saturation: 0, lightness: 0, alpha: 0 }
    }

    /// The colour one animation step of `delta` makes of `self`: the hue
    /// turned along the hue circle, everything else fixed.
    pub open spec fn spec_rotated(self, delta: u32) -> Color {
        Color {
            hue: turned_hue(self.hue as int, delta as int) as u32,
            saturation: STROKE_SATURATION,
            lightness: STROKE_LIGHTNESS,
            alpha: STROKE_ALPHA,
        }
    }

    /// Turns the hue by `HUE_RATE` degrees per second for `delta` thousandths
    /// of a second, wrapping at the end of the hue circle, and forces full
    /// saturation, half lightness and full opacity.
    #[verifier::when_used_as_spec(spec_rotated)]
    pub fn rotated(self, delta: u32) -> (c: Color)
        ensures
            c == self.spec_rotated(delta),
            c.hue == turned_hue(self.hue as int, delta as int),
            c.hue < HUE_RANGE,
    {
        assert(HUE_RATE * delta <= 20 * 0xffff_ffff) by (nonlinear_arith)
            requires
                HUE_RATE == 20,
                delta <= 0xffff_ffff,
        ;
        let step: u64 = HUE_RATE as u64 * delta as u64;
        let turned: u64 = (self.hue as u64 + step) % (HUE_RANGE as u64);
        Color {
            hue: turned as u32,
            saturation: STROKE_SATURATION,
            lightness: STROKE_LIGHTNESS,
            alpha: STROKE_ALPHA,
        }
    }
}

/// Turning by `a` and then by `b` is turning by `a + b`.
pub proof fn lemma_turned_hue_adds(hue: int, a: int, b: int)
    ensures
        turned_hue(turned_hue(hue, a), b) == turned_hue(hue, a + b),
{
    let n = HUE_RANGE as int;
    let x = hue + HUE_RATE * a;
    let y = HUE_RATE * b;
    assert(hue + HUE_RATE * (a + b) == x + y) by (nonlinear_arith)
        requires
            x == hue + HUE_RATE * a,
            y == HUE_RATE * b,
    ;
    vstd::arithmetic::div_mod::lemma_add_mod_noop(x, y, n);
    vstd::arithmetic::div_mod::lemma_add_mod_noop(x % n, y, n);
    vstd::arithmetic::div_mod::lemma_mod_twice(x, n);
}

/// A full turn of the hue circle brings every hue on the circle back.
pub proof fn lemma_turned_hue_full_circle(hue: int)
    requires
        0 <= hue < HUE_RANGE,
    ensures
        turned_hue(hue, (HUE_RANGE / HUE_RATE) as int) == hue,
{
}

} // verus!
