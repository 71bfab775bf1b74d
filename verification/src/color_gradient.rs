//! The colour-gradient modifier: a blend of two picked colours over a
//! configured range of heights.

use vstd::prelude::*;
use crate::scalar::{Scalar, ONE, mul_div, quotient, normalized, lerp, normalize, lemma_trunc_div_bounds,
    lemma_trunc_div_monotone, lemma_trunc_div_exact};
use crate::color::{blend, blend_colors};

verus! {

/// A colour as a colour picker holds it: four bytes, red, green, blue and
/// alpha.
#[derive(Debug, Clone, Copy, PartialEq, Eq)]
pub struct Color32(pub [u8; 4]);

/// The scalar that stands for byte `c` out of 255, rounded towards zero.
pub open spec fn byte_to_unit(c: int) -> int {
    mul_div(c, ONE as int, 255)
}

/// The four channels of a picked colour as scalars between zero and one.
pub open spec fn picked(c: Color32) -> [Scalar; 4] {
    [
        byte_to_unit(c.0[0] as int) as Scalar,
        byte_to_unit(c.0[1] as int) as Scalar,
        byte_to_unit(c.0[2] as int) as Scalar,
        byte_to_unit(c.0[3] as int) as Scalar,
    ]
}

/// A byte maps into the unit range, 0 to zero and 255 to one.
pub proof fn lemma_byte_to_unit(c: int)
    requires
        0 <= c <= 255,
    ensures
        0 <= byte_to_unit(c) <= ONE,
        byte_to_unit(0) == 0,
        byte_to_unit(255) == ONE,
{
    lemma_trunc_div_bounds(c * ONE, 255);
    lemma_trunc_div_monotone(c * ONE, 255 * ONE, 255);
    lemma_trunc_div_exact(ONE as int, 255);
}

/// Computes [`byte_to_unit`].
pub fn unit_from_byte(c: u8) -> (r: Scalar)
    ensures
        r as int == byte_to_unit(c as int),
        0 <= r <= ONE,
{
    let q = quotient(c as i64, ONE as i64, 255);
    proof {
        lemma_byte_to_unit(c as int);
    }
    q as i32
}

/// Computes [`picked`].
pub fn unit_color(c: &Color32) -> (clr: [Scalar; 4])
    ensures
        clr == picked(*c),
{
    let clr = [
        unit_from_byte(c.0[0]),
        unit_from_byte(c.0[1]),
        unit_from_byte(c.0[2]),
        unit_from_byte(c.0[3]),
    ];
    assert(clr =~= picked(*c));
    clr
}

/// A gradient between two colours over the heights from `min_height` to
/// `max_height`.
#[derive(Debug, Clone, Copy, PartialEq, Eq)]
pub struct ColorGradient {
    pub min_height: Scalar,
    pub max_height: Scalar,
    /// Colour at `min_height`, as scalars.
    pub min_color: [Scalar; 4],
    /// Colour at `min_height`, as picked.
    pub _min_color: Color32,
    /// Colour at `max_height`, as scalars.
    pub max_color: [Scalar; 4],
    /// Colour at `max_height`, as picked.
    pub _max_color: Color32,
}

impl ColorGradient {
    /// The colour that the gradient gives to `height`.
    pub open spec fn color_at(&self, height: int) -> [Scalar; 4] {
        blend(
            self.min_color,
            self.max_color,
            normalized(height, self.min_height as int, self.max_height as int),
        )
    }

    /// The scalar colours agree with the picked ones.
    pub open spec fn is_set(&self) -> bool {
        &&& self.min_color == picked(self._min_color)
        &&& self.max_color == picked(self._max_color)
    }

    /// The colour at `height`: `min_color` at `min_height`, `max_color` at
    /// `max_height`, linear in between and beyond. Where the two heights
    /// are equal the colour is `min_color`.
    pub fn apply(&self, height: Scalar) -> (clr: [Scalar; 4])
        ensures
            clr == self.color_at(height as int),
            forall|c: int|
                0 <= c < 4 ==> #[trigger] clr[c] == lerp(
                    self.min_color[c] as int,
                    self.max_color[c] as int,
                    normalized(height as int, self.min_height as int, self.max_height as int),
                ),
    {
        let scale = normalize(height, self.min_height, self.max_height);
        blend_colors(&self.min_color, &self.max_color, scale)
    }

    /// A gradient over heights zero to ten between the two picked colours.
    pub fn new(min_picked: Color32, max_picked: Color32) -> (gradient: ColorGradient)
        ensures
            gradient.min_height == 0,
            gradient.max_height == 10 * ONE,
            gradient._min_color == min_picked,
            gradient._max_color == max_picked,
            gradient.is_set(),
    {
        let mut clr = ColorGradient {
            _min_color: min_picked,
            min_color: [ONE, ONE, ONE, ONE],
            _max_color: max_picked,
            max_color: [ONE, ONE, ONE, ONE],
            min_height: 0,
            max_height: 10 * ONE,
        };
        clr.set();
        clr
    }

    /// Brings the scalar colours up to date with the picked ones.
    pub fn set(&mut self)
        ensures
            final(self).is_set(),
            final(self).min_height == old(self).min_height,
            final(self).max_height == old(self).max_height,
            final(self)._min_color == old(self)._min_color,
            final(self)._max_color == old(self)._max_color,
    {
        self.min_color = unit_color(&self._min_color);
        self.max_color = unit_color(&self._max_color);
    }
}

} // verus!
