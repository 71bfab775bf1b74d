//! The kinds of modifier: what each does to one vertex and to the whole
//! position buffer.

use vstd::prelude::*;
use vstd::arithmetic::div_mod::{lemma_fundamental_div_mod, lemma_fundamental_div_mod_converse,
    lemma_mod_bound};
use crate::scalar::{Scalar, ONE, clamp, trunc_div, round_div, product, saturate, round_quotient,
    lemma_trunc_div_bounds};
use crate::utils::{AABB, AABBs};
use crate::color_gradient::ColorGradient;
use crate::noise::{NoiseData, NoiseFn};
use crate::wave::WaveData;
use crate::wanders::WanderNoise;
use crate::planes::{PlaneData, PlaneView};

verus! {

/// `pos` with its height replaced by `h`.
pub open spec fn with_height(pos: [Scalar; 3], h: Scalar) -> [Scalar; 3] {
    [pos[0], h, pos[2]]
}

/// Computes [`with_height`].
pub fn set_height(pos: &[Scalar; 3], h: Scalar) -> (moved: [Scalar; 3])
    ensures
        moved == with_height(*pos, h),
{
    let moved = [pos[0], h, pos[2]];
    assert(moved =~= with_height(*pos, h));
    moved
}

/// One of the four sides of a plane.
#[derive(Debug, Clone, Copy, PartialEq, Eq, Structural)]
pub enum Edge {
    MinX,
    MaxX,
    MinZ,
    MaxZ,
}

/// A flat colour.
#[derive(Debug, Clone, Copy, PartialEq, Eq)]
pub struct ColorData {
    pub clr: [Scalar; 4],
}

impl ColorData {
    /// The configured colour.
    pub fn apply(&self) -> (clr: [Scalar; 4])
        ensures
            clr == self.clr,
    {
        self.clr
    }
}

/// A height field that is linear in the position: `base` at the origin,
/// rising by `slope[k]` for each unit along axis `k`.
#[derive(Debug, Clone, Copy, PartialEq, Eq)]
pub struct ValueData {
    pub base: Scalar,
    pub slope: [Scalar; 3],
}

impl ValueData {
    /// The height of the field at `pos`.
    pub open spec fn height_at(&self, pos: [Scalar; 3]) -> int {
        clamp(
            self.base + trunc_div(
                self.slope[0] * pos[0] + self.slope[1] * pos[1] + self.slope[2] * pos[2],
                ONE as int,
            ),
        )
    }

    /// The height of the field at `pos`.
    pub fn apply(&self, pos: &[Scalar; 3]) -> (height: Scalar)
        ensures
            height as int == self.height_at(*pos),
    {
        let a = product(self.slope[0] as i64, pos[0] as i64);
        let b = product(self.slope[1] as i64, pos[1] as i64);
        let c = product(self.slope[2] as i64, pos[2] as i64);
        proof {
            lemma_scalar_product(self.slope[0], pos[0]);
            lemma_scalar_product(self.slope[1], pos[1]);
            lemma_scalar_product(self.slope[2], pos[2]);
        }
        let sum: i128 = a + b + c;
        let q: i128 = sum / (ONE as i128);
        proof {
            lemma_trunc_div_bounds(sum as int, ONE as int);
        }
        saturate(self.base as i128 + q)
    }
}

/// The product of two scalars is below `2^62` in magnitude.
proof fn lemma_scalar_product(a: Scalar, b: Scalar)
    ensures
        -0x4000_0000_0000_0000 <= a as int * b as int <= 0x4000_0000_0000_0000,
{
    assert(-0x4000_0000_0000_0000 <= a as int * b as int <= 0x4000_0000_0000_0000)
        by (nonlinear_arith)
        requires
            -0x8000_0000 <= a as int <= 0x8000_0000,
            -0x8000_0000 <= b as int <= 0x8000_0000,
    ;
}

/// A staircase: heights snap to the nearest multiple of `step`.
#[derive(Debug, Clone, Copy, PartialEq, Eq)]
pub struct TerraceData {
    pub step: Scalar,
}

impl TerraceData {
    /// `height` snapped to the nearest multiple of `step`, halves away from
    /// zero, clamped into the scalar range. A step that is not positive
    /// leaves the height as it is.
    pub open spec fn terraced(&self, height: int) -> int {
        if self.step > 0 {
            clamp(self.step * round_div(height, self.step as int))
        } else {
            height
        }
    }

    /// The terraced height.
    pub fn apply(&self, height: Scalar) -> (snapped: Scalar)
        ensures
            snapped as int == self.terraced(height as int),
    {
        if self.step > 0 {
            let k = round_quotient(height, self.step);
            saturate(product(self.step as i64, k))
        } else {
            height
        }
    }
}

/// A terraced height is a multiple of the step no further than half a step
/// from the height it was made of.
pub proof fn lemma_terrace_is_nearest(height: int, step: int)
    requires
        step > 0,
    ensures
        -step <= 2 * (step * round_div(height, step) - height) <= step,
{
    let half = step / 2;
    assert(step - 1 <= 2 * half <= step);
    let n = if height >= 0 { height + half } else { -height + half };
    lemma_fundamental_div_mod(n, step);
    lemma_mod_bound(n, step);
    assert(step * (-(n / step)) == -(step * (n / step))) by (nonlinear_arith);
}

/// Terracing a height that is already a multiple of the step leaves it as
/// it is: terracing twice is terracing once.
pub proof fn lemma_terrace_keeps_multiples(k: int, step: int)
    requires
        step > 0,
    ensures
        round_div(step * k, step) == k,
{
    let half = step / 2;
    assert(0 <= half < step);
    let m = if k >= 0 { k } else { -k };
    assert(step * m >= 0 && step * (-m) == -(step * m)) by (nonlinear_arith)
        requires
            step > 0,
            m >= 0,
    ;
    assert(step * m + half == step * m + half);
    lemma_fundamental_div_mod_converse(step * m + half, step, m, half);
    if k < 0 {
        assert(step * k < 0) by (nonlinear_arith)
            requires
                step > 0,
                k < 0,
        ;
    }
}

/// The configuration of one modifier of a plane's stack.
#[derive(Debug, Clone, Copy, PartialEq, Eq)]
pub enum ModifierData {
    Color(ColorData),
    ColorGradient(ColorGradient),
    Value(ValueData),
    Noise(NoiseData),
    Wave(WaveData),
    Terrace(TerraceData),
    Wander(WanderNoise),
}

/// A modifier bound to its plane, ready to run.
#[derive(Debug, PartialEq, Eq)]
pub enum Modifier {
    Color(ColorData),
    ColorGradient(ColorGradient),
    Value(ValueData),
    Noise(NoiseData, NoiseFn),
    Wave(WaveData),
    Terrace(TerraceData),
    Wander(WanderNoise, AABBs),
}

/// What a [`Modifier`] holds.
pub enum ModifierView {
    Color(ColorData),
    ColorGradient(ColorGradient),
    Value(ValueData),
    Noise(NoiseData, NoiseFn),
    Wave(WaveData),
    Terrace(TerraceData),
    Wander(WanderNoise, Seq<AABB>),
}

impl View for Modifier {
    type V = ModifierView;

    open spec fn view(&self) -> ModifierView {
        match self {
            Modifier::Color(c) => ModifierView::Color(*c),
            Modifier::ColorGradient(g) => ModifierView::ColorGradient(*g),
            Modifier::Value(v) => ModifierView::Value(*v),
            Modifier::Noise(n, f) => ModifierView::Noise(*n, *f),
            Modifier::Wave(w) => ModifierView::Wave(*w),
            Modifier::Terrace(t) => ModifierView::Terrace(*t),
            Modifier::Wander(w, boxes) => ModifierView::Wander(*w, boxes@),
        }
    }
}

impl ModifierView {
    /// The height that the modifier gives to the vertex at `pos` of a plane
    /// at `loc`. Colour modifiers are no height modifiers: in a plane's
    /// stack they leave the height as it is.
    pub open spec fn point(self, pos: [Scalar; 3], loc: [Scalar; 3]) -> Scalar {
        match self {
            ModifierView::Color(_) => pos[1],
            ModifierView::ColorGradient(_) => pos[1],
            ModifierView::Value(v) => v.height_at(pos) as Scalar,
            ModifierView::Noise(_, f) => f.height_at(pos[0] + loc[0], pos[2] + loc[2]) as Scalar,
            ModifierView::Wave(w) => w.moved(pos)[1],
            ModifierView::Terrace(t) => t.terraced(pos[1] as int) as Scalar,
            ModifierView::Wander(w, boxes) => w.height_in(pos, boxes),
        }
    }

    /// What the modifier's pass over the whole buffer leaves: a wave shifts
    /// every vertex on the horizontal plane, the others change nothing.
    pub open spec fn area(self, positions: Seq<[Scalar; 3]>) -> Seq<[Scalar; 3]> {
        match self {
            ModifierView::Wave(w) => w.shifted_all(positions),
            _ => positions,
        }
    }
}

/// In a plane's stack the colour kinds shape nothing: they hand every vertex
/// on with the height it came with, and their pass over the buffer changes
/// nothing. The colours of a plane come from its colour policy alone.
pub proof fn lemma_color_kinds_shape_nothing(
    color: ColorData,
    gradient: ColorGradient,
    pos: [Scalar; 3],
    loc: [Scalar; 3],
    positions: Seq<[Scalar; 3]>,
)
    ensures
        ModifierView::Color(color).point(pos, loc) == pos[1],
        ModifierView::Color(color).area(positions) == positions,
        ModifierView::ColorGradient(gradient).point(pos, loc) == pos[1],
        ModifierView::ColorGradient(gradient).area(positions) == positions,
{
}

impl ModifierData {
    /// The modifier that this configuration gives on `plane`.
    pub open spec fn bound(self, plane: PlaneView) -> ModifierView {
        match self {
            ModifierData::Color(c) => ModifierView::Color(c),
            ModifierData::ColorGradient(g) => ModifierView::ColorGradient(g),
            ModifierData::Value(v) => ModifierView::Value(v),
            ModifierData::Noise(n) => ModifierView::Noise(n, n.field()),
            ModifierData::Wave(w) => ModifierView::Wave(w),
            ModifierData::Terrace(t) => ModifierView::Terrace(t),
            ModifierData::Wander(w) => ModifierView::Wander(w, w.boxes_on(plane)),
        }
    }

    /// Binds the configuration to the plane `pd`: a noise field is made
    /// ready once for the whole pass, a wander gets its boxes.
    pub fn set(&self, pd: &PlaneData) -> (modifier: Modifier)
        ensures
            modifier@ == self.bound(pd@),
    {
        match self {
            ModifierData::Color(c) => Modifier::Color(*c),
            ModifierData::ColorGradient(g) => Modifier::ColorGradient(*g),
            ModifierData::Value(v) => Modifier::Value(*v),
            ModifierData::Noise(n) => Modifier::Noise(*n, n.set()),
            ModifierData::Wave(w) => Modifier::Wave(*w),
            ModifierData::Terrace(t) => Modifier::Terrace(*t),
            ModifierData::Wander(w) => Modifier::Wander(*w, w.aabbs(pd)),
        }
    }
}

impl Modifier {
    /// The new height of the vertex at `pos` of a plane at `loc`.
    pub fn apply_point(&self, pos: &[Scalar; 3], loc: &[Scalar; 3]) -> (height: Scalar)
        ensures
            height == self@.point(*pos, *loc),
    {
        match self {
            Modifier::Color(_) => pos[1],
            Modifier::ColorGradient(_) => pos[1],
            Modifier::Value(v) => v.apply(pos),
            Modifier::Noise(n, f) => n.apply(f, pos, loc),
            Modifier::Wave(w) => {
                let to = w.apply(pos);
                to[1]
            },
            Modifier::Terrace(t) => t.apply(pos[1]),
            Modifier::Wander(w, boxes) => w.apply(pos, boxes),
        }
    }

    /// The modifier's pass over the whole position buffer.
    pub fn apply_area(&self, v_pos: &mut Vec<[Scalar; 3]>)
        ensures
            final(v_pos)@ == self@.area(old(v_pos)@),
    {
        match self {
            Modifier::Wave(w) => {
                w.apply_area(v_pos);
            },
            _ => {},
        }
    }
}

} // verus!
