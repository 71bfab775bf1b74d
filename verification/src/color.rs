//! The colour policy of a plane: how a vertex is coloured from its height.

use vstd::prelude::*;
use crate::scalar::{Scalar, ONE, normalized, lerp, normalize, interpolate};
use crate::mesh::white;
use crate::utils::copy_vec;

verus! {

/// The two ends of a gradient over the heights that a plane takes.
#[derive(Debug, Clone, Copy, PartialEq, Eq)]
pub struct ColorGradient {
    /// Colour of the lowest vertex.
    pub low: [Scalar; 4],
    /// Colour of the highest vertex.
    pub high: [Scalar; 4],
}

/// One band of a stepped colouring: `clr` for heights below `h`.
#[derive(Debug, Clone, Copy, PartialEq, Eq)]
pub struct ColorStep {
    pub h: Scalar,
    pub clr: [Scalar; 4],
}

/// How a plane colours its vertices.
#[derive(Debug, PartialEq, Eq)]
pub enum PlaneColor {
    /// One colour everywhere.
    Color([Scalar; 4]),
    /// Bands by height: the first step whose threshold exceeds the height
    /// gives the colour.
    Steps(Vec<ColorStep>),
    /// Linear blend between two colours over the observed height range.
    Gradient(ColorGradient),
}

/// What a [`PlaneColor`] holds.
pub enum PlaneColorView {
    Color([Scalar; 4]),
    Steps(Seq<ColorStep>),
    Gradient(ColorGradient),
}

impl View for PlaneColor {
    type V = PlaneColorView;

    open spec fn view(&self) -> PlaneColorView {
        match self {
            PlaneColor::Color(c) => PlaneColorView::Color(*c),
            PlaneColor::Steps(v) => PlaneColorView::Steps(v@),
            PlaneColor::Gradient(g) => PlaneColorView::Gradient(*g),
        }
    }
}

/// Colour of `height` among the steps from index `from` on: the colour of
/// the first step whose threshold is strictly above `height`, white if there
/// is none.
pub open spec fn step_color(steps: Seq<ColorStep>, from: int, height: int) -> [Scalar; 4]
    decreases steps.len() - from,
{
    if from < 0 || from >= steps.len() {
        white()
    } else if height < steps[from].h {
        steps[from].clr
    } else {
        step_color(steps, from + 1, height)
    }
}

/// Each channel of `low` and `high` blended at `t`.
pub open spec fn blend(low: [Scalar; 4], high: [Scalar; 4], t: int) -> [Scalar; 4] {
    [
        lerp(low[0] as int, high[0] as int, t) as Scalar,
        lerp(low[1] as int, high[1] as int, t) as Scalar,
        lerp(low[2] as int, high[2] as int, t) as Scalar,
        lerp(low[3] as int, high[3] as int, t) as Scalar,
    ]
}

/// Computes [`blend`].
pub fn blend_colors(low: &[Scalar; 4], high: &[Scalar; 4], t: i64) -> (clr: [Scalar; 4])
    ensures
        clr == blend(*low, *high, t as int),
{
    let clr = [
        interpolate(low[0], high[0], t),
        interpolate(low[1], high[1], t),
        interpolate(low[2], high[2], t),
        interpolate(low[3], high[3], t),
    ];
    assert(clr =~= blend(*low, *high, t as int));
    clr
}

impl PlaneColorView {
    /// The colour of a vertex at `height` on a plane whose vertices range
    /// from `min_height` to `max_height`.
    pub open spec fn color_at(self, height: int, min_height: int, max_height: int) -> [Scalar; 4] {
        match self {
            PlaneColorView::Color(c) => c,
            PlaneColorView::Steps(steps) => step_color(steps, 0, height),
            PlaneColorView::Gradient(g) => blend(
                g.low,
                g.high,
                normalized(height, min_height, max_height),
            ),
        }
    }
}

/// The first step above `height` decides: every step before it has a
/// threshold at or below `height`; with no step above, the colour is white.
pub proof fn lemma_step_color(steps: Seq<ColorStep>, from: int, height: int)
    requires
        0 <= from <= steps.len(),
    ensures
        (exists|i: int|
            from <= i < steps.len() && height < steps[i].h && step_color(steps, from, height)
                == steps[i].clr && forall|j: int| from <= j < i ==> height >= steps[j].h) || (
        step_color(steps, from, height) == white() && forall|j: int|
            from <= j < steps.len() ==> height >= steps[j].h),
    decreases steps.len() - from,
{
    if from >= steps.len() {
    } else if height < steps[from].h {
        assert(from <= from < steps.len() && height < steps[from].h && step_color(
            steps,
            from,
            height,
        ) == steps[from].clr && forall|j: int| from <= j < from ==> height >= steps[j].h);
    } else {
        lemma_step_color(steps, from + 1, height);
        if step_color(steps, from + 1, height) == white() && forall|j: int|
            from + 1 <= j < steps.len() ==> height >= steps[j].h {
            assert forall|j: int| from <= j < steps.len() implies height >= steps[j].h by {}
        } else {
            let i = choose|i: int|
                from + 1 <= i < steps.len() && height < steps[i].h && step_color(
                    steps,
                    from + 1,
                    height,
                ) == steps[i].clr && forall|j: int| from + 1 <= j < i ==> height >= steps[j].h;
            assert(from <= i < steps.len() && height < steps[i].h && step_color(
                steps,
                from,
                height,
            ) == steps[i].clr && forall|j: int| from <= j < i ==> height >= steps[j].h);
        }
    }
}

impl PlaneColor {
    /// The colour of a vertex at `height`, where the plane's heights range
    /// from `min_height` to `max_height`.
    ///
    /// A flat colour ignores the height. Steps give the colour of the first
    /// step whose threshold strictly exceeds `height`, and white past the
    /// last. A gradient blends `low` to `high` by where `height` lies in the
    /// range; a range of one height blends at zero, so gives `low`.
    pub fn apply(&self, height: Scalar, min_height: Scalar, max_height: Scalar) -> (clr: [
        Scalar;
        4
    ])
        ensures
            clr == self@.color_at(height as int, min_height as int, max_height as int),
            self matches PlaneColor::Color(c) ==> clr == *c,
            self matches PlaneColor::Gradient(g) ==> clr == blend(
                g.low,
                g.high,
                normalized(height as int, min_height as int, max_height as int),
            ),
            self matches PlaneColor::Gradient(g) ==> forall|c: int|
                0 <= c < 4 ==> #[trigger] clr[c] == lerp(
                    g.low[c] as int,
                    g.high[c] as int,
                    normalized(height as int, min_height as int, max_height as int),
                ),
            self matches PlaneColor::Gradient(g) ==> max_height == min_height ==> clr == g.low,
            self matches PlaneColor::Steps(v) ==> {
                ||| exists|i: int|
                    0 <= i < v@.len() && height < v@[i].h && clr == v@[i].clr && forall|j: int|
                        0 <= j < i ==> height >= v@[j].h
                ||| clr == white() && forall|j: int| 0 <= j < v@.len() ==> height >= v@[j].h
            },
    {
        match self {
            PlaneColor::Steps(v) => {
                proof {
                    lemma_step_color(v@, 0, height as int);
                }
                first_step_above(v, height)
            },
            PlaneColor::Gradient(cgr) => {
                let scale = normalize(height, min_height, max_height);
                let clr = blend_colors(&cgr.low, &cgr.high, scale);
                proof {
                    if max_height == min_height {
                        lemma_blend_at_zero(cgr.low, cgr.high);
                    }
                }
                clr
            },
            PlaneColor::Color(clr) => *clr,
        }
    }
}

impl Clone for PlaneColor {
    fn clone(&self) -> (copy: PlaneColor)
        ensures
            copy@ == self@,
    {
        match self {
            PlaneColor::Color(c) => PlaneColor::Color(*c),
            PlaneColor::Gradient(g) => PlaneColor::Gradient(*g),
            PlaneColor::Steps(v) => PlaneColor::Steps(copy_vec(v)),
        }
    }
}

/// The colour of the first step whose threshold strictly exceeds `height`,
/// white if no step does.
pub fn first_step_above(steps: &Vec<ColorStep>, height: Scalar) -> (clr: [Scalar; 4])
    ensures
        clr == step_color(steps@, 0, height as int),
{
    let mut i: usize = 0;
    while i < steps.len()
        invariant
            i <= steps.len(),
            step_color(steps@, 0, height as int) == step_color(steps@, i as int, height as int),
        decreases steps.len() - i,
    {
        if height < steps[i].h {
            return steps[i].clr;
        }
        i += 1;
    }
    let clr = [ONE, ONE, ONE, ONE];
    assert(clr =~= white());
    clr
}

/// Blending at zero gives the low colour.
pub proof fn lemma_blend_at_zero(low: [Scalar; 4], high: [Scalar; 4])
    ensures
        blend(low, high, 0) == low,
{
    assert forall|c: int| 0 <= c < 4 implies blend(low, high, 0)[c] == low[c] by {
        let d = high[c] as int - low[c] as int;
        assert(0 * d == 0) by (nonlinear_arith);
    }
    assert(blend(low, high, 0) =~= low);
}

/// Blending at one gives the high colour.
pub proof fn lemma_blend_at_one(low: [Scalar; 4], high: [Scalar; 4])
    ensures
        blend(low, high, ONE as int) == high,
{
    assert forall|c: int| 0 <= c < 4 implies blend(low, high, ONE as int)[c] == high[c] by {
        let d = high[c] as int - low[c] as int;
        crate::scalar::lemma_trunc_div_exact(d, ONE as int);
        assert(ONE * d == d * ONE) by (nonlinear_arith);
    }
    assert(blend(low, high, ONE as int) =~= high);
}

impl PlaneColorView {
    /// A gradient gives its low colour to the lowest vertex and its high
    /// colour to the highest.
    pub proof fn lemma_gradient_ends(low: [Scalar; 4], high: [Scalar; 4], min_height: int, max_height: int)
        requires
            min_height != max_height,
        ensures
            PlaneColorView::Gradient(ColorGradient { low, high }).color_at(
                min_height,
                min_height,
                max_height,
            ) == low,
            PlaneColorView::Gradient(ColorGradient { low, high }).color_at(
                max_height,
                min_height,
                max_height,
            ) == high,
    {
        crate::scalar::lemma_normalized_ends(min_height, max_height);
        lemma_blend_at_zero(low, high);
        lemma_blend_at_one(low, high);
    }
}

} // verus!
