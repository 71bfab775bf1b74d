//! The passes that run a stack of modifiers over a position buffer: the
//! point passes and the area passes.

use vstd::prelude::*;
use crate::scalar::Scalar;
use crate::modifiers::{Modifier, ModifierView, with_height, set_height};

verus! {

/// What each modifier of a stack holds.
pub open spec fn views(mods: Seq<Modifier>) -> Seq<ModifierView> {
    Seq::new(mods.len(), |k: int| mods[k]@)
}

/// The position of a vertex after the point passes of the first `k`
/// modifiers of `mods`, run in order from `pos`: each modifier sees the
/// height that the one before it left.
pub open spec fn threaded(mods: Seq<ModifierView>, k: int, pos: [Scalar; 3], loc: [Scalar; 3]) -> [
    Scalar;
    3
]
    decreases k,
{
    if k <= 0 {
        pos
    } else {
        let before = threaded(mods, k - 1, pos, loc);
        with_height(before, mods[k - 1].point(before, loc))
    }
}

/// Every vertex after the point passes of the whole stack.
pub open spec fn point_pass(mods: Seq<ModifierView>, positions: Seq<[Scalar; 3]>, loc: [Scalar; 3])
    -> Seq<[Scalar; 3]> {
    Seq::new(positions.len(), |i: int| threaded(mods, mods.len() as int, positions[i], loc))
}

/// The least height among the first `n` vertices; the largest scalar if
/// there is none.
pub open spec fn lowest(positions: Seq<[Scalar; 3]>, n: int) -> Scalar
    decreases n,
{
    if n <= 0 {
        i32::MAX
    } else {
        let rest = lowest(positions, n - 1);
        if positions[n - 1][1] < rest {
            positions[n - 1][1]
        } else {
            rest
        }
    }
}

/// The greatest height among the first `n` vertices; the least scalar if
/// there is none.
pub open spec fn highest(positions: Seq<[Scalar; 3]>, n: int) -> Scalar
    decreases n,
{
    if n <= 0 {
        i32::MIN
    } else {
        let rest = highest(positions, n - 1);
        if positions[n - 1][1] > rest {
            positions[n - 1][1]
        } else {
            rest
        }
    }
}

/// The buffer after the area passes of the first `k` modifiers, in order.
pub open spec fn area_pass(mods: Seq<ModifierView>, k: int, positions: Seq<[Scalar; 3]>) -> Seq<
    [Scalar; 3],
>
    decreases k,
{
    if k <= 0 {
        positions
    } else {
        mods[k - 1].area(area_pass(mods, k - 1, positions))
    }
}

/// The lowest height is at most every height, the highest at least, and
/// both are the height of some vertex when there is one.
pub proof fn lemma_height_range(positions: Seq<[Scalar; 3]>, n: int)
    requires
        0 <= n <= positions.len(),
    ensures
        forall|i: int| 0 <= i < n ==> lowest(positions, n) <= (#[trigger] positions[i])[1],
        forall|i: int| 0 <= i < n ==> highest(positions, n) >= (#[trigger] positions[i])[1],
        n > 0 ==> exists|i: int| 0 <= i < n && lowest(positions, n) == (#[trigger] positions[i])[1],
        n > 0 ==> exists|i: int| 0 <= i < n && highest(positions, n) == (#[trigger] positions[i])[1],
        n > 0 ==> lowest(positions, n) <= highest(positions, n),
    decreases n,
{
    if n > 0 {
        lemma_height_range(positions, n - 1);
        if n == 1 {
            assert(lowest(positions, 0) == i32::MAX);
            assert(highest(positions, 0) == i32::MIN);
            assert(lowest(positions, 1) == positions[0][1]);
            assert(highest(positions, 1) == positions[0][1]);
        } else {
            let i = choose|i: int|
                0 <= i < n - 1 && lowest(positions, n - 1) == (#[trigger] positions[i])[1];
            let j = choose|j: int|
                0 <= j < n - 1 && highest(positions, n - 1) == (#[trigger] positions[j])[1];
            if positions[n - 1][1] < lowest(positions, n - 1) {
                assert(lowest(positions, n) == positions[n - 1][1]);
            } else {
                assert(lowest(positions, n) == positions[i][1]);
            }
            if positions[n - 1][1] > highest(positions, n - 1) {
                assert(highest(positions, n) == positions[n - 1][1]);
            } else {
                assert(highest(positions, n) == positions[j][1]);
            }
        }
    }
}

/// An area pass moves vertices but neither adds nor removes any.
pub proof fn lemma_area_pass_len(mods: Seq<ModifierView>, k: int, positions: Seq<[Scalar; 3]>)
    requires
        0 <= k <= mods.len(),
    ensures
        area_pass(mods, k, positions).len() == positions.len(),
    decreases k,
{
    if k > 0 {
        lemma_area_pass_len(mods, k - 1, positions);
    }
}

/// A point pass changes heights only: every vertex stays where it stands
/// on the horizontal plane.
pub proof fn lemma_threaded_keeps_ground(mods: Seq<ModifierView>, k: int, pos: [Scalar; 3], loc: [
    Scalar;
    3
])
    ensures
        threaded(mods, k, pos, loc)[0] == pos[0],
        threaded(mods, k, pos, loc)[2] == pos[2],
    decreases k,
{
    if k > 0 {
        lemma_threaded_keeps_ground(mods, k - 1, pos, loc);
    }
}

/// An empty stack leaves every vertex as it is.
pub proof fn lemma_empty_stack(positions: Seq<[Scalar; 3]>, loc: [Scalar; 3])
    ensures
        point_pass(Seq::empty(), positions, loc) == positions,
        area_pass(Seq::empty(), 0, positions) == positions,
{
    assert(point_pass(Seq::empty(), positions, loc) =~= positions);
}

/// Runs the point passes of the whole stack on one vertex.
pub fn thread_point(mods: &Vec<Modifier>, pos: &[Scalar; 3], loc: &[Scalar; 3]) -> (moved: [
    Scalar;
    3
])
    ensures
        moved == threaded(views(mods@), mods.len() as int, *pos, *loc),
{
    let mut moved = *pos;
    let mut k: usize = 0;
    while k < mods.len()
        invariant
            k <= mods.len(),
            moved == threaded(views(mods@), k as int, *pos, *loc),
        decreases mods.len() - k,
    {
        let h = mods[k].apply_point(&moved, loc);
        moved = set_height(&moved, h);
        k += 1;
    }
    moved
}

/// Runs the point passes of the whole stack on every vertex, and reports
/// the lowest and the highest height that results.
pub fn apply_points(mods: &Vec<Modifier>, v_pos: &mut Vec<[Scalar; 3]>, loc: &[Scalar; 3]) -> (range:
    (Scalar, Scalar))
    ensures
        final(v_pos)@ == point_pass(views(mods@), old(v_pos)@, *loc),
        range.0 == lowest(final(v_pos)@, final(v_pos)@.len() as int),
        range.1 == highest(final(v_pos)@, final(v_pos)@.len() as int),
{
    let ghost target = point_pass(views(mods@), old(v_pos)@, *loc);
    let n = v_pos.len();
    let mut min_height: Scalar = i32::MAX;
    let mut max_height: Scalar = i32::MIN;
    let mut i: usize = 0;
    while i < n
        invariant
            i <= n,
            n == old(v_pos)@.len(),
            v_pos@.len() == n,
            target == point_pass(views(mods@), old(v_pos)@, *loc),
            forall|j: int| 0 <= j < i ==> v_pos@[j] == target[j],
            forall|j: int| i <= j < n ==> v_pos@[j] == old(v_pos)@[j],
            min_height == lowest(target, i as int),
            max_height == highest(target, i as int),
        decreases n - i,
    {
        let p = v_pos[i];
        let moved = thread_point(mods, &p, loc);
        v_pos[i] = moved;
        if moved[1] > max_height {
            max_height = moved[1];
        }
        if moved[1] < min_height {
            min_height = moved[1];
        }
        i += 1;
    }
    assert(v_pos@ =~= target);
    (min_height, max_height)
}

/// Runs the area pass of every modifier once, in stack order, over the
/// whole buffer.
pub fn apply_areas(mods: &Vec<Modifier>, v_pos: &mut Vec<[Scalar; 3]>)
    ensures
        final(v_pos)@ == area_pass(views(mods@), mods.len() as int, old(v_pos)@),
{
    let mut k: usize = 0;
    while k < mods.len()
        invariant
            k <= mods.len(),
            v_pos@ == area_pass(views(mods@), k as int, old(v_pos)@),
        decreases mods.len() - k,
    {
        mods[k].apply_area(v_pos);
        k += 1;
    }
}

} // verus!
