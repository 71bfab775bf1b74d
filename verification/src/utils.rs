//! Axis-aligned bounding boxes on the horizontal plane, and a helper for
//! copying buffers.

use vstd::prelude::*;
use crate::scalar::Scalar;

verus! {

/// A copy of a vector of plain values.
pub fn copy_vec<T: Copy>(v: &Vec<T>) -> (copy: Vec<T>)
    ensures
        copy@ == v@,
{
    let mut copy: Vec<T> = Vec::new();
    let mut i: usize = 0;
    while i < v.len()
        invariant
            i <= v.len(),
            copy@ == v@.take(i as int),
        decreases v.len() - i,
    {
        copy.push(v[i]);
        i += 1;
    }
    assert(v@.take(v.len() as int) =~= v@);
    copy
}

/// A box on the horizontal plane, edges included.
#[derive(Debug, Clone, Copy, PartialEq, Eq, Structural)]
pub struct AABB {
    pub min_x: Scalar,
    pub max_x: Scalar,
    pub min_z: Scalar,
    pub max_z: Scalar,
}

impl AABB {
    /// The horizontal coordinates of `pos` lie inside the box or on its
    /// edge. The height of `pos` plays no part.
    pub open spec fn contains(&self, pos: [Scalar; 3]) -> bool {
        &&& self.min_x <= pos[0] <= self.max_x
        &&& self.min_z <= pos[2] <= self.max_z
    }

    /// Whether `pos` lies inside the box.
    pub fn has_point(&self, pos: &[Scalar; 3]) -> (inside: bool)
        ensures
            inside == self.contains(*pos),
    {
        self.min_x <= pos[0] && pos[0] <= self.max_x && self.min_z <= pos[2] && pos[2]
            <= self.max_z
    }
}

/// A set of boxes: the region that is their union.
#[derive(Debug, PartialEq, Eq)]
pub struct AABBs {
    pub boxes: Vec<AABB>,
}

impl View for AABBs {
    type V = Seq<AABB>;

    open spec fn view(&self) -> Seq<AABB> {
        self.boxes@
    }
}

/// Some box of `boxes` contains `pos`.
pub open spec fn covers(boxes: Seq<AABB>, pos: [Scalar; 3]) -> bool {
    exists|i: int| 0 <= i < boxes.len() && (#[trigger] boxes[i]).contains(pos)
}

impl AABBs {
    /// The empty set of boxes, which covers no point.
    pub fn new() -> (set: AABBs)
        ensures
            set@ == Seq::<AABB>::empty(),
    {
        AABBs { boxes: Vec::new() }
    }

    /// Whether some box of the set contains `pos`.
    pub fn has_point(&self, pos: &[Scalar; 3]) -> (inside: bool)
        ensures
            inside == covers(self@, *pos),
    {
        let mut i: usize = 0;
        while i < self.boxes.len()
            invariant
                i <= self.boxes.len(),
                forall|j: int| 0 <= j < i ==> !(#[trigger] self.boxes@[j]).contains(*pos),
            decreases self.boxes.len() - i,
        {
            if self.boxes[i].has_point(pos) {
                return true;
            }
            i += 1;
        }
        false
    }
}

impl Clone for AABBs {
    fn clone(&self) -> (set: AABBs)
        ensures
            set@ == self@,
    {
        AABBs { boxes: copy_vec(&self.boxes) }
    }
}

} // verus!
