//! The wander modifier: a path of boxes across a plane, inside which the
//! terrain is set to one height.

use vstd::prelude::*;
use crate::scalar::Scalar;
use crate::utils::{AABB, AABBs, covers};
use crate::modifiers::{Edge, ModifierData};
use crate::planes::{PlaneData, PlaneView};

verus! {

/// How a wander chooses its steps.
#[derive(Clone, Copy, Debug, PartialEq, Eq, Structural)]
pub enum Wanders {
    /// A random direction for some steps, then another.
    DrunkRobot,
    /// One of the four grid directions, mostly the one it follows.
    DrunkZax,
    /// Any direction but backwards.
    DrunkEmu,
    /// Off the grid: steers by a random angle of up to 90 degrees.
    DrunkEmu90,
    /// Steers by a random angle of up to 60 degrees.
    DrunkEmu60,
    /// Steers by a random angle of up to 30 degrees.
    DrunkEmu30,
    /// Steers by an angle read from a noise field.
    DrunkEmuPerlin,
    /// Walks from a start point towards an end point.
    DrunkWanderer,
}

/// The configuration of a wander.
#[derive(Clone, Copy, Debug, PartialEq, Eq)]
pub struct WanderNoise {
    pub wander: Wanders,
    /// Width of the path.
    pub width: Scalar,
    /// Height of the terrain inside the path.
    pub height: Scalar,
    pub source_edge: Option<Edge>,
    pub target_edge: Option<Edge>,
    pub source_point: Option<(Scalar, Scalar)>,
    pub target_point: Option<(Scalar, Scalar)>,
}

impl WanderNoise {
    /// The boxes of this wander's path on `plane`: none.
    pub open spec fn boxes_on(&self, plane: PlaneView) -> Seq<AABB> {
        Seq::empty()
    }

    /// The height at `pos` given the path `boxes`: the wander's own height
    /// inside the path, the height that `pos` already has outside.
    pub open spec fn height_in(&self, pos: [Scalar; 3], boxes: Seq<AABB>) -> Scalar {
        if covers(boxes, pos) {
            self.height
        } else {
            pos[1]
        }
    }

    /// The boxes of this wander's path on the plane `pd`.
    pub fn aabbs(&self, pd: &PlaneData) -> (aabbs: AABBs)
        ensures
            aabbs@ == self.boxes_on(pd@),
            aabbs@.len() == 0,
    {
        AABBs::new()
    }

    /// The height at `pos`: the wander's own height where a box of `aabbs`
    /// contains `pos`, else the height of `pos` unchanged.
    pub fn apply(&self, pos: &[Scalar; 3], aabbs: &AABBs) -> (height: Scalar)
        ensures
            height == self.height_in(*pos, aabbs@),
            aabbs@.len() == 0 ==> height == pos[1],
    {
        if aabbs.has_point(pos) {
            return self.height;
        }
        pos[1]
    }

    /// With no boxes a wander leaves every height as it is.
    pub proof fn lemma_empty_is_identity(&self, pos: [Scalar; 3])
        ensures
            self.height_in(pos, Seq::empty()) == pos[1],
    {
    }

    /// Bound to any plane, a wander is the identity on heights: in a stack
    /// it hands every vertex on with the height it came with, and its pass
    /// over the buffer changes nothing.
    pub proof fn lemma_bound_is_identity(
        &self,
        plane: PlaneView,
        pos: [Scalar; 3],
        loc: [Scalar; 3],
        positions: Seq<[Scalar; 3]>,
    )
        ensures
            ModifierData::Wander(*self).bound(plane).point(pos, loc) == pos[1],
            ModifierData::Wander(*self).bound(plane).area(positions) == positions,
    {
    }
}

} // verus!
