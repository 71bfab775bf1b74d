//! A terrain plane: its configuration and how a mesh is deformed by it.

use vstd::prelude::*;
use vstd::arithmetic::div_mod::{lemma_fundamental_div_mod, lemma_mod_bound};
use crate::scalar::{Scalar, trunc_div};
use crate::utils::{AABB, copy_vec};
use crate::color::{PlaneColor, PlaneColorView};
use crate::mesh::{Mesh, MeshView, RectPlane};
use crate::modifiers::{ModifierData, Modifier, ModifierView};
use crate::engine::{views, point_pass, area_pass, lowest, highest, apply_points, apply_areas,
    lemma_area_pass_len};

verus! {

/// The configuration of one terrain plane.
#[derive(Debug, PartialEq, Eq)]
pub struct PlaneData {
    pub name: String,
    /// Where the plane's origin lies in the world.
    pub loc: [Scalar; 3],
    /// Interior cuts along each axis.
    pub subdivisions: (u32, u32),
    /// Width and length.
    pub dims: (Scalar, Scalar),
    pub color: PlaneColor,
    /// The modifier stack, first modifier first.
    pub modifiers: Vec<ModifierData>,
    pub active: bool,
}

/// What a [`PlaneData`] holds.
pub struct PlaneView {
    pub name: Seq<char>,
    pub loc: [Scalar; 3],
    pub subdivisions: (u32, u32),
    pub dims: (Scalar, Scalar),
    pub color: PlaneColorView,
    pub modifiers: Seq<ModifierData>,
    pub active: bool,
}

impl View for PlaneData {
    type V = PlaneView;

    open spec fn view(&self) -> PlaneView {
        PlaneView {
            name: self.name@,
            loc: self.loc,
            subdivisions: self.subdivisions,
            dims: self.dims,
            color: self.color@,
            modifiers: self.modifiers@,
            active: self.active,
        }
    }
}

impl PlaneView {
    /// The grid that the plane's mesh is built on.
    pub open spec fn grid(self) -> RectPlane {
        RectPlane {
            width: self.dims.0,
            length: self.dims.1,
            x_subdivisions: self.subdivisions.0,
            z_subdivisions: self.subdivisions.1,
        }
    }

    /// The plane's extent on the horizontal plane: half the width and half
    /// the length to each side of its own origin.
    pub open spec fn bounds(self) -> AABB {
        AABB {
            min_x: (-trunc_div(self.dims.0 as int, 2)) as Scalar,
            max_x: trunc_div(self.dims.0 as int, 2) as Scalar,
            min_z: (-trunc_div(self.dims.1 as int, 2)) as Scalar,
            max_z: trunc_div(self.dims.1 as int, 2) as Scalar,
        }
    }

    /// The modifier stack bound to this plane.
    pub open spec fn stack(self) -> Seq<ModifierView> {
        Seq::new(self.modifiers.len(), |k: int| self.modifiers[k].bound(self))
    }

    /// The positions after the point passes: for every vertex, every
    /// modifier in stack order, each on the height the one before left.
    pub open spec fn raised(self, positions: Seq<[Scalar; 3]>) -> Seq<[Scalar; 3]> {
        point_pass(self.stack(), positions, self.loc)
    }

    /// The positions that the plane gives to a mesh: the point passes, then
    /// every modifier's area pass in stack order.
    pub open spec fn deformed(self, positions: Seq<[Scalar; 3]>) -> Seq<[Scalar; 3]> {
        area_pass(self.stack(), self.stack().len() as int, self.raised(positions))
    }

    /// The colour of vertex `i`: the plane's colour policy at the vertex's
    /// final height, over the range of heights that the vertices took in the
    /// point passes. The modifiers of the stack have no say in it.
    pub open spec fn color_of(self, positions: Seq<[Scalar; 3]>, i: int) -> [Scalar; 4] {
        let raised = self.raised(positions);
        let height = self.deformed(positions)[i][1];
        self.color.color_at(
            height as int,
            lowest(raised, raised.len() as int) as int,
            highest(raised, raised.len() as int) as int,
        )
    }

    /// The colours that the plane gives to a mesh.
    pub open spec fn colored(self, positions: Seq<[Scalar; 3]>) -> Seq<[Scalar; 4]> {
        Seq::new(positions.len(), |i: int| self.color_of(positions, i))
    }

    /// The mesh that the plane makes of `mesh`: new positions and colours,
    /// everything else as it was.
    pub open spec fn applied(self, mesh: MeshView) -> MeshView {
        MeshView {
            positions: self.deformed(mesh.positions),
            normals: mesh.normals,
            uvs: mesh.uvs,
            colors: self.colored(mesh.positions),
            indices: mesh.indices,
        }
    }

    /// The plane's mesh: the flat grid, deformed and coloured.
    pub open spec fn mesh(self) -> MeshView {
        self.applied(self.grid().mesh())
    }

    /// Every vertex of the flat grid of a plane with dimensions that are
    /// not negative lies within the plane's bounds.
    pub proof fn lemma_grid_within_bounds(self, i: int)
        requires
            self.dims.0 >= 0,
            self.dims.1 >= 0,
            0 <= i < self.grid().vertex_count(),
        ensures
            self.bounds().contains(self.grid().mesh().positions[i]),
    {
        let grid = self.grid();
        let xc = grid.x_count();
        let x = i % xc;
        let y = i / xc;
        lemma_fundamental_div_mod(i, xc);
        lemma_mod_bound(i, xc);
        assert(0 <= y < grid.z_count()) by (nonlinear_arith)
            requires
                0 <= i < grid.z_count() * xc,
                xc > 0,
                y == i / xc,
        ;
        assert(i == y * xc + x) by (nonlinear_arith)
            requires
                i == xc * (i / xc) + i % xc,
                y == i / xc,
                x == i % xc,
        ;
        grid.lemma_centering(x, y);
        crate::scalar::lemma_trunc_div_bounds(self.dims.0 as int, 2);
        crate::scalar::lemma_trunc_div_bounds(self.dims.1 as int, 2);
    }

    /// Deforming a mesh keeps its shape: as many vertices, as many colours,
    /// the same triangles.
    pub proof fn lemma_applied_wf(self, mesh: MeshView)
        requires
            mesh.wf(),
        ensures
            self.applied(mesh).wf(),
            self.applied(mesh).positions.len() == mesh.positions.len(),
    {
        lemma_area_pass_len(self.stack(), self.stack().len() as int, self.raised(mesh.positions));
    }
}

impl Clone for PlaneData {
    fn clone(&self) -> (copy: PlaneData)
        ensures
            copy@ == self@,
    {
        PlaneData {
            name: self.name.clone(),
            loc: self.loc,
            subdivisions: self.subdivisions,
            dims: self.dims,
            color: self.color.clone(),
            modifiers: copy_vec(&self.modifiers),
            active: self.active,
        }
    }
}

impl PlaneData {
    /// Binds every modifier of the stack to this plane.
    pub fn bind_modifiers(&self) -> (mods: Vec<Modifier>)
        ensures
            views(mods@) == self@.stack(),
    {
        let mut mods: Vec<Modifier> = Vec::new();
        let mut k: usize = 0;
        while k < self.modifiers.len()
            invariant
                k <= self.modifiers.len(),
                mods@.len() == k,
                forall|j: int| 0 <= j < k ==> (#[trigger] mods@[j])@ == self@.modifiers[j].bound(self@),
            decreases self.modifiers.len() - k,
        {
            let m = self.modifiers[k].set(self);
            mods.push(m);
            k += 1;
        }
        assert(views(mods@) =~= self@.stack());
        mods
    }

    /// Deforms and colours `mesh` in place and returns a copy of the result.
    ///
    /// First every vertex goes through the point pass of every modifier in
    /// stack order, each modifier working on the height that the one before
    /// left; the lowest and highest resulting heights are noted. Then every
    /// modifier's area pass runs once over the whole buffer, in stack
    /// order. Last every vertex is coloured by the plane's colour policy
    /// from its final height and the noted range; a colour modifier in the
    /// stack changes neither heights nor colours. Normals, texture
    /// coordinates and triangles stay as they are.
    pub fn apply(&self, mesh: &mut Mesh) -> (out: Mesh)
        ensures
            final(mesh)@ == self@.applied(old(mesh)@),
            final(mesh)@.positions.len() == old(mesh)@.positions.len(),
            final(mesh)@.colors.len() == old(mesh)@.positions.len(),
            forall|i: int|
                0 <= i < old(mesh)@.positions.len() ==> (#[trigger] final(mesh)@.colors[i])
                    == self@.color.color_at(
                    final(mesh)@.positions[i][1] as int,
                    lowest(
                        self@.raised(old(mesh)@.positions),
                        old(mesh)@.positions.len() as int,
                    ) as int,
                    highest(
                        self@.raised(old(mesh)@.positions),
                        old(mesh)@.positions.len() as int,
                    ) as int,
                ),
            old(mesh)@.wf() ==> final(mesh)@.wf(),
            out@ == final(mesh)@,
    {
        let mods = self.bind_modifiers();
        let ghost before = mesh@;
        let (min_height, max_height) = apply_points(&mods, &mut mesh.positions, &self.loc);
        let ghost raised = mesh.positions@;
        apply_areas(&mods, &mut mesh.positions);
        proof {
            lemma_area_pass_len(views(mods@), mods.len() as int, raised);
        }
        let n = mesh.positions.len();
        let mut v_clr: Vec<[Scalar; 4]> = Vec::new();
        let mut i: usize = 0;
        while i < n
            invariant
                i <= n,
                n == mesh.positions@.len(),
                n == before.positions.len(),
                views(mods@) == self@.stack(),
                raised == self@.raised(before.positions),
                mesh.positions@ == self@.deformed(before.positions),
                min_height == lowest(raised, raised.len() as int),
                max_height == highest(raised, raised.len() as int),
                v_clr@.len() == i,
                forall|j: int| 0 <= j < i ==> v_clr@[j] == self@.color_of(before.positions, j),
            decreases n - i,
        {
            let height = mesh.positions[i][1];
            let clr = self.color.apply(height, min_height, max_height);
            v_clr.push(clr);
            i += 1;
        }
        assert(v_clr@ =~= self@.colored(before.positions));
        mesh.colors = v_clr;
        proof {
            if before.wf() {
                self@.lemma_applied_wf(before);
            }
        }
        mesh.clone()
    }

    /// The plane's extent on the horizontal plane, derived from its
    /// dimensions alone: half the width and half the length to each side of
    /// the plane's own origin.
    pub fn get_aabb(&self) -> (aabb: AABB)
        ensures
            aabb == self@.bounds(),
            aabb.max_x == trunc_div(self.dims.0 as int, 2),
            aabb.min_x == -trunc_div(self.dims.0 as int, 2),
            aabb.max_z == trunc_div(self.dims.1 as int, 2),
            aabb.min_z == -trunc_div(self.dims.1 as int, 2),
    {
        let max_x = self.dims.0 / 2;
        let max_z = self.dims.1 / 2;
        AABB { min_x: -max_x, max_x, min_z: -max_z, max_z }
    }
}

/// The flat grid mesh of a plane with the given subdivisions and
/// dimensions, or `None` where the grid is too large to be built.
pub fn plane_mesh(subdivisions: &(u32, u32), dims: &(Scalar, Scalar)) -> (mesh: Option<Mesh>)
    ensures
        ({
            let grid = RectPlane {
                width: dims.0,
                length: dims.1,
                x_subdivisions: subdivisions.0,
                z_subdivisions: subdivisions.1,
            };
            match mesh {
                Some(m) => grid.fits() && m@ == grid.mesh(),
                None => !grid.fits(),
            }
        }),
{
    let grid = RectPlane {
        width: dims.0,
        length: dims.1,
        x_subdivisions: subdivisions.0,
        z_subdivisions: subdivisions.1,
    };
    grid.build()
}

/// The mesh with which a plane enters the scene: its grid, deformed and
/// coloured by the plane. `None` where the grid is too large to be built.
pub fn spawn_plane(pd: &PlaneData) -> (mesh: Option<Mesh>)
    ensures
        match mesh {
            Some(m) => pd@.grid().fits() && m@ == pd@.mesh() && m@.wf(),
            None => !pd@.grid().fits(),
        },
{
    match plane_mesh(&pd.subdivisions, &pd.dims) {
        Some(mut mesh) => {
            proof {
                pd@.grid().lemma_mesh_wf();
            }
            let out = pd.apply(&mut mesh);
            Some(out)
        },
        None => None,
    }
}

/// A set of planes, as a scene file holds them.
#[derive(Debug, PartialEq, Eq)]
pub struct Planes {
    pub planes: Vec<PlaneData>,
}

} // verus!
