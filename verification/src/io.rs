//! The records that persist a scene: each plane with the overrides authored
//! on it, and how a scene is gathered into records and rebuilt from them.

use vstd::prelude::*;
use crate::mesh::{Mesh, MeshView};
use crate::planes::{PlaneData, PlaneView, spawn_plane};
use crate::vertex::{Vertex, VertexEntity, overlaid, rejected, vertices_of, vertex_update_vertex,
    lemma_override_wins, lemma_untouched, lemma_vertices_restore, lemma_overlaid_shape};

verus! {

/// The name under which the scene is saved and loaded.
#[derive(Debug, PartialEq, Eq)]
pub struct IOName {
    pub data: String,
}

impl IOName {
    /// The empty name.
    pub fn new() -> (name: IOName)
        ensures
            name.data@ == Seq::<char>::empty(),
    {
        IOName { data: String::new() }
    }
}

/// One saved plane: its configuration and the overrides authored on it, in
/// the order in which they are to be written.
#[derive(Debug, PartialEq, Eq)]
pub struct SavePlaneData {
    pub plane: PlaneData,
    pub vertex: Vec<Vertex>,
}

/// What a [`SavePlaneData`] holds.
pub struct SaveView {
    pub plane: PlaneView,
    pub vertex: Seq<Vertex>,
}

impl View for SavePlaneData {
    type V = SaveView;

    open spec fn view(&self) -> SaveView {
        SaveView { plane: self.plane@, vertex: self.vertex@ }
    }
}

impl SaveView {
    /// The record's plane has a grid that can be built.
    pub open spec fn loadable(self) -> bool {
        self.plane.grid().fits()
    }

    /// The mesh that the record stands for: the plane's own mesh with the
    /// overrides written over it in order.
    pub open spec fn mesh(self) -> MeshView {
        overlaid(self.plane.mesh(), self.vertex)
    }

    /// The overrides that name no vertex of the plane's mesh: their places
    /// in the record.
    pub open spec fn stale(self) -> Seq<usize> {
        rejected(self.vertex, self.plane.grid().vertex_count(), self.vertex.len() as int)
    }

    /// Loading a record gives a well-formed mesh of the plane's grid size.
    pub proof fn lemma_mesh_wf(self)
        requires
            self.loadable(),
        ensures
            self.mesh().wf(),
            self.mesh().positions.len() == self.plane.grid().vertex_count(),
    {
        self.plane.grid().lemma_mesh_wf();
        self.plane.lemma_applied_wf(self.plane.grid().mesh());
        lemma_overlaid_shape(self.plane.mesh(), self.vertex);
    }

    /// In the loaded mesh an override decides its vertex, whatever the
    /// plane's modifiers computed there: the vertex named by override `k`
    /// holds that override's position and colour, provided the index lies
    /// in the mesh and no later override names it again.
    pub proof fn lemma_override_precedence(self, k: int)
        requires
            self.loadable(),
            0 <= k < self.vertex.len(),
            self.vertex[k].index < self.plane.grid().vertex_count(),
            forall|j: int| k < j < self.vertex.len() ==> self.vertex[j].index != self.vertex[k].index,
        ensures
            self.mesh().positions[self.vertex[k].index as int] == self.vertex[k].loc,
            self.mesh().colors[self.vertex[k].index as int] == self.vertex[k].clr,
    {
        self.plane.grid().lemma_mesh_wf();
        self.plane.lemma_applied_wf(self.plane.grid().mesh());
        lemma_override_wins(self.plane.mesh(), self.vertex, k);
    }

    /// In the loaded mesh a vertex that no override names holds what the
    /// plane alone computes for it.
    pub proof fn lemma_procedural_elsewhere(self, i: int)
        requires
            self.loadable(),
            0 <= i < self.plane.grid().vertex_count(),
            forall|j: int| 0 <= j < self.vertex.len() ==> self.vertex[j].index != i,
        ensures
            self.mesh().positions[i] == self.plane.mesh().positions[i],
            self.mesh().colors[i] == self.plane.mesh().colors[i],
    {
        self.plane.grid().lemma_mesh_wf();
        self.plane.lemma_applied_wf(self.plane.grid().mesh());
        lemma_untouched(self.plane.mesh(), self.vertex, i);
    }
}

/// Saving the vertices of a plane's live mesh and loading the record gives
/// that mesh back: the same position and colour at every vertex, whatever
/// edits the live mesh had taken since the plane built it.
pub proof fn lemma_save_load_round_trip(plane: PlaneView, live: MeshView)
    requires
        plane.grid().fits(),
        live.positions.len() == plane.grid().vertex_count(),
        live.colors.len() == live.positions.len(),
    ensures
        (SaveView { plane, vertex: vertices_of(live) }).mesh().positions == live.positions,
        (SaveView { plane, vertex: vertices_of(live) }).mesh().colors == live.colors,
{
    plane.grid().lemma_mesh_wf();
    plane.lemma_applied_wf(plane.grid().mesh());
    lemma_vertices_restore(live, plane.mesh());
}

/// A plane rebuilt from its record: the mesh, and the places in the record
/// of the overrides that named no vertex of it and were passed over.
#[derive(Debug, PartialEq, Eq)]
pub struct Spawned {
    pub mesh: Mesh,
    pub skipped: Vec<usize>,
}

impl SavePlaneData {
    /// The record of a plane on which nothing was authored.
    pub fn from_pd(pd: &PlaneData) -> (record: SavePlaneData)
        ensures
            record@.plane == pd@,
            record@.vertex == Seq::<Vertex>::empty(),
    {
        SavePlaneData { plane: pd.clone(), vertex: Vec::new() }
    }

    /// Rebuilds the plane: builds the grid, lets the plane deform and
    /// colour it, then writes the overrides over the result in the order of
    /// the record. Overrides that name no vertex of the mesh are passed
    /// over and reported. `None` where the plane's grid is too large to be
    /// built.
    pub fn spawn(&self) -> (spawned: Option<Spawned>)
        ensures
            match spawned {
                Some(s) => {
                    &&& self@.loadable()
                    &&& s.mesh@ == self@.mesh()
                    &&& s.mesh@.wf()
                    &&& s.skipped@ == self@.stale()
                },
                None => !self@.loadable(),
            },
    {
        match spawn_plane(&self.plane) {
            Some(mut mesh) => {
                proof {
                    self@.lemma_mesh_wf();
                    self.plane@.grid().lemma_mesh_wf();
                    self.plane@.lemma_applied_wf(self.plane@.grid().mesh());
                }
                let skipped = vertex_update_vertex(&mut mesh, &self.vertex);
                Some(Spawned { mesh, skipped })
            },
            None => None,
        }
    }
}

/// A plane as the scene holds it: its configuration and the entities
/// attached to it, by their place among the scene's vertices.
#[derive(Debug, PartialEq, Eq)]
pub struct PlaneEntity {
    pub data: PlaneData,
    pub children: Vec<usize>,
}

/// The overrides among the first `k` of `children`, in order: a child
/// counts where it is the place of a vertex of the scene.
pub open spec fn collected(children: Seq<usize>, arena: Seq<VertexEntity>, k: int) -> Seq<Vertex>
    decreases k,
{
    if k <= 0 {
        Seq::empty()
    } else {
        let before = collected(children, arena, k - 1);
        let c = children[k - 1];
        if c < arena.len() {
            before.push(arena[c as int].vertex)
        } else {
            before
        }
    }
}

/// The overrides attached to a plane, in the order of its children.
pub fn collect_vertices(children: &Vec<usize>, arena: &Vec<VertexEntity>) -> (found: Vec<Vertex>)
    ensures
        found@ == collected(children@, arena@, children@.len() as int),
{
    let mut found: Vec<Vertex> = Vec::new();
    let mut k: usize = 0;
    while k < children.len()
        invariant
            k <= children.len(),
            found@ == collected(children@, arena@, k as int),
        decreases children.len() - k,
    {
        let c = children[k];
        if c < arena.len() {
            found.push(arena[c].vertex);
        }
        k += 1;
    }
    found
}

/// Gathers the scene into records: one for each plane, in order, holding the
/// plane's configuration and the overrides attached to it.
pub fn write_data(vertex: &Vec<VertexEntity>, planes: &Vec<PlaneEntity>) -> (v: Vec<SavePlaneData>)
    ensures
        v@.len() == planes@.len(),
        forall|i: int|
            0 <= i < planes@.len() ==> (#[trigger] v@[i])@.plane == planes@[i].data@ && v@[i]@.vertex
                == collected(planes@[i].children@, vertex@, planes@[i].children@.len() as int),
{
    let mut v: Vec<SavePlaneData> = Vec::new();
    let mut i: usize = 0;
    while i < planes.len()
        invariant
            i <= planes.len(),
            v@.len() == i,
            forall|j: int|
                0 <= j < i ==> (#[trigger] v@[j])@.plane == planes@[j].data@ && v@[j]@.vertex
                    == collected(planes@[j].children@, vertex@, planes@[j].children@.len() as int),
        decreases planes.len() - i,
    {
        let mut spd = SavePlaneData::from_pd(&planes[i].data);
        spd.vertex = collect_vertices(&planes[i].children, vertex);
        v.push(spd);
        i += 1;
    }
    v
}

/// Why a scene could not be loaded.
#[derive(Debug, Clone, Copy, PartialEq, Eq, Structural)]
pub enum LoadError {
    /// The record at this place describes a grid too large to be built.
    GridTooLarge(usize),
}

/// Rebuilds every plane of a saved scene, in order. The load is all or
/// nothing: the first record whose grid cannot be built ends it with an
/// error that names the record, and no plane is handed out.
pub fn load_data(vspds: &Vec<SavePlaneData>) -> (loaded: Result<Vec<Spawned>, LoadError>)
    ensures
        match loaded {
            Ok(scene) => {
                &&& scene@.len() == vspds@.len()
                &&& forall|i: int|
                    0 <= i < vspds@.len() ==> {
                        &&& (#[trigger] vspds@[i])@.loadable()
                        &&& scene@[i].mesh@ == vspds@[i]@.mesh()
                        &&& scene@[i].mesh@.wf()
                        &&& scene@[i].skipped@ == vspds@[i]@.stale()
                    }
            },
            Err(LoadError::GridTooLarge(at)) => {
                &&& at < vspds@.len()
                &&& !vspds@[at as int]@.loadable()
                &&& forall|j: int| 0 <= j < at ==> (#[trigger] vspds@[j])@.loadable()
            },
        },
{
    let mut scene: Vec<Spawned> = Vec::new();
    let mut i: usize = 0;
    while i < vspds.len()
        invariant
            i <= vspds.len(),
            scene@.len() == i,
            forall|j: int|
                0 <= j < i ==> {
                    &&& (#[trigger] vspds@[j])@.loadable()
                    &&& scene@[j].mesh@ == vspds@[j]@.mesh()
                    &&& scene@[j].mesh@.wf()
                    &&& scene@[j].skipped@ == vspds@[j]@.stale()
                },
        decreases vspds.len() - i,
    {
        match vspds[i].spawn() {
            Some(s) => {
                scene.push(s);
            },
            None => {
                return Err(LoadError::GridTooLarge(i));
            },
        }
        i += 1;
    }
    Ok(scene)
}

} // verus!
