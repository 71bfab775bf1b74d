//! Authored vertices: per-vertex overrides of a plane's mesh, and the two
//! directions in which an override and the mesh are kept in step.

use vstd::prelude::*;
use crate::scalar::{Scalar, ONE, clamp, saturate};
use crate::mesh::{Mesh, MeshView, white, filled};
use crate::color_gradient::ColorGradient;
use crate::modifiers::{ColorData, ValueData, TerraceData, with_height, set_height};
use crate::noise::{NoiseData, NoiseFn};
use crate::wave::WaveData;

verus! {

/// One authored vertex: the index of a vertex in its plane's buffers, and
/// the position and colour that the vertex is to have there.
#[derive(Debug, Clone, Copy, PartialEq, Eq)]
pub struct Vertex {
    pub index: usize,
    pub loc: [Scalar; 3],
    pub clr: [Scalar; 4],
}

impl Vertex {
    /// The override of vertex `index` with position `loc` and colour `clr`.
    pub fn new(index: usize, loc: &[Scalar; 3], clr: &[Scalar; 4]) -> (vertex: Vertex)
        ensures
            vertex.index == index,
            vertex.loc == *loc,
            vertex.clr == *clr,
    {
        Vertex { loc: *loc, clr: *clr, index }
    }
}

/// A vertex as the scene holds it: the override, the place where its
/// handle stands, and whether the user has picked it.
#[derive(Debug, Clone, Copy, PartialEq, Eq)]
pub struct VertexEntity {
    pub translation: [Scalar; 3],
    pub vertex: Vertex,
    pub picked: bool,
}

/// A click on the handle of a vertex, named by its place in the scene.
#[derive(Debug, Clone, Copy, PartialEq, Eq)]
pub struct PickVertex {
    pub entity: usize,
}

/// Where the pointer is over the ground, and where it was a moment ago.
#[derive(Debug, Clone, Copy, PartialEq, Eq)]
pub struct HoverData {
    pub hovered_xz: (Scalar, Scalar),
    pub old_hovered_xz: (Scalar, Scalar),
}

/// The kinds of modifier that the editor applies to picked vertices.
#[derive(Debug, Clone, Copy, PartialEq, Eq, Structural)]
pub enum ModifierState {
    Color,
    ColorGradient,
    Value,
    Noise,
    Wave,
    Terrace,
}

/// A request to apply one kind of modifier to the picked vertices.
#[derive(Debug, Clone, Copy, PartialEq, Eq)]
pub struct ApplyModifierEvent {
    pub mod_type: ModifierState,
}

/// The modifier settings of the editor, one of each kind.
#[derive(Debug, Clone, Copy, PartialEq, Eq)]
pub struct ModResources {
    pub color: ColorData,
    pub color_gradient: ColorGradient,
    pub value: ValueData,
    pub noise: NoiseData,
    pub wave: WaveData,
    pub terrace: TerraceData,
}

/// The positions after the first `k` overrides were written, in order. An
/// override whose index lies outside the buffer writes nothing.
pub open spec fn overlaid_positions(positions: Seq<[Scalar; 3]>, vertices: Seq<Vertex>, k: int) -> Seq<
    [Scalar; 3],
>
    decreases k,
{
    if k <= 0 {
        positions
    } else {
        let before = overlaid_positions(positions, vertices, k - 1);
        let v = vertices[k - 1];
        if v.index < before.len() {
            before.update(v.index as int, v.loc)
        } else {
            before
        }
    }
}

/// The colours after the first `k` overrides were written, in order, into
/// the colours of a mesh of `n` vertices. An override that names none of
/// the `n` vertices writes nothing.
pub open spec fn overlaid_colors(colors: Seq<[Scalar; 4]>, vertices: Seq<Vertex>, n: int, k: int)
    -> Seq<[Scalar; 4]>
    decreases k,
{
    if k <= 0 {
        colors
    } else {
        let before = overlaid_colors(colors, vertices, n, k - 1);
        let v = vertices[k - 1];
        if v.index < n && v.index < before.len() {
            before.update(v.index as int, v.clr)
        } else {
            before
        }
    }
}

/// Which of the first `k` overrides name no vertex of a buffer of `len`
/// vertices: their places in the list, in order.
pub open spec fn rejected(vertices: Seq<Vertex>, len: int, k: int) -> Seq<usize>
    decreases k,
{
    if k <= 0 {
        Seq::empty()
    } else {
        let before = rejected(vertices, len, k - 1);
        if vertices[k - 1].index >= len {
            before.push((k - 1) as usize)
        } else {
            before
        }
    }
}

/// The mesh with all of `vertices` written over it. The mesh first gets a
/// colour for every vertex, white where it held none; then each override
/// that names a vertex of the mesh puts its position and its colour there.
pub open spec fn overlaid(mesh: MeshView, vertices: Seq<Vertex>) -> MeshView {
    MeshView {
        positions: overlaid_positions(mesh.positions, vertices, vertices.len() as int),
        normals: mesh.normals,
        uvs: mesh.uvs,
        colors: overlaid_colors(
            filled(mesh.colors, mesh.positions.len() as int),
            vertices,
            mesh.positions.len() as int,
            vertices.len() as int,
        ),
        indices: mesh.indices,
    }
}

/// Writing overrides changes no buffer's length.
pub proof fn lemma_overlaid_len(
    positions: Seq<[Scalar; 3]>,
    colors: Seq<[Scalar; 4]>,
    vertices: Seq<Vertex>,
    n: int,
    k: int,
)
    requires
        0 <= k <= vertices.len(),
    ensures
        overlaid_positions(positions, vertices, k).len() == positions.len(),
        overlaid_colors(colors, vertices, n, k).len() == colors.len(),
    decreases k,
{
    if k > 0 {
        lemma_overlaid_len(positions, colors, vertices, n, k - 1);
    }
}

/// A mesh with overrides written over it has as many vertices as before and
/// a colour for each of them.
pub proof fn lemma_overlaid_shape(mesh: MeshView, vertices: Seq<Vertex>)
    ensures
        overlaid(mesh, vertices).positions.len() == mesh.positions.len(),
        overlaid(mesh, vertices).colors.len() == filled(
            mesh.colors,
            mesh.positions.len() as int,
        ).len(),
        overlaid(mesh, vertices).colors.len() >= mesh.positions.len(),
        mesh.colors.len() <= mesh.positions.len() ==> overlaid(mesh, vertices).colors.len()
            == mesh.positions.len(),
        mesh.wf() ==> overlaid(mesh, vertices).wf(),
{
    lemma_overlaid_len(
        mesh.positions,
        filled(mesh.colors, mesh.positions.len() as int),
        vertices,
        mesh.positions.len() as int,
        vertices.len() as int,
    );
}

/// The last override that names a vertex decides it: where override `k`
/// names a vertex of the mesh and no override after it names the same one,
/// the mesh holds the position and the colour of override `k` at that
/// vertex, whatever it held before.
pub proof fn lemma_override_wins(mesh: MeshView, vertices: Seq<Vertex>, k: int)
    requires
        0 <= k < vertices.len(),
        vertices[k].index < mesh.positions.len(),
        forall|j: int| k < j < vertices.len() ==> vertices[j].index != vertices[k].index,
    ensures
        overlaid(mesh, vertices).positions[vertices[k].index as int] == vertices[k].loc,
        overlaid(mesh, vertices).colors[vertices[k].index as int] == vertices[k].clr,
{
    lemma_kept_after(
        mesh.positions,
        filled(mesh.colors, mesh.positions.len() as int),
        vertices,
        k,
        vertices.len() as int,
    );
}

/// An override written at place `k` is still in the buffers after `n`
/// overrides if none between them has its index.
proof fn lemma_kept_after(
    positions: Seq<[Scalar; 3]>,
    colors: Seq<[Scalar; 4]>,
    vertices: Seq<Vertex>,
    k: int,
    n: int,
)
    requires
        0 <= k < n <= vertices.len(),
        vertices[k].index < positions.len(),
        colors.len() >= positions.len(),
        forall|j: int| k < j < n ==> vertices[j].index != vertices[k].index,
    ensures
        overlaid_positions(positions, vertices, n)[vertices[k].index as int] == vertices[k].loc,
        overlaid_colors(colors, vertices, positions.len() as int, n)[vertices[k].index as int]
            == vertices[k].clr,
    decreases n,
{
    lemma_overlaid_len(positions, colors, vertices, positions.len() as int, n - 1);
    if n - 1 > k {
        lemma_kept_after(positions, colors, vertices, k, n - 1);
    }
}

/// A vertex that no override names keeps its position, and keeps its colour
/// or, where the mesh held none for it, is white.
pub proof fn lemma_untouched(mesh: MeshView, vertices: Seq<Vertex>, i: int)
    requires
        0 <= i,
        forall|j: int| 0 <= j < vertices.len() ==> vertices[j].index != i,
    ensures
        i < mesh.positions.len() ==> overlaid(mesh, vertices).positions[i] == mesh.positions[i],
        i < mesh.colors.len() ==> overlaid(mesh, vertices).colors[i] == mesh.colors[i],
        mesh.colors.len() <= i < mesh.positions.len() ==> overlaid(mesh, vertices).colors[i]
            == white(),
{
    lemma_left_alone(
        mesh.positions,
        filled(mesh.colors, mesh.positions.len() as int),
        vertices,
        mesh.positions.len() as int,
        i,
        vertices.len() as int,
    );
}

/// A place that none of the first `k` overrides names holds what the
/// buffers held.
proof fn lemma_left_alone(
    positions: Seq<[Scalar; 3]>,
    colors: Seq<[Scalar; 4]>,
    vertices: Seq<Vertex>,
    n: int,
    i: int,
    k: int,
)
    requires
        0 <= i,
        0 <= k <= vertices.len(),
        forall|j: int| 0 <= j < k ==> vertices[j].index != i,
    ensures
        i < positions.len() ==> overlaid_positions(positions, vertices, k)[i] == positions[i],
        i < colors.len() ==> overlaid_colors(colors, vertices, n, k)[i] == colors[i],
    decreases k,
{
    if k > 0 {
        lemma_overlaid_len(positions, colors, vertices, n, k - 1);
        lemma_left_alone(positions, colors, vertices, n, i, k - 1);
    }
}

/// The overrides that hold a whole mesh: one for each vertex, with the
/// position and colour that the mesh has there. A vertex for which the mesh
/// holds no colour is white.
pub open spec fn vertices_of(mesh: MeshView) -> Seq<Vertex> {
    Seq::new(
        mesh.positions.len(),
        |i: int|
            Vertex {
                index: i as usize,
                loc: mesh.positions[i],
                clr: if i < mesh.colors.len() {
                    mesh.colors[i]
                } else {
                    white()
                },
            },
    )
}

/// The overrides taken from a mesh bring its positions and colours back
/// when they are written over any mesh of as many vertices.
pub proof fn lemma_vertices_restore(mesh: MeshView, rebuilt: MeshView)
    requires
        mesh.colors.len() == mesh.positions.len(),
        rebuilt.positions.len() == mesh.positions.len(),
        rebuilt.colors.len() <= mesh.positions.len(),
        mesh.positions.len() <= usize::MAX,
    ensures
        overlaid(rebuilt, vertices_of(mesh)).positions == mesh.positions,
        overlaid(rebuilt, vertices_of(mesh)).colors == mesh.colors,
{
    let vs = vertices_of(mesh);
    let out = overlaid(rebuilt, vs);
    lemma_overlaid_shape(rebuilt, vs);
    assert forall|i: int| 0 <= i < mesh.positions.len() implies out.positions[i]
        == mesh.positions[i] && out.colors[i] == mesh.colors[i] by {
        assert(vs[i].index == i);
        assert forall|j: int| i < j < vs.len() implies vs[j].index != vs[i].index by {
            assert(vs[j].index == j);
        }
        lemma_override_wins(rebuilt, vs, i);
    }
    assert(out.positions =~= mesh.positions);
    assert(out.colors =~= mesh.colors);
}

/// Writes every override into the mesh, in the order given. First the mesh
/// gets a colour for every vertex: white where it held none. Then position
/// and colour of each override go to the override's index, over whatever
/// stood there. An override whose index names no vertex of the mesh writes
/// neither position nor colour; the places of those overrides in
/// `vertices` are returned.
pub fn vertex_update_vertex(mesh: &mut Mesh, vertices: &Vec<Vertex>) -> (skipped: Vec<usize>)
    ensures
        final(mesh)@ == overlaid(old(mesh)@, vertices@),
        final(mesh)@.positions.len() == old(mesh)@.positions.len(),
        final(mesh)@.colors.len() >= old(mesh)@.positions.len(),
        old(mesh)@.colors.len() <= old(mesh)@.positions.len() ==> final(mesh)@.colors.len() == old(
            mesh,
        )@.positions.len(),
        old(mesh)@.colors.len() >= old(mesh)@.positions.len() ==> final(mesh)@.colors.len() == old(
            mesh,
        )@.colors.len(),
        old(mesh)@.wf() ==> final(mesh)@.wf(),
        skipped@ == rejected(vertices@, old(mesh)@.positions.len() as int, vertices@.len() as int),
        forall|k: int|
            0 <= k < vertices@.len() && (#[trigger] vertices@[k]).index < old(mesh)@.positions.len()
                && (forall|j: int| k < j < vertices@.len() ==> vertices@[j].index != vertices@[k].index)
                ==> final(mesh)@.positions[vertices@[k].index as int] == vertices@[k].loc
                && final(mesh)@.colors[vertices@[k].index as int] == vertices@[k].clr,
        forall|i: int|
            0 <= i < old(mesh)@.positions.len() && (forall|j: int|
                0 <= j < vertices@.len() ==> vertices@[j].index != i) ==> (
            #[trigger] final(mesh)@.positions[i]) == old(mesh)@.positions[i],
        forall|i: int|
            0 <= i < old(mesh)@.colors.len() && (forall|j: int|
                0 <= j < vertices@.len() ==> vertices@[j].index != i) ==> (
            #[trigger] final(mesh)@.colors[i]) == old(mesh)@.colors[i],
        forall|i: int|
            old(mesh)@.colors.len() <= i < old(mesh)@.positions.len() && (forall|j: int|
                0 <= j < vertices@.len() ==> vertices@[j].index != i) ==> (
            #[trigger] final(mesh)@.colors[i]) == white(),
{
    let mut skipped: Vec<usize> = Vec::new();
    mesh.fill_colors();
    let n = mesh.positions.len();
    let ghost start = mesh.colors@;
    let mut k: usize = 0;
    while k < vertices.len()
        invariant
            k <= vertices.len(),
            n == old(mesh)@.positions.len(),
            start == filled(old(mesh)@.colors, n as int),
            start.len() >= n,
            mesh.positions@.len() == n,
            mesh.colors@.len() == start.len(),
            mesh.positions@ == overlaid_positions(old(mesh)@.positions, vertices@, k as int),
            mesh.colors@ == overlaid_colors(start, vertices@, n as int, k as int),
            mesh.normals@ == old(mesh)@.normals,
            mesh.uvs@ == old(mesh)@.uvs,
            mesh.indices@ == old(mesh)@.indices,
            skipped@ == rejected(vertices@, n as int, k as int),
        decreases vertices.len() - k,
    {
        let v = vertices[k];
        if v.index < n {
            mesh.positions[v.index] = v.loc;
            mesh.colors[v.index] = v.clr;
        } else {
            skipped.push(k);
        }
        k += 1;
    }
    proof {
        lemma_overlaid_shape(old(mesh)@, vertices@);
        assert forall|k: int|
            0 <= k < vertices@.len() && (#[trigger] vertices@[k]).index < n && (forall|j: int|
                k < j < vertices@.len() ==> vertices@[j].index != vertices@[k].index) implies mesh@.positions[vertices@[k].index as int]
            == vertices@[k].loc && mesh@.colors[vertices@[k].index as int] == vertices@[k].clr by {
            lemma_override_wins(old(mesh)@, vertices@, k);
        }
        assert forall|i: int|
            0 <= i < n && (forall|j: int|
                0 <= j < vertices@.len() ==> vertices@[j].index != i) implies (
        #[trigger] mesh@.positions[i]) == old(mesh)@.positions[i] by {
            lemma_untouched(old(mesh)@, vertices@, i);
        }
        assert forall|i: int|
            0 <= i < old(mesh)@.colors.len() && (forall|j: int|
                0 <= j < vertices@.len() ==> vertices@[j].index != i) implies (
        #[trigger] mesh@.colors[i]) == old(mesh)@.colors[i] by {
            lemma_untouched(old(mesh)@, vertices@, i);
        }
        assert forall|i: int|
            old(mesh)@.colors.len() <= i < n && (forall|j: int|
                0 <= j < vertices@.len() ==> vertices@[j].index != i) implies (
        #[trigger] mesh@.colors[i]) == white() by {
            lemma_untouched(old(mesh)@, vertices@, i);
        }
    }
    skipped
}

/// Lets the override follow its handle: the override takes the handle's
/// place as its position. Index, colour, handle and picked state stay.
pub fn follow_handle(entity: &mut VertexEntity)
    ensures
        final(entity).vertex.loc == old(entity).translation,
        final(entity).translation == old(entity).translation,
        final(entity).vertex.index == old(entity).vertex.index,
        final(entity).vertex.clr == old(entity).vertex.clr,
        final(entity).picked == old(entity).picked,
{
    entity.vertex.loc = entity.translation;
}

/// Follows a handle that was moved: the override takes the handle's place
/// as its position, and the mesh takes it at the override's index. Where
/// that index lies outside the buffer the mesh stays as it is and `false`
/// is returned; the override follows its handle all the same.
pub fn vertex_update_transform(entity: &mut VertexEntity, mesh: &mut Mesh) -> (written: bool)
    ensures
        final(entity).translation == old(entity).translation,
        final(entity).vertex.loc == old(entity).translation,
        final(entity).vertex.index == old(entity).vertex.index,
        final(entity).vertex.clr == old(entity).vertex.clr,
        final(entity).picked == old(entity).picked,
        written == (old(entity).vertex.index < old(mesh)@.positions.len()),
        written ==> final(mesh)@.positions == old(mesh)@.positions.update(
            old(entity).vertex.index as int,
            old(entity).translation,
        ),
        !written ==> final(mesh)@.positions == old(mesh)@.positions,
        final(mesh)@.normals == old(mesh)@.normals,
        final(mesh)@.uvs == old(mesh)@.uvs,
        final(mesh)@.colors == old(mesh)@.colors,
        final(mesh)@.indices == old(mesh)@.indices,
{
    let written = entity.vertex.index < mesh.positions.len();
    if written {
        mesh.positions[entity.vertex.index] = entity.translation;
    }
    follow_handle(entity);
    written
}

/// One coordinate moved by the pointer's travel from `from` to `to`,
/// clamped into the scalar range.
pub open spec fn dragged(c: int, from: int, to: int) -> int {
    clamp(c + (to - from))
}

/// A handle's place after the pointer travelled as `hover` says: X and Z
/// follow the pointer, the height stays.
pub open spec fn dragged_place(place: [Scalar; 3], hover: HoverData) -> [Scalar; 3] {
    [
        dragged(place[0] as int, hover.old_hovered_xz.0 as int, hover.hovered_xz.0 as int) as Scalar,
        place[1],
        dragged(place[2] as int, hover.old_hovered_xz.1 as int, hover.hovered_xz.1 as int) as Scalar,
    ]
}

/// A vertex after a drag: its handle moved if it is picked, else as it was.
pub open spec fn dragged_entity(e: VertexEntity, hover: HoverData) -> VertexEntity {
    if e.picked {
        VertexEntity {
            translation: dragged_place(e.translation, hover),
            vertex: e.vertex,
            picked: true,
        }
    } else {
        e
    }
}

/// Moves the handle of every picked vertex by the pointer's travel over the
/// ground. The overrides themselves follow in [`vertex_update_transform`].
pub fn drag(picked_vertex: &mut Vec<VertexEntity>, hover_data: &HoverData)
    ensures
        final(picked_vertex)@.len() == old(picked_vertex)@.len(),
        forall|i: int|
            0 <= i < old(picked_vertex)@.len() ==> (#[trigger] final(picked_vertex)@[i])
                == dragged_entity(old(picked_vertex)@[i], *hover_data),
{
    let delta_x: i64 = hover_data.hovered_xz.0 as i64 - hover_data.old_hovered_xz.0 as i64;
    let delta_y: i64 = hover_data.hovered_xz.1 as i64 - hover_data.old_hovered_xz.1 as i64;
    let n = picked_vertex.len();
    let mut i: usize = 0;
    while i < n
        invariant
            i <= n,
            n == old(picked_vertex)@.len(),
            picked_vertex@.len() == n,
            delta_x == hover_data.hovered_xz.0 - hover_data.old_hovered_xz.0,
            delta_y == hover_data.hovered_xz.1 - hover_data.old_hovered_xz.1,
            forall|j: int|
                0 <= j < i ==> (#[trigger] picked_vertex@[j]) == dragged_entity(
                    old(picked_vertex)@[j],
                    *hover_data,
                ),
            forall|j: int| i <= j < n ==> picked_vertex@[j] == old(picked_vertex)@[j],
        decreases n - i,
    {
        let e = picked_vertex[i];
        if e.picked {
            let to = [
                saturate(e.translation[0] as i128 + delta_x as i128),
                e.translation[1],
                saturate(e.translation[2] as i128 + delta_y as i128),
            ];
            assert(to =~= dragged_place(e.translation, *hover_data));
            picked_vertex[i] = VertexEntity { translation: to, vertex: e.vertex, picked: true };
        }
        i += 1;
    }
}

impl ModResources {
    /// What one application of the modifier kind `mod_type` makes of a
    /// vertex. A vertex that is not picked stays as it is. On a picked one,
    /// colour kinds set the override's colour; height kinds set the height
    /// of the override and of its handle; a wave moves both to a new
    /// position. The noise field is laid out from the vertex itself: its
    /// own position stands for the plane's origin.
    pub open spec fn edited(self, mod_type: ModifierState, e: VertexEntity) -> VertexEntity {
        self.edited_with(mod_type, self.noise.field(), e)
    }

    /// What one application of the modifier kind `mod_type` makes of a
    /// vertex, where `nfn` is the noise field to read.
    pub open spec fn edited_with(self, mod_type: ModifierState, nfn: NoiseFn, e: VertexEntity)
        -> VertexEntity {
        if e.picked {
            self.edited_picked(mod_type, nfn, e)
        } else {
            e
        }
    }

    /// What one application of the modifier kind `mod_type` makes of a
    /// picked vertex.
    pub open spec fn edited_picked(self, mod_type: ModifierState, nfn: NoiseFn, e: VertexEntity)
        -> VertexEntity {
        let v = e.vertex;
        match mod_type {
            ModifierState::Color => VertexEntity {
                translation: e.translation,
                vertex: Vertex { index: v.index, loc: v.loc, clr: self.color.clr },
                picked: e.picked,
            },
            ModifierState::ColorGradient => VertexEntity {
                translation: e.translation,
                vertex: Vertex {
                    index: v.index,
                    loc: v.loc,
                    clr: self.color_gradient.color_at(v.loc[1] as int),
                },
                picked: e.picked,
            },
            ModifierState::Value => Self::raised(e, self.value.height_at(v.loc) as Scalar),
            ModifierState::Noise => Self::raised(
                e,
                nfn.height_at(v.loc[0] + v.loc[0], v.loc[2] + v.loc[2]) as Scalar,
            ),
            ModifierState::Wave => VertexEntity {
                translation: self.wave.moved(v.loc),
                vertex: Vertex { index: v.index, loc: self.wave.moved(v.loc), clr: v.clr },
                picked: e.picked,
            },
            ModifierState::Terrace => Self::raised(
                e,
                self.terrace.terraced(v.loc[1] as int) as Scalar,
            ),
        }
    }

    /// The vertex and its handle with their height set to `height`.
    pub open spec fn raised(e: VertexEntity, height: Scalar) -> VertexEntity {
        VertexEntity {
            translation: with_height(e.translation, height),
            vertex: Vertex {
                index: e.vertex.index,
                loc: with_height(e.vertex.loc, height),
                clr: e.vertex.clr,
            },
            picked: e.picked,
        }
    }

    /// What the first `k` of `events`, applied in order, make of a vertex.
    pub open spec fn edited_by(self, events: Seq<ApplyModifierEvent>, k: int, e: VertexEntity)
        -> VertexEntity
        decreases k,
    {
        if k <= 0 {
            e
        } else {
            self.edited(events[k - 1].mod_type, self.edited_by(events, k - 1, e))
        }
    }

    /// Applies one kind of modifier to one vertex, if it is picked. `nfn` is
    /// the noise field made ready for this pass.
    pub fn edit(&self, mod_type: ModifierState, nfn: &NoiseFn, e: &VertexEntity) -> (to: VertexEntity)
        ensures
            to == self.edited_with(mod_type, *nfn, *e),
            *nfn == self.noise.field() ==> to == self.edited(mod_type, *e),
    {
        if !e.picked {
            return *e;
        }
        let mut tr = e.translation;
        let mut v = e.vertex;
        match mod_type {
            ModifierState::Color => {
                v.clr = self.color.apply();
            },
            ModifierState::ColorGradient => {
                v.clr = self.color_gradient.apply(v.loc[1]);
            },
            ModifierState::Value => {
                let height = self.value.apply(&v.loc);
                v.loc = set_height(&v.loc, height);
                tr = set_height(&tr, height);
            },
            ModifierState::Noise => {
                let noise_height = self.noise.apply(nfn, &v.loc, &v.loc);
                v.loc = set_height(&v.loc, noise_height);
                tr = set_height(&tr, noise_height);
            },
            ModifierState::Wave => {
                let pos = self.wave.apply(&v.loc);
                v.loc = pos;
                tr = pos;
            },
            ModifierState::Terrace => {
                let height = self.terrace.apply(v.loc[1]);
                v.loc = set_height(&v.loc, height);
                tr = set_height(&tr, height);
            },
        }
        VertexEntity { translation: tr, vertex: v, picked: e.picked }
    }
}

/// Applies each requested modifier, in the order of the requests, to every
/// picked vertex; the others stay as they are. Each request makes its noise
/// field ready once and uses it for all the vertices.
pub fn apply_modifiers(
    apply_mod: &Vec<ApplyModifierEvent>,
    mod_res: &ModResources,
    picked_vertex: &mut Vec<VertexEntity>,
)
    ensures
        final(picked_vertex)@.len() == old(picked_vertex)@.len(),
        forall|i: int|
            0 <= i < old(picked_vertex)@.len() ==> (#[trigger] final(picked_vertex)@[i])
                == mod_res.edited_by(apply_mod@, apply_mod@.len() as int, old(picked_vertex)@[i]),
{
    let n = picked_vertex.len();
    let mut k: usize = 0;
    while k < apply_mod.len()
        invariant
            k <= apply_mod.len(),
            n == old(picked_vertex)@.len(),
            picked_vertex@.len() == n,
            forall|i: int|
                0 <= i < n ==> (#[trigger] picked_vertex@[i]) == mod_res.edited_by(
                    apply_mod@,
                    k as int,
                    old(picked_vertex)@[i],
                ),
        decreases apply_mod.len() - k,
    {
        let ev = apply_mod[k];
        let nfn = mod_res.noise.set();
        let ghost before = picked_vertex@;
        let mut i: usize = 0;
        while i < n
            invariant
                i <= n,
                k < apply_mod.len(),
                ev == apply_mod@[k as int],
                nfn == mod_res.noise.field(),
                picked_vertex@.len() == n,
                before.len() == n,
                forall|j: int|
                    0 <= j < i ==> (#[trigger] picked_vertex@[j]) == mod_res.edited(
                        ev.mod_type,
                        before[j],
                    ),
                forall|j: int| i <= j < n ==> picked_vertex@[j] == before[j],
            decreases n - i,
        {
            let e = picked_vertex[i];
            let to = mod_res.edit(ev.mod_type, &nfn, &e);
            picked_vertex[i] = to;
            i += 1;
        }
        k += 1;
    }
}

/// Whether vertex `i` is picked after the first `k` clicks. A click picks
/// its vertex; without the shift key it also drops every other vertex that
/// was picked before the clicks began.
pub open spec fn picked_after(
    before: Seq<VertexEntity>,
    events: Seq<PickVertex>,
    shift: bool,
    k: int,
    i: int,
) -> bool
    decreases k,
{
    if k <= 0 {
        before[i].picked
    } else if events[k - 1].entity == i {
        true
    } else if !shift && before[i].picked {
        false
    } else {
        picked_after(before, events, shift, k - 1, i)
    }
}

/// Takes the clicks on vertex handles, in order. Each click picks its
/// vertex. While the shift key is up, a click also drops the vertices that
/// were picked when the clicks began, so that only the clicked one stays;
/// with shift down the picked set grows. A click that names no vertex of
/// the scene picks nothing.
pub fn pick_vertex(vertex: &mut Vec<VertexEntity>, pick_vertex_event: &Vec<PickVertex>, shift: bool)
    ensures
        final(vertex)@.len() == old(vertex)@.len(),
        forall|i: int|
            0 <= i < old(vertex)@.len() ==> {
                &&& (#[trigger] final(vertex)@[i]).picked == picked_after(
                    old(vertex)@,
                    pick_vertex_event@,
                    shift,
                    pick_vertex_event@.len() as int,
                    i,
                )
                &&& final(vertex)@[i].vertex == old(vertex)@[i].vertex
                &&& final(vertex)@[i].translation == old(vertex)@[i].translation
            },
{
    let n = vertex.len();
    let mut was_picked: Vec<bool> = Vec::new();
    let mut i: usize = 0;
    while i < n
        invariant
            i <= n,
            n == vertex@.len(),
            vertex@ == old(vertex)@,
            was_picked@.len() == i,
            forall|j: int| 0 <= j < i ==> was_picked@[j] == (#[trigger] vertex@[j]).picked,
        decreases n - i,
    {
        was_picked.push(vertex[i].picked);
        i += 1;
    }
    let mut k: usize = 0;
    while k < pick_vertex_event.len()
        invariant
            k <= pick_vertex_event.len(),
            n == old(vertex)@.len(),
            vertex@.len() == n,
            was_picked@.len() == n,
            forall|j: int| 0 <= j < n ==> was_picked@[j] == (#[trigger] old(vertex)@[j]).picked,
            forall|j: int|
                0 <= j < n ==> {
                    &&& (#[trigger] vertex@[j]).picked == picked_after(
                        old(vertex)@,
                        pick_vertex_event@,
                        shift,
                        k as int,
                        j,
                    )
                    &&& vertex@[j].vertex == old(vertex)@[j].vertex
                    &&& vertex@[j].translation == old(vertex)@[j].translation
                },
        decreases pick_vertex_event.len() - k,
    {
        let target = pick_vertex_event[k].entity;
        let ghost at_click = vertex@;
        let mut i: usize = 0;
        while i < n
            invariant
                i <= n,
                k < pick_vertex_event.len(),
                target == pick_vertex_event@[k as int].entity,
                n == old(vertex)@.len(),
                vertex@.len() == n,
                at_click.len() == n,
                was_picked@.len() == n,
                forall|j: int| 0 <= j < n ==> was_picked@[j] == (#[trigger] old(vertex)@[j]).picked,
                forall|j: int|
                    0 <= j < n ==> {
                        &&& (#[trigger] at_click[j]).picked == picked_after(
                            old(vertex)@,
                            pick_vertex_event@,
                            shift,
                            k as int,
                            j,
                        )
                        &&& at_click[j].vertex == old(vertex)@[j].vertex
                        &&& at_click[j].translation == old(vertex)@[j].translation
                    },
                forall|j: int|
                    0 <= j < i ==> {
                        &&& (#[trigger] vertex@[j]).picked == picked_after(
                            old(vertex)@,
                            pick_vertex_event@,
                            shift,
                            k as int + 1,
                            j,
                        )
                        &&& vertex@[j].vertex == old(vertex)@[j].vertex
                        &&& vertex@[j].translation == old(vertex)@[j].translation
                    },
                forall|j: int| i <= j < n ==> vertex@[j] == at_click[j],
            decreases n - i,
        {
            let e = vertex[i];
            let picked = if i == target {
                true
            } else if !shift && was_picked[i] {
                false
            } else {
                e.picked
            };
            assert(at_click[i as int].picked == e.picked);
            vertex[i] = VertexEntity { translation: e.translation, vertex: e.vertex, picked };
            i += 1;
        }
        k += 1;
    }
}

/// One of the first `k` of `children` is the place `i`.
pub open spec fn among(children: Seq<usize>, k: int, i: int) -> bool {
    exists|w: int| 0 <= w < k && w < children.len() && #[trigger] children[w] == i
}

/// Picks every vertex attached to the plane under the pointer: `children`
/// are the places in the scene of the entities attached to that plane.
/// Children that are no vertices of the scene are passed over.
pub fn select_all(vertex: &mut Vec<VertexEntity>, children: &Vec<usize>)
    ensures
        final(vertex)@.len() == old(vertex)@.len(),
        forall|i: int|
            0 <= i < old(vertex)@.len() ==> {
                &&& (#[trigger] final(vertex)@[i]).picked == (old(vertex)@[i].picked || among(
                    children@,
                    children@.len() as int,
                    i,
                ))
                &&& final(vertex)@[i].vertex == old(vertex)@[i].vertex
                &&& final(vertex)@[i].translation == old(vertex)@[i].translation
            },
{
    let n = vertex.len();
    let mut k: usize = 0;
    while k < children.len()
        invariant
            k <= children.len(),
            n == old(vertex)@.len(),
            vertex@.len() == n,
            forall|i: int|
                0 <= i < n ==> {
                    &&& (#[trigger] vertex@[i]).picked == (old(vertex)@[i].picked || among(
                        children@,
                        k as int,
                        i,
                    ))
                    &&& vertex@[i].vertex == old(vertex)@[i].vertex
                    &&& vertex@[i].translation == old(vertex)@[i].translation
                },
        decreases children.len() - k,
    {
        let c = children[k];
        proof {
            assert forall|i: int| 0 <= i < n implies #[trigger] among(children@, k as int + 1, i) == (
            among(children@, k as int, i) || c == i) by {
                if among(children@, k as int, i) {
                    let w = choose|w: int| 0 <= w < k && w < children@.len() && children@[w] == i;
                    assert(0 <= w < k + 1 && children@[w] == i);
                }
                if c == i {
                    assert(children@[k as int] == i);
                }
            }
        }
        if c < n {
            let e = vertex[c];
            vertex[c] = VertexEntity { translation: e.translation, vertex: e.vertex, picked: true };
        }
        k += 1;
    }
}

/// Drops every vertex from the picked set.
pub fn deselect_vertex(picked_vertex: &mut Vec<VertexEntity>)
    ensures
        final(picked_vertex)@.len() == old(picked_vertex)@.len(),
        forall|i: int|
            0 <= i < old(picked_vertex)@.len() ==> {
                &&& !(#[trigger] final(picked_vertex)@[i]).picked
                &&& final(picked_vertex)@[i].vertex == old(picked_vertex)@[i].vertex
                &&& final(picked_vertex)@[i].translation == old(picked_vertex)@[i].translation
            },
{
    let n = picked_vertex.len();
    let mut i: usize = 0;
    while i < n
        invariant
            i <= n,
            n == old(picked_vertex)@.len(),
            picked_vertex@.len() == n,
            forall|j: int|
                0 <= j < i ==> {
                    &&& !(#[trigger] picked_vertex@[j]).picked
                    &&& picked_vertex@[j].vertex == old(picked_vertex)@[j].vertex
                    &&& picked_vertex@[j].translation == old(picked_vertex)@[j].translation
                },
            forall|j: int| i <= j < n ==> picked_vertex@[j] == old(picked_vertex)@[j],
        decreases n - i,
    {
        let e = picked_vertex[i];
        picked_vertex[i] = VertexEntity { translation: e.translation, vertex: e.vertex, picked: false };
        i += 1;
    }
}

/// One override for each vertex of the mesh, holding the position and the
/// colour that the mesh has there. Where the mesh holds no colour for a
/// vertex, its override is white.
pub fn spawn_vertex(mesh: &Mesh) -> (vertices: Vec<Vertex>)
    ensures
        vertices@ == vertices_of(mesh@),
        vertices@.len() == mesh@.positions.len(),
        forall|i: int|
            0 <= i < vertices@.len() ==> (#[trigger] vertices@[i]).index == i && vertices@[i].loc
                == mesh@.positions[i],
        forall|i: int|
            0 <= i < vertices@.len() && i < mesh@.colors.len() ==> (#[trigger] vertices@[i]).clr
                == mesh@.colors[i],
        forall|i: int|
            mesh@.colors.len() <= i < vertices@.len() ==> (#[trigger] vertices@[i]).clr == white(),
{
    let mut vertices: Vec<Vertex> = Vec::new();
    let n = mesh.positions.len();
    let mut index: usize = 0;
    while index < n
        invariant
            index <= n,
            n == mesh@.positions.len(),
            vertices@.len() == index,
            forall|i: int| 0 <= i < index ==> (#[trigger] vertices@[i]) == vertices_of(mesh@)[i],
        decreases n - index,
    {
        let v = if index < mesh.colors.len() {
            Vertex::new(index, &mesh.positions[index], &mesh.colors[index])
        } else {
            let clr = [ONE, ONE, ONE, ONE];
            assert(clr =~= white());
            Vertex::new(index, &mesh.positions[index], &clr)
        };
        vertices.push(v);
        index += 1;
    }
    assert(vertices@ =~= vertices_of(mesh@));
    vertices
}

} // verus!
