//! The mesh buffers of a plane and the builder of the flat rectangular grid.

use vstd::prelude::*;
use vstd::arithmetic::div_mod::{lemma_fundamental_div_mod_converse, lemma_div_multiples_vanish_quotient};
use crate::utils::copy_vec;
use crate::scalar::{Scalar, ONE, trunc_div, mul_div, quotient, lemma_trunc_div_bounds,
    lemma_trunc_div_neg, lemma_trunc_div_monotone, lemma_trunc_div_exact};

verus! {

/// Parallel per-vertex attribute buffers and the triangle list of one plane.
#[derive(Debug, PartialEq, Eq)]
pub struct Mesh {
    pub positions: Vec<[Scalar; 3]>,
    pub normals: Vec<[Scalar; 3]>,
    pub uvs: Vec<[Scalar; 2]>,
    pub colors: Vec<[Scalar; 4]>,
    pub indices: Vec<u32>,
}

/// What a [`Mesh`] holds, as sequences.
pub struct MeshView {
    pub positions: Seq<[Scalar; 3]>,
    pub normals: Seq<[Scalar; 3]>,
    pub uvs: Seq<[Scalar; 2]>,
    pub colors: Seq<[Scalar; 4]>,
    pub indices: Seq<u32>,
}

impl MeshView {
    /// The attribute buffers are parallel and every triangle corner names a
    /// vertex of the buffer.
    pub open spec fn wf(self) -> bool {
        &&& self.normals.len() == self.positions.len()
        &&& self.uvs.len() == self.positions.len()
        &&& self.colors.len() == self.positions.len()
        &&& self.indices.len() % 3 == 0
        &&& forall|j: int| 0 <= j < self.indices.len() ==> (#[trigger] self.indices[j]) < self.positions.len()
    }
}

impl View for Mesh {
    type V = MeshView;

    open spec fn view(&self) -> MeshView {
        MeshView {
            positions: self.positions@,
            normals: self.normals@,
            uvs: self.uvs@,
            colors: self.colors@,
            indices: self.indices@,
        }
    }
}

impl Clone for Mesh {
    fn clone(&self) -> (copy: Mesh)
        ensures
            copy@ == self@,
    {
        Mesh {
            positions: copy_vec(&self.positions),
            normals: copy_vec(&self.normals),
            uvs: copy_vec(&self.uvs),
            colors: copy_vec(&self.colors),
            indices: copy_vec(&self.indices),
        }
    }
}

/// The colour every vertex has until something assigns another.
pub open spec fn white() -> [Scalar; 4] {
    [ONE, ONE, ONE, ONE]
}

/// The normal of a flat plane: straight up.
pub open spec fn up() -> [Scalar; 3] {
    [0, ONE, 0]
}

/// A colour buffer brought to one colour for each of `n` vertices: where the
/// colours are fewer, white is appended up to `n`; a buffer that is long
/// enough stays as it is.
pub open spec fn filled(colors: Seq<[Scalar; 4]>, n: int) -> Seq<[Scalar; 4]> {
    if colors.len() < n {
        colors + Seq::new((n - colors.len()) as nat, |i: int| white())
    } else {
        colors
    }
}

impl Mesh {
    /// Gives every vertex a colour: a vertex for which the mesh holds no
    /// colour yet becomes white. Colours that the mesh holds stay.
    pub fn fill_colors(&mut self)
        ensures
            final(self)@.colors == filled(old(self)@.colors, old(self)@.positions.len() as int),
            final(self)@.colors.len() >= old(self)@.positions.len(),
            old(self)@.colors.len() < old(self)@.positions.len() ==> final(self)@.colors.len() == old(
                self,
            )@.positions.len(),
            old(self)@.colors.len() >= old(self)@.positions.len() ==> final(self)@.colors == old(
                self,
            )@.colors,
            forall|i: int|
                0 <= i < old(self)@.colors.len() ==> (#[trigger] final(self)@.colors[i]) == old(
                    self,
                )@.colors[i],
            forall|i: int|
                old(self)@.colors.len() <= i < old(self)@.positions.len() ==> (
                #[trigger] final(self)@.colors[i]) == white(),
            final(self)@.positions == old(self)@.positions,
            final(self)@.normals == old(self)@.normals,
            final(self)@.uvs == old(self)@.uvs,
            final(self)@.indices == old(self)@.indices,
    {
        let n = self.positions.len();
        let ghost start = self.colors@;
        while self.colors.len() < n
            invariant
                n == self.positions@.len(),
                self.positions@ == old(self)@.positions,
                self.normals@ == old(self)@.normals,
                self.uvs@ == old(self)@.uvs,
                self.indices@ == old(self)@.indices,
                start == old(self)@.colors,
                start.len() <= self.colors@.len(),
                start.len() < n ==> self.colors@.len() <= n,
                start.len() >= n ==> self.colors@ == start,
                forall|i: int| 0 <= i < start.len() ==> (#[trigger] self.colors@[i]) == start[i],
                forall|i: int|
                    start.len() <= i < self.colors@.len() ==> (#[trigger] self.colors@[i]) == white(),
            decreases n - self.colors.len(),
        {
            let clr = [ONE, ONE, ONE, ONE];
            assert(clr =~= white());
            self.colors.push(clr);
        }
        assert(self.colors@ =~= filled(start, n as int));
    }
}

/// Coordinate of grid line `k` out of `n` lines spread evenly over `extent`
/// and centred on the origin: `(k / (n - 1) - 1/2) * extent`, rounded
/// towards zero.
pub open spec fn centered(extent: int, k: int, n: int) -> int
    recommends
        n >= 2,
        0 <= k < n,
{
    mul_div(extent, 2 * k - (n - 1), 2 * (n - 1))
}

/// Texture coordinate of grid line `k` out of `n`: `k / (n - 1)` as a
/// scalar, rounded towards zero.
pub open spec fn unit_frac(k: int, n: int) -> int
    recommends
        n >= 2,
        0 <= k < n,
{
    mul_div(ONE as int, k, n - 1)
}

/// A centred coordinate is at most half of `extent` in magnitude.
pub proof fn lemma_centered_range(extent: int, k: int, n: int)
    requires
        n >= 2,
        0 <= k < n,
    ensures
        extent >= 0 ==> -extent <= 2 * centered(extent, k, n) <= extent,
        extent <= 0 ==> extent <= 2 * centered(extent, k, n) <= -extent,
{
    let m = 2 * k - (n - 1);
    let d = 2 * (n - 1);
    let e = if extent >= 0 { extent } else { -extent };
    let a = extent * m;
    let c = centered(extent, k, n);
    assert(-(e * (n - 1)) <= a <= e * (n - 1)) by (nonlinear_arith)
        requires
            a == extent * m,
            e == extent || e == -extent,
            e >= 0,
            -(n - 1) <= m <= n - 1,
    ;
    lemma_trunc_div_bounds(a, d);
    if a >= 0 {
        assert(2 * (a / d) <= e) by (nonlinear_arith)
            requires
                0 <= a <= e * (n - 1),
                d == 2 * (n - 1),
                n >= 2,
        ;
    } else {
        let b = -a;
        assert(2 * (b / d) <= e) by (nonlinear_arith)
            requires
                0 <= b <= e * (n - 1),
                d == 2 * (n - 1),
                n >= 2,
        ;
    }
}

/// The grid lines mirror each other about the origin.
pub proof fn lemma_centered_mirror(extent: int, k: int, n: int)
    requires
        n >= 2,
        0 <= k < n,
    ensures
        centered(extent, n - 1 - k, n) == -centered(extent, k, n),
{
    let m = 2 * k - (n - 1);
    assert(extent * (2 * (n - 1 - k) - (n - 1)) == -(extent * m)) by (nonlinear_arith)
        requires
            m == 2 * k - (n - 1),
    ;
    lemma_trunc_div_neg(extent * m, 2 * (n - 1));
}

/// The first and the last grid line lie at minus and plus half of `extent`,
/// and every other line lies between them.
pub proof fn lemma_centered_extremes(extent: int, k: int, n: int)
    requires
        n >= 2,
        0 <= k < n,
    ensures
        centered(extent, n - 1, n) == trunc_div(extent, 2),
        centered(extent, 0, n) == -trunc_div(extent, 2),
        extent >= 0 ==> -trunc_div(extent, 2) <= centered(extent, k, n) <= trunc_div(extent, 2),
        extent <= 0 ==> trunc_div(extent, 2) <= centered(extent, k, n) <= -trunc_div(extent, 2),
{
    let w = n - 1;
    let d = 2 * w;
    let e = if extent >= 0 { extent } else { -extent };
    assert(extent * (2 * w - w) == extent * w && e * w >= 0 && (-extent) * w == -(extent * w)
        && extent * w == w * extent && e * w == w * e && d == w * 2) by (nonlinear_arith)
        requires
            e >= 0,
            w >= 1,
            d == 2 * w,
    ;
    lemma_div_multiples_vanish_quotient(w, e, 2);
    assert(centered(extent, n - 1, n) == trunc_div(extent, 2)) by {
        if extent > 0 {
            assert(extent * w > 0) by (nonlinear_arith)
                requires
                    extent > 0,
                    w >= 1,
            ;
        } else if extent < 0 {
            assert(extent * w < 0) by (nonlinear_arith)
                requires
                    extent < 0,
                    w >= 1,
            ;
        } else {
            assert(extent * w == 0) by (nonlinear_arith)
                requires
                    extent == 0,
            ;
        }
    }
    lemma_centered_mirror(extent, n - 1, n);
    let m = 2 * k - w;
    assert(extent >= 0 ==> -(extent * w) <= extent * m <= extent * w) by (nonlinear_arith)
        requires
            -w <= m <= w,
    ;
    assert(extent <= 0 ==> extent * w <= extent * m <= -(extent * w)) by (nonlinear_arith)
        requires
            -w <= m <= w,
    ;
    lemma_trunc_div_neg(extent * w, d);
    if extent >= 0 {
        lemma_trunc_div_monotone(extent * m, extent * w, d);
        lemma_trunc_div_monotone(-(extent * w), extent * m, d);
    } else {
        lemma_trunc_div_monotone(extent * w, extent * m, d);
        lemma_trunc_div_monotone(extent * m, -(extent * w), d);
    }
}

/// A texture coordinate lies between zero and one.
pub proof fn lemma_unit_frac_range(k: int, n: int)
    requires
        n >= 2,
        0 <= k < n,
    ensures
        0 <= unit_frac(k, n) <= ONE,
{
    let d = n - 1;
    assert(0 <= ONE * k <= ONE * d) by (nonlinear_arith)
        requires
            0 <= k <= d,
    ;
    lemma_trunc_div_exact(ONE as int, d);
    lemma_trunc_div_monotone(ONE * k, ONE * d, d);
    lemma_trunc_div_bounds(ONE * k, d);
}

/// Computes [`centered`].
pub fn centered_coord(extent: Scalar, k: u32, n: u32) -> (r: Scalar)
    requires
        n >= 2,
        k < n,
    ensures
        r as int == centered(extent as int, k as int, n as int),
{
    let num: i64 = 2 * (k as i64) - (n as i64 - 1);
    let den: i64 = 2 * (n as i64 - 1);
    let q = quotient(extent as i64, num, den);
    proof {
        lemma_centered_range(extent as int, k as int, n as int);
    }
    q as i32
}

/// Computes [`unit_frac`].
pub fn unit_coord(k: u32, n: u32) -> (r: Scalar)
    requires
        n >= 2,
        k < n,
    ensures
        r as int == unit_frac(k as int, n as int),
{
    let q = quotient(ONE as i64, k as i64, n as i64 - 1);
    proof {
        lemma_unit_frac_range(k as int, n as int);
    }
    q as i32
}

/// The parameters of a rectangular grid plane.
#[derive(Debug, Clone, Copy, PartialEq, Eq)]
pub struct RectPlane {
    /// Extent along X.
    pub width: Scalar,
    /// Extent along Z.
    pub length: Scalar,
    /// Interior cuts that multiply the rows of vertices.
    pub x_subdivisions: u32,
    /// Interior cuts that multiply the vertices of a row.
    pub z_subdivisions: u32,
}

impl RectPlane {
    /// Number of rows of vertices (grid lines across Z).
    pub open spec fn z_count(&self) -> int {
        self.x_subdivisions + 2
    }

    /// Number of vertices in a row (grid lines across X).
    pub open spec fn x_count(&self) -> int {
        self.z_subdivisions + 2
    }

    /// Number of vertices of the grid.
    pub open spec fn vertex_count(&self) -> int {
        self.z_count() * self.x_count()
    }

    /// Number of triangle corners: two triangles for each grid quad.
    pub open spec fn index_count(&self) -> int {
        (self.z_count() - 1) * (self.x_count() - 1) * 6
    }

    /// The grid is small enough for 32-bit vertex indices and for a buffer
    /// of this machine.
    pub open spec fn fits(&self) -> bool {
        &&& self.vertex_count() <= u32::MAX
        &&& self.index_count() <= usize::MAX
    }

    /// Position of vertex `i`, vertices numbered row by row.
    pub open spec fn position_at(&self, i: int) -> [Scalar; 3] {
        [
            centered(self.width as int, i % self.x_count(), self.x_count()) as Scalar,
            0,
            centered(self.length as int, i / self.x_count(), self.z_count()) as Scalar,
        ]
    }

    /// Texture coordinate of vertex `i`: `(tx, 1 - ty)`.
    pub open spec fn uv_at(&self, i: int) -> [Scalar; 2] {
        [
            unit_frac(i % self.x_count(), self.x_count()) as Scalar,
            (ONE - unit_frac(i / self.x_count(), self.z_count())) as Scalar,
        ]
    }

    /// First vertex (lowest X, lowest Z) of quad `q`, quads numbered row by
    /// row.
    pub open spec fn quad_base(&self, q: int) -> int {
        (q / (self.x_count() - 1)) * self.x_count() + q % (self.x_count() - 1)
    }

    /// Triangle corner `j`: corner `j % 6` of quad `j / 6`.
    pub open spec fn index_at(&self, j: int) -> int {
        let quad = self.quad_base(j / 6);
        let c = j % 6;
        if c == 0 {
            quad + self.x_count() + 1
        } else if c == 1 || c == 5 {
            quad + 1
        } else if c == 2 || c == 4 {
            quad + self.x_count()
        } else {
            quad
        }
    }

    /// The mesh of this grid.
    pub open spec fn mesh(&self) -> MeshView {
        MeshView {
            positions: Seq::new(self.vertex_count() as nat, |i: int| self.position_at(i)),
            normals: Seq::new(self.vertex_count() as nat, |i: int| up()),
            uvs: Seq::new(self.vertex_count() as nat, |i: int| self.uv_at(i)),
            colors: Seq::new(self.vertex_count() as nat, |i: int| white()),
            indices: Seq::new(self.index_count() as nat, |j: int| self.index_at(j) as u32),
        }
    }

    /// Vertex `(x, y)` of the grid is vertex `y * x_count + x` of the buffer
    /// and lies at `((x / (x_count - 1) - 1/2) * width, 0,
    /// (y / (z_count - 1) - 1/2) * length)`.
    pub proof fn lemma_vertex_at(&self, x: int, y: int)
        requires
            0 <= x < self.x_count(),
            0 <= y < self.z_count(),
        ensures
            0 <= y * self.x_count() + x < self.vertex_count(),
            self.position_at(y * self.x_count() + x)[0] == centered(
                self.width as int,
                x,
                self.x_count(),
            ),
            self.position_at(y * self.x_count() + x)[1] == 0,
            self.position_at(y * self.x_count() + x)[2] == centered(
                self.length as int,
                y,
                self.z_count(),
            ),
            self.uv_at(y * self.x_count() + x)[0] == unit_frac(x, self.x_count()),
            self.uv_at(y * self.x_count() + x)[1] == ONE - unit_frac(y, self.z_count()),
    {
        let xc = self.x_count();
        let i = y * xc + x;
        lemma_fundamental_div_mod_converse(i, xc, y, x);
        assert(0 <= y * xc && y * xc + xc <= self.z_count() * xc) by (nonlinear_arith)
            requires
                0 <= y < self.z_count(),
                xc > 0,
        ;
        lemma_centered_range(self.width as int, x, xc);
        lemma_centered_range(self.length as int, y, self.z_count());
        lemma_unit_frac_range(x, xc);
        lemma_unit_frac_range(y, self.z_count());
    }

    /// The position buffer is symmetric about the origin on X and on Z:
    /// the vertex mirrored across either axis has the negated coordinate,
    /// the outermost grid lines lie at minus and plus half the extent, and
    /// no vertex lies outside them.
    pub proof fn lemma_centering(&self, x: int, y: int)
        requires
            0 <= x < self.x_count(),
            0 <= y < self.z_count(),
        ensures
            self.position_at(y * self.x_count() + (self.x_count() - 1 - x))[0]
                == -self.position_at(y * self.x_count() + x)[0],
            self.position_at((self.z_count() - 1 - y) * self.x_count() + x)[2]
                == -self.position_at(y * self.x_count() + x)[2],
            self.position_at(y * self.x_count())[0] == -trunc_div(self.width as int, 2),
            self.position_at(y * self.x_count() + self.x_count() - 1)[0] == trunc_div(
                self.width as int,
                2,
            ),
            self.position_at(x)[2] == -trunc_div(self.length as int, 2),
            self.position_at((self.z_count() - 1) * self.x_count() + x)[2] == trunc_div(
                self.length as int,
                2,
            ),
            self.width >= 0 ==> -trunc_div(self.width as int, 2) <= self.position_at(
                y * self.x_count() + x,
            )[0] <= trunc_div(self.width as int, 2),
            self.width <= 0 ==> trunc_div(self.width as int, 2) <= self.position_at(
                y * self.x_count() + x,
            )[0] <= -trunc_div(self.width as int, 2),
            self.length >= 0 ==> -trunc_div(self.length as int, 2) <= self.position_at(
                y * self.x_count() + x,
            )[2] <= trunc_div(self.length as int, 2),
            self.length <= 0 ==> trunc_div(self.length as int, 2) <= self.position_at(
                y * self.x_count() + x,
            )[2] <= -trunc_div(self.length as int, 2),
    {
        let xc = self.x_count();
        let zc = self.z_count();
        self.lemma_vertex_at(x, y);
        self.lemma_vertex_at(xc - 1 - x, y);
        self.lemma_vertex_at(x, zc - 1 - y);
        self.lemma_vertex_at(0, y);
        self.lemma_vertex_at(xc - 1, y);
        self.lemma_vertex_at(x, 0);
        self.lemma_vertex_at(x, zc - 1);
        assert(0 * xc + x == x) by (nonlinear_arith);
        lemma_centered_mirror(self.width as int, x, xc);
        lemma_centered_mirror(self.length as int, y, zc);
        lemma_centered_extremes(self.width as int, x, xc);
        lemma_centered_extremes(self.length as int, y, zc);
    }

    /// Whether the grid is small enough to be built.
    pub fn check_fits(&self) -> (b: bool)
        ensures
            b == self.fits(),
    {
        let zc: u128 = self.x_subdivisions as u128 + 2;
        let xc: u128 = self.z_subdivisions as u128 + 2;
        assert(zc * xc <= 0x1_0000_0001 * 0x1_0000_0001 && (zc - 1) * (xc - 1) <= 0x1_0000_0000
            * 0x1_0000_0000) by (nonlinear_arith)
            requires
                2 <= zc <= 0x1_0000_0001,
                2 <= xc <= 0x1_0000_0001,
        ;
        let vc: u128 = zc * xc;
        let ic: u128 = (zc - 1) * (xc - 1) * 6;
        vc <= u32::MAX as u128 && ic <= usize::MAX as u128
    }
    /// Every triangle corner of the grid names one of its vertices.
    pub proof fn lemma_index_in_range(&self, j: int)
        requires
            0 <= j < self.index_count(),
        ensures
            0 <= self.index_at(j) < self.vertex_count(),
    {
        let xc = self.x_count();
        let zc = self.z_count();
        let w = xc - 1;
        let q = j / 6;
        let qy = q / w;
        let qx = q % w;
        assert(q < (zc - 1) * w) by (nonlinear_arith)
            requires
                j < (zc - 1) * w * 6,
                q == j / 6,
        ;
        assert(0 <= qy < zc - 1) by (nonlinear_arith)
            requires
                0 <= q < (zc - 1) * w,
                w > 0,
                qy == q / w,
        ;
        assert(0 <= qy * xc && qy * xc <= (zc - 2) * xc && (zc - 2) * xc == zc * xc - 2 * xc)
            by (nonlinear_arith)
            requires
                0 <= qy <= zc - 2,
                xc >= 2,
        ;
    }

    /// The grid's mesh is well formed.
    pub proof fn lemma_mesh_wf(&self)
        requires
            self.fits(),
        ensures
            self.mesh().wf(),
    {
        let m = self.mesh();
        assert(0 <= (self.z_count() - 1) * (self.x_count() - 1)) by (nonlinear_arith)
            requires
                self.z_count() >= 2,
                self.x_count() >= 2,
        ;
        assert(0 <= self.vertex_count()) by (nonlinear_arith)
            requires
                self.vertex_count() == self.z_count() * self.x_count(),
                self.z_count() >= 2,
                self.x_count() >= 2,
        ;
        assert forall|j: int| 0 <= j < m.indices.len() implies (#[trigger] m.indices[j])
            < m.positions.len() by {
            self.lemma_index_in_range(j);
        }
    }

    /// Builds the flat grid: `(x_subdivisions + 2) * (z_subdivisions + 2)`
    /// vertices centred on the origin, all normals up, all colours white,
    /// and two triangles for each quad, `(x_subdivisions + 1) *
    /// (z_subdivisions + 1) * 6` corners in all.
    ///
    /// Dimensions of zero or below are no failure: they give a collapsed or
    /// mirrored grid of the same size. `None` is returned only where the
    /// grid does not fit 32-bit vertex indices or a buffer of this machine.
    pub fn build(&self) -> (mesh: Option<Mesh>)
        ensures
            match mesh {
                Some(m) => {
                    &&& self.fits()
                    &&& m@ == self.mesh()
                    &&& m@.wf()
                    &&& m.positions.len() == (self.x_subdivisions + 2) * (self.z_subdivisions + 2)
                    &&& m.normals.len() == m.positions.len()
                    &&& m.uvs.len() == m.positions.len()
                    &&& m.colors.len() == m.positions.len()
                    &&& m.indices.len() == (self.x_subdivisions + 1) * (self.z_subdivisions + 1) * 6
                },
                None => !self.fits(),
            },
    {
        if self.check_fits() {
            Some(self.grid_mesh())
        } else {
            None
        }
    }

    /// Builds the grid where it fits.
    fn grid_mesh(&self) -> (mesh: Mesh)
        requires
            self.fits(),
        ensures
            mesh@ == self.mesh(),
            mesh@.wf(),
            mesh.positions.len() == (self.x_subdivisions + 2) * (self.z_subdivisions + 2),
            mesh.normals.len() == mesh.positions.len(),
            mesh.uvs.len() == mesh.positions.len(),
            mesh.colors.len() == mesh.positions.len(),
            mesh.indices.len() == (self.x_subdivisions + 1) * (self.z_subdivisions + 1) * 6,
    {
        let zc: u64 = self.x_subdivisions as u64 + 2;
        let xc: u64 = self.z_subdivisions as u64 + 2;
        proof {
            self.lemma_mesh_wf();
            assert(zc <= zc * xc && xc <= zc * xc) by (nonlinear_arith)
                requires
                    zc >= 2,
                    xc >= 2,
            ;
        }
        let n: u64 = zc * xc;
        let quads: u64 = (zc - 1) * (xc - 1);
        let mut positions: Vec<[Scalar; 3]> = Vec::new();
        let mut normals: Vec<[Scalar; 3]> = Vec::new();
        let mut uvs: Vec<[Scalar; 2]> = Vec::new();
        let mut colors: Vec<[Scalar; 4]> = Vec::new();
        let mut indices: Vec<u32> = Vec::new();

        let mut i: u64 = 0;
        while i < n
            invariant
                self.fits(),
                zc == self.z_count(),
                xc == self.x_count(),
                n == self.vertex_count(),
                2 <= xc <= n,
                2 <= zc <= n,
                i <= n,
                positions@ == Seq::new(i as nat, |k: int| self.position_at(k)),
                normals@ == Seq::new(i as nat, |k: int| up()),
                uvs@ == Seq::new(i as nat, |k: int| self.uv_at(k)),
                colors@ == Seq::new(i as nat, |k: int| white()),
            decreases n - i,
        {
            let x: u64 = i % xc;
            let y: u64 = i / xc;
            assert(y < zc) by (nonlinear_arith)
                requires
                    i < zc * xc,
                    y == i / xc,
                    xc > 0,
            ;
            let px = centered_coord(self.width, x as u32, xc as u32);
            let pz = centered_coord(self.length, y as u32, zc as u32);
            let tx = unit_coord(x as u32, xc as u32);
            let ty = unit_coord(y as u32, zc as u32);
            proof {
                lemma_unit_frac_range(y as int, zc as int);
            }
            positions.push([px, 0, pz]);
            normals.push([0, ONE, 0]);
            uvs.push([tx, ONE - ty]);
            colors.push([ONE, ONE, ONE, ONE]);
            proof {
                assert(positions@[i as int] =~= self.position_at(i as int));
                assert(uvs@[i as int] =~= self.uv_at(i as int));
                assert(normals@[i as int] =~= up());
                assert(colors@[i as int] =~= white());
            }
            i += 1;
        }

        let mut q: u64 = 0;
        while q < quads
            invariant
                self.fits(),
                zc == self.z_count(),
                xc == self.x_count(),
                n == self.vertex_count(),
                quads == (zc - 1) * (xc - 1),
                quads * 6 == self.index_count(),
                2 <= xc <= n,
                2 <= zc <= n,
                q <= quads,
                indices@ == Seq::new((6 * q) as nat, |j: int| self.index_at(j) as u32),
            decreases quads - q,
        {
            let qx: u64 = q % (xc - 1);
            let qy: u64 = q / (xc - 1);
            proof {
                self.lemma_index_in_range(6 * q);
                self.lemma_index_in_range(6 * q + 3);
                assert(self.quad_base(q as int) == qy * xc + qx);
                assert(0 <= qy * xc) by (nonlinear_arith)
                    requires
                        0 <= qy,
                        0 <= xc,
                ;
            }
            let quad: u64 = qy * xc + qx;
            let ghost before = indices@;
            indices.push((quad + xc + 1) as u32);
            indices.push((quad + 1) as u32);
            indices.push((quad + xc) as u32);
            indices.push(quad as u32);
            indices.push((quad + xc) as u32);
            indices.push((quad + 1) as u32);
            proof {
                let after = Seq::new((6 * (q + 1)) as nat, |j: int| self.index_at(j) as u32);
                assert(indices@.len() == after.len());
                assert forall|j: int| 0 <= j < after.len() implies indices@[j] == after[j] by {
                    if j < 6 * q {
                        assert(indices@[j] == before[j]);
                    } else {
                        assert(j / 6 == q as int);
                    }
                }
                assert(indices@ =~= after);
            }
            q += 1;
        }
        let mesh = Mesh { positions, normals, uvs, colors, indices };
        proof {
            assert(mesh@.positions =~= self.mesh().positions);
            assert(mesh@.normals =~= self.mesh().normals);
            assert(mesh@.uvs =~= self.mesh().uvs);
            assert(mesh@.colors =~= self.mesh().colors);
            assert(mesh@.indices =~= self.mesh().indices);
        }
        mesh
    }
}

} // verus!
