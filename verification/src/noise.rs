//! The noise modifier: a coherent pseudo-random height field over the
//! horizontal plane, fixed by its seed.

use vstd::prelude::*;
use vstd::arithmetic::div_mod::lemma_mod_bound;
use crate::scalar::{Scalar, ONE, clamp, trunc_div, product, saturate, floor_div_mod,
    lemma_trunc_div_bounds, lemma_trunc_div_exact, lemma_trunc_div_monotone};

verus! {

/// The modulus of the lattice hash: the prime `2^31 - 1`.
pub const NOISE_MODULUS: i64 = 2147483647;

/// The key that a seed gives to a noise field.
pub open spec fn mix_seed(seed: int) -> int {
    ((seed % (NOISE_MODULUS as int)) * 48271 + 11) % (NOISE_MODULUS as int)
}

/// The pseudo-random value of lattice point `(ix, iz)`, between minus one
/// and one.
pub open spec fn lattice(key: int, ix: int, iz: int) -> int {
    let a = ix % 46337;
    let b = iz % 46349;
    let h0 = (key + a * 92821 + b * 68917) % (NOISE_MODULUS as int);
    let h1 = (h0 * h0 + 12345) % (NOISE_MODULUS as int);
    let h2 = (h1 * h1 + h0) % (NOISE_MODULUS as int);
    h2 % 2001 - 1000
}

/// The four corner values of a lattice cell of side `cell` blended at the
/// offset `(fx, fz)` from its first corner.
pub open spec fn bilinear(v00: int, v10: int, v01: int, v11: int, fx: int, fz: int, cell: int) -> int {
    let near = v00 * (cell - fx) + v10 * fx;
    let far = v01 * (cell - fx) + v11 * fx;
    trunc_div(near * (cell - fz) + far * fz, cell * cell)
}

/// Computes [`lattice`].
pub fn lattice_value(key: u32, ix: i64, iz: i64) -> (v: i64)
    ensures
        v as int == lattice(key as int, ix as int, iz as int),
        -1000 <= v <= 1000,
{
    let (_, a) = floor_div_mod(ix, 46337);
    let (_, b) = floor_div_mod(iz, 46349);
    let h0: i64 = (key as i64 + a * 92821 + b * 68917) % NOISE_MODULUS;
    assert(0 <= h0 as int * h0 as int <= 0x8000_0000 * 0x8000_0000) by (nonlinear_arith)
        requires
            0 <= h0 as int <= 0x8000_0000,
    ;
    let h1: i64 = (h0 * h0 + 12345) % NOISE_MODULUS;
    assert(0 <= h1 as int * h1 as int <= 0x8000_0000 * 0x8000_0000) by (nonlinear_arith)
        requires
            0 <= h1 as int <= 0x8000_0000,
    ;
    let h2: i64 = (h1 * h1 + h0) % NOISE_MODULUS;
    h2 % 2001 - 1000
}

/// The configuration of a coherent noise field over the horizontal plane.
#[derive(Debug, Clone, Copy, PartialEq, Eq)]
pub struct NoiseData {
    pub seed: u32,
    /// Side of a lattice cell.
    pub cell: Scalar,
    /// Largest height that the field reaches, up or down.
    pub amplitude: Scalar,
}

/// A noise field made ready for a pass: one value serves every vertex.
#[derive(Debug, Clone, Copy, PartialEq, Eq)]
pub struct NoiseFn {
    pub key: u32,
    pub cell: Scalar,
    pub amplitude: Scalar,
}

impl NoiseFn {
    /// The height of the field over `(x, z)`: the values of the four
    /// lattice points around it, blended, times the amplitude. A cell side
    /// that is not positive gives a flat field of height zero.
    pub open spec fn height_at(&self, x: int, z: int) -> int {
        if self.cell <= 0 {
            0
        } else {
            let c = self.cell as int;
            let ix = x / c;
            let iz = z / c;
            let unit = bilinear(
                lattice(self.key as int, ix, iz),
                lattice(self.key as int, ix + 1, iz),
                lattice(self.key as int, ix, iz + 1),
                lattice(self.key as int, ix + 1, iz + 1),
                x % c,
                z % c,
                c,
            );
            clamp(trunc_div(self.amplitude * unit, ONE as int))
        }
    }

    /// The height of the field over `(x, z)`, for coordinates that are the
    /// sum of two scalars.
    fn sample(&self, x: i64, z: i64) -> (height: Scalar)
        requires
            -0x1_0000_0000 <= x <= 0x1_0000_0000,
            -0x1_0000_0000 <= z <= 0x1_0000_0000,
        ensures
            height as int == self.height_at(x as int, z as int),
    {
        if self.cell <= 0 {
            return 0;
        }
        let c = self.cell as i64;
        let (ix, fx) = floor_div_mod(x, c);
        let (iz, fz) = floor_div_mod(z, c);
        proof {
            assert(-0x1_0000_0000 <= x as int / c as int <= 0x1_0000_0000) by (nonlinear_arith)
                requires
                    -0x1_0000_0000 <= x as int <= 0x1_0000_0000,
                    c as int >= 1,
            ;
            assert(-0x1_0000_0000 <= z as int / c as int <= 0x1_0000_0000) by (nonlinear_arith)
                requires
                    -0x1_0000_0000 <= z as int <= 0x1_0000_0000,
                    c as int >= 1,
            ;
        }
        let v00 = lattice_value(self.key, ix, iz);
        let v10 = lattice_value(self.key, ix + 1, iz);
        let v01 = lattice_value(self.key, ix, iz + 1);
        let v11 = lattice_value(self.key, ix + 1, iz + 1);
        let near = blend_pair(v00, v10, fx, c);
        let far = blend_pair(v01, v11, fx, c);
        let na = product(near, c - fz);
        let fa = product(far, fz);
        let cc = product(c, c);
        proof {
            lemma_weighted_bound(near as int, c as int - fz as int, c as int);
            lemma_weighted_bound(far as int, fz as int, c as int);
            assert(0 < c as int * c as int <= 0x8000_0000 * 0x8000_0000) by (nonlinear_arith)
                requires
                    1 <= c as int <= 0x8000_0000,
            ;
        }
        let unit: i128 = (na + fa) / cc;
        proof {
            lemma_trunc_div_bounds(na as int + fa as int, cc as int);
            assert(-0x8000_0000 * 0x1_0000_0000_0000_0000_0000 <= self.amplitude as int
                * unit as int <= 0x8000_0000 * 0x1_0000_0000_0000_0000_0000)
                by (nonlinear_arith)
                requires
                    -0x8000_0000 <= self.amplitude as int <= 0x8000_0000,
                    -0x1_0000_0000_0000_0000_0000 <= unit as int
                        <= 0x1_0000_0000_0000_0000_0000,
            ;
        }
        let scaled: i128 = (self.amplitude as i128) * unit;
        saturate(scaled / (ONE as i128))
    }
}

/// A value of at most `2^42` in magnitude times a weight between zero and
/// `cell` stays below `2^73`.
proof fn lemma_weighted_bound(v: int, w: int, cell: int)
    requires
        -0x400_0000_0000 <= v <= 0x400_0000_0000,
        0 <= w <= cell,
        cell <= 0x8000_0000,
    ensures
        -0x200_0000_0000_0000_0000 <= v * w <= 0x200_0000_0000_0000_0000,
{
    assert(-0x200_0000_0000_0000_0000 <= v * w <= 0x200_0000_0000_0000_0000)
        by (nonlinear_arith)
        requires
            -0x400_0000_0000 <= v <= 0x400_0000_0000,
            0 <= w <= 0x8000_0000,
    ;
}

/// `a * (cell - f) + b * f` for two lattice values and an offset within the
/// cell.
fn blend_pair(a: i64, b: i64, f: i64, cell: i64) -> (r: i64)
    requires
        -1000 <= a <= 1000,
        -1000 <= b <= 1000,
        0 <= f < cell,
        cell <= 0x8000_0000,
    ensures
        r as int == a as int * (cell as int - f as int) + b as int * f as int,
        -0x400_0000_0000 <= r <= 0x400_0000_0000,
{
    assert(-1000 * 0x8000_0000 <= a as int * (cell as int - f as int) <= 1000 * 0x8000_0000
        && -1000 * 0x8000_0000 <= b as int * f as int <= 1000 * 0x8000_0000) by (nonlinear_arith)
        requires
            -1000 <= a as int <= 1000,
            -1000 <= b as int <= 1000,
            0 <= f as int,
            0 <= cell as int - f as int <= 0x8000_0000,
            f as int <= 0x8000_0000,
    ;
    a * (cell - f) + b * f
}

/// A lattice value lies between minus one and one.
pub proof fn lemma_lattice_range(key: int, ix: int, iz: int)
    ensures
        -ONE <= lattice(key, ix, iz) <= ONE,
{
}

/// A blend of four values between minus one and one lies between minus
/// one and one.
pub proof fn lemma_bilinear_range(v00: int, v10: int, v01: int, v11: int, fx: int, fz: int, cell: int)
    requires
        -ONE <= v00 <= ONE,
        -ONE <= v10 <= ONE,
        -ONE <= v01 <= ONE,
        -ONE <= v11 <= ONE,
        0 <= fx < cell,
        0 <= fz < cell,
    ensures
        -ONE <= bilinear(v00, v10, v01, v11, fx, fz, cell) <= ONE,
{
    let near = v00 * (cell - fx) + v10 * fx;
    let far = v01 * (cell - fx) + v11 * fx;
    assert(-1000 * cell <= near <= 1000 * cell) by (nonlinear_arith)
        requires
            near == v00 * (cell - fx) + v10 * fx,
            -1000 <= v00 <= 1000,
            -1000 <= v10 <= 1000,
            0 <= fx < cell,
    ;
    assert(-1000 * cell <= far <= 1000 * cell) by (nonlinear_arith)
        requires
            far == v01 * (cell - fx) + v11 * fx,
            -1000 <= v01 <= 1000,
            -1000 <= v11 <= 1000,
            0 <= fx < cell,
    ;
    let sum = near * (cell - fz) + far * fz;
    let cc = cell * cell;
    assert(cc > 0 && -(1000 * cc) <= sum <= 1000 * cc) by (nonlinear_arith)
        requires
            sum == near * (cell - fz) + far * fz,
            cc == cell * cell,
            -1000 * cell <= near <= 1000 * cell,
            -1000 * cell <= far <= 1000 * cell,
            0 <= fz < cell,
    ;
    lemma_trunc_div_exact(1000, cc);
    lemma_trunc_div_exact(-1000, cc);
    assert((-1000) * cc == -(1000 * cc));
    lemma_trunc_div_monotone(sum, 1000 * cc, cc);
    lemma_trunc_div_monotone(-(1000 * cc), sum, cc);
}

impl NoiseFn {
    /// The field never rises above its amplitude nor falls below minus its
    /// amplitude.
    pub proof fn lemma_height_within_amplitude(&self, x: int, z: int)
        ensures
            self.amplitude >= 0 ==> -self.amplitude <= self.height_at(x, z) <= self.amplitude,
            self.amplitude <= 0 ==> self.amplitude <= self.height_at(x, z) <= -self.amplitude,
    {
        if self.cell > 0 {
            let c = self.cell as int;
            let k = self.key as int;
            let ix = x / c;
            let iz = z / c;
            lemma_mod_bound(x, c);
            lemma_mod_bound(z, c);
            lemma_lattice_range(k, ix, iz);
            lemma_lattice_range(k, ix + 1, iz);
            lemma_lattice_range(k, ix, iz + 1);
            lemma_lattice_range(k, ix + 1, iz + 1);
            let unit = bilinear(
                lattice(k, ix, iz),
                lattice(k, ix + 1, iz),
                lattice(k, ix, iz + 1),
                lattice(k, ix + 1, iz + 1),
                x % c,
                z % c,
                c,
            );
            lemma_bilinear_range(
                lattice(k, ix, iz),
                lattice(k, ix + 1, iz),
                lattice(k, ix, iz + 1),
                lattice(k, ix + 1, iz + 1),
                x % c,
                z % c,
                c,
            );
            let a = self.amplitude as int;
            let e = if a >= 0 { a } else { -a };
            assert(-(e * 1000) <= a * unit <= e * 1000) by (nonlinear_arith)
                requires
                    -1000 <= unit <= 1000,
                    e == a || e == -a,
                    e >= 0,
            ;
            lemma_trunc_div_exact(e, 1000);
            lemma_trunc_div_exact(-e, 1000);
            assert((-e) * 1000 == -(e * 1000));
            lemma_trunc_div_monotone(a * unit, e * 1000, 1000);
            lemma_trunc_div_monotone(-(e * 1000), a * unit, 1000);
        }
    }
}

impl NoiseData {
    /// The field that this configuration describes.
    pub open spec fn field(&self) -> NoiseFn {
        NoiseFn { key: mix_seed(self.seed as int) as u32, cell: self.cell, amplitude: self.amplitude }
    }

    /// Makes the field ready for a pass over many vertices.
    pub fn set(&self) -> (nfn: NoiseFn)
        ensures
            nfn == self.field(),
    {
        let s: i64 = (self.seed as i64) % NOISE_MODULUS;
        let key: i64 = (s * 48271 + 11) % NOISE_MODULUS;
        NoiseFn { key: key as u32, cell: self.cell, amplitude: self.amplitude }
    }

    /// The height of the field `nfn` at `pos` on a plane whose origin lies
    /// at `loc`: the field is laid over the world, so planes side by side
    /// continue each other.
    pub fn apply(&self, nfn: &NoiseFn, pos: &[Scalar; 3], loc: &[Scalar; 3]) -> (height: Scalar)
        ensures
            height as int == nfn.height_at(pos[0] + loc[0], pos[2] + loc[2]),
    {
        nfn.sample(pos[0] as i64 + loc[0] as i64, pos[2] as i64 + loc[2] as i64)
    }
}

} // verus!
