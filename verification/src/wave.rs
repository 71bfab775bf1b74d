//! The wave modifier: a periodic displacement of the whole position.

use vstd::prelude::*;
use vstd::arithmetic::div_mod::{lemma_mod_add_multiples_vanish, lemma_mod_bound};
use crate::scalar::{Scalar, ONE, clamp, mul_div, quotient, saturate, floor_div_mod,
    lemma_trunc_div_bounds, lemma_trunc_div_exact, lemma_trunc_div_monotone};

verus! {

/// A triangle wave of the given period over `t`, between minus one and one:
/// zero at `t == 0`, one at a quarter period, minus one at three quarters.
/// A period that is not positive gives zero everywhere.
pub open spec fn triangle(period: int, t: int) -> int {
    if period <= 0 {
        0
    } else {
        let q = 4 * (t % period);
        if q <= period {
            mul_div(q, ONE as int, period)
        } else if q <= 3 * period {
            mul_div(2 * period - q, ONE as int, period)
        } else {
            mul_div(q - 4 * period, ONE as int, period)
        }
    }
}

/// The triangle wave repeats after one period.
pub proof fn lemma_triangle_periodic(period: int, t: int)
    requires
        period > 0,
    ensures
        triangle(period, t + period) == triangle(period, t),
{
    lemma_mod_add_multiples_vanish(t, period);
}

/// The triangle wave stays between minus one and one.
pub proof fn lemma_triangle_range(period: int, t: int)
    ensures
        -ONE <= triangle(period, t) <= ONE,
{
    if period > 0 {
        lemma_mod_bound(t, period);
        let q = 4 * (t % period);
        lemma_trunc_div_exact(ONE as int, period);
        lemma_trunc_div_exact(-(ONE as int), period);
        assert(ONE * period == period * ONE && (-(ONE as int)) * period == -(period * ONE));
        if q <= period {
            assert(0 <= q * ONE <= period * ONE);
            lemma_trunc_div_monotone(q * ONE, period * ONE, period);
            lemma_trunc_div_bounds(q * ONE, period);
        } else if q <= 3 * period {
            let n = 2 * period - q;
            assert(-(period * ONE) <= n * ONE <= period * ONE);
            lemma_trunc_div_monotone(n * ONE, period * ONE, period);
            lemma_trunc_div_monotone(-(period * ONE), n * ONE, period);
        } else {
            let n = q - 4 * period;
            assert(-(period * ONE) <= n * ONE <= 0);
            lemma_trunc_div_monotone(-(period * ONE), n * ONE, period);
            lemma_trunc_div_bounds(n * ONE, period);
        }
    }
}

/// Computes [`triangle`].
pub fn triangle_wave(period: Scalar, t: i64) -> (w: i64)
    ensures
        w as int == triangle(period as int, t as int),
        -ONE <= w <= ONE,
{
    proof {
        lemma_triangle_range(period as int, t as int);
    }
    if period <= 0 {
        0
    } else {
        let p = period as i64;
        let (_, m) = floor_div_mod(t, p);
        let q: i64 = 4 * m;
        let r = if q <= p {
            quotient(q, ONE as i64, p)
        } else if q <= 3 * p {
            quotient(2 * p - q, ONE as i64, p)
        } else {
            quotient(q - 4 * p, ONE as i64, p)
        };
        r as i64
    }
}

/// A periodic displacement of the whole position: each coordinate moves by
/// its own amplitude times one triangle wave, whose phase is the sum of
/// the three coordinates.
#[derive(Debug, Clone, Copy, PartialEq, Eq)]
pub struct WaveData {
    pub period: Scalar,
    pub amplitude: [Scalar; 3],
}

impl WaveData {
    /// Coordinate `c` displaced by `amplitude * wave`, clamped.
    pub open spec fn displaced(c: int, amplitude: int, wave: int) -> int {
        clamp(c + mul_div(amplitude, wave, ONE as int))
    }

    /// Where the wave moves `pos`.
    pub open spec fn moved(&self, pos: [Scalar; 3]) -> [Scalar; 3] {
        let w = triangle(self.period as int, pos[0] + pos[1] + pos[2]);
        [
            Self::displaced(pos[0] as int, self.amplitude[0] as int, w) as Scalar,
            Self::displaced(pos[1] as int, self.amplitude[1] as int, w) as Scalar,
            Self::displaced(pos[2] as int, self.amplitude[2] as int, w) as Scalar,
        ]
    }

    /// Where the wave moves `pos` on the horizontal plane: the height stays.
    pub open spec fn shifted(&self, pos: [Scalar; 3]) -> [Scalar; 3] {
        [self.moved(pos)[0], pos[1], self.moved(pos)[2]]
    }

    /// The whole buffer shifted on the horizontal plane.
    pub open spec fn shifted_all(&self, positions: Seq<[Scalar; 3]>) -> Seq<[Scalar; 3]> {
        Seq::new(positions.len(), |i: int| self.shifted(positions[i]))
    }

    /// The position that the wave moves `pos` to.
    pub fn apply(&self, pos: &[Scalar; 3]) -> (to: [Scalar; 3])
        ensures
            to == self.moved(*pos),
    {
        let t: i64 = pos[0] as i64 + pos[1] as i64 + pos[2] as i64;
        let w = triangle_wave(self.period, t);
        let to = [
            displace(pos[0], self.amplitude[0], w),
            displace(pos[1], self.amplitude[1], w),
            displace(pos[2], self.amplitude[2], w),
        ];
        assert(to =~= self.moved(*pos));
        to
    }

    /// Shifts every vertex of the buffer on the horizontal plane.
    pub fn apply_area(&self, v_pos: &mut Vec<[Scalar; 3]>)
        ensures
            final(v_pos)@ == self.shifted_all(old(v_pos)@),
    {
        let n = v_pos.len();
        let mut i: usize = 0;
        while i < n
            invariant
                i <= n,
                n == old(v_pos)@.len(),
                v_pos@.len() == n,
                forall|j: int| 0 <= j < i ==> v_pos@[j] == self.shifted(old(v_pos)@[j]),
                forall|j: int| i <= j < n ==> v_pos@[j] == old(v_pos)@[j],
            decreases n - i,
        {
            let p = v_pos[i];
            let to = self.apply(&p);
            let q = [to[0], p[1], to[2]];
            assert(q =~= self.shifted(p));
            v_pos[i] = q;
            i += 1;
        }
        assert(v_pos@ =~= self.shifted_all(old(v_pos)@));
    }
}

/// Computes [`WaveData::displaced`].
fn displace(c: Scalar, amplitude: Scalar, wave: i64) -> (r: Scalar)
    requires
        -ONE <= wave <= ONE,
    ensures
        r as int == WaveData::displaced(c as int, amplitude as int, wave as int),
{
    let q = quotient(amplitude as i64, wave, ONE as i64);
    proof {
        lemma_trunc_div_bounds(amplitude as int * wave as int, ONE as int);
        assert(-0x8000_0000 * 1000 <= amplitude as int * wave as int <= 0x8000_0000 * 1000)
            by (nonlinear_arith)
            requires
                -0x8000_0000 <= amplitude as int <= 0x8000_0000,
                -1000 <= wave as int <= 1000,
        ;
    }
    saturate(c as i128 + q)
}

} // verus!
