//! Deterministic fractal noise.
//!
//! A `FractalNoise` value is a pure function of a seed and a distance along
//! an abstract axis. The value is a sum of octave bands: band `i` scales the
//! distance by `2^i`, hashes the two neighbouring lattice points together
//! with the seed, maps each hash to a lattice value in `{-1, 0, 1}`, blends
//! the two with a cubic Hermite step on the fractional part, and weighs the
//! band by the `i`-th power of the lacunarity. The band loop starts at 1,
//! so zero or one octaves always give a zero field.
use vstd::prelude::*;

verus! {

use vstd::arithmetic::div_mod::{
    lemma_fundamental_div_mod,
    lemma_div_is_ordered,
    lemma_div_multiples_vanish,
};
use crate::fixed::{Fx, SCALE, lemma_mul_bound, lemma_div_floor_bound, div_floor_i64};

/// Largest magnitude, in raw steps, of a distance handed to the field
/// (2^40): far beyond any distance the path generator can produce.
pub const DIST_LIMIT: i64 = 0x100_0000_0000;

/// Largest magnitude, in raw steps, of any value of the field:
/// at most 15 bands, each bounded by 7 units.
pub const NOISE_LIMIT: i64 = 105 * 65536;

/// The integer mixer applied to each lattice point: a fixed
/// xorshift-multiply-xorshift-multiply-xorshift round.
pub open spec fn hash_spec(i: u32) -> u32 {
    let a = i ^ (i >> 16);
    let b = a.wrapping_mul(0x21f0aaad);
    let c = b ^ (b >> 15);
    let d = c.wrapping_mul(0xd35a2d97);
    d ^ (d >> 15)
}

/// A lattice index clamped into `u32`, as casting a floored scalar does:
/// everything below zero collapses to 0, everything above to `u32::MAX`.
pub open spec fn sat_lattice(n: int) -> u32 {
    if n < 0 {
        0u32
    } else if n > 0xFFFF_FFFF {
        0xFFFF_FFFFu32
    } else {
        n as u32
    }
}

/// The lattice value at lattice index `n`: the hash of the index combined
/// with the seed, reduced mod 3 and remapped to `{-1, 0, 1}`.
pub open spec fn lattice_value(seed: u32, n: int) -> int {
    (hash_spec(seed.wrapping_mul(sat_lattice(n))) % 3) - 1
}

/// The Hermite factor `3t^2 - 2t^3` at raw fraction `t`, with each power
/// floored back to raw steps.
pub open spec fn hermite_raw(t: int) -> int {
    let t2 = (t * t) / (SCALE as int);
    let t3 = (t2 * t) / (SCALE as int);
    3 * t2 - 2 * t3
}

/// Cubic Hermite blend between raw values `a` and `b` at fraction `t`
/// (raw, in `[0, SCALE)`): `a + (3t^2 - 2t^3) * (b - a)`, each product
/// floored back to raw steps.
pub open spec fn smooth_step_raw(a: int, b: int, t: int) -> int {
    a + (hermite_raw(t) * (b - a)) / (SCALE as int)
}

/// Shifting a dividend by whole multiples of the scale shifts the
/// quotient by the same count.
pub proof fn lemma_div_shift(c: int, d: int)
    ensures
        ((SCALE as int) * c + d) / (SCALE as int) == c + d / (SCALE as int),
{
    let s = SCALE as int;
    lemma_fundamental_div_mod(d, s);
    assert(s * c + d == (c + d / s) * s + d % s) by (nonlinear_arith)
        requires
            d == s * (d / s) + d % s,
    ;
    vstd::arithmetic::div_mod::lemma_fundamental_div_mod_converse(
        s * c + d,
        s,
        c + d / s,
        d % s,
    );
}

/// The staged Hermite factor stays within `[0, SCALE + 2]` for fractions
/// in `[0, SCALE)`: the exact cubic stays in `[0, 1]` and each floor
/// loses less than one step.
pub proof fn lemma_hermite_range(t: int)
    requires
        0 <= t < SCALE,
    ensures
        0 <= hermite_raw(t) <= SCALE + 2,
{
    let s = SCALE as int;
    let t2 = (t * t) / s;
    let t3 = (t2 * t) / s;
    let h = hermite_raw(t);
    assert(t * t >= 0) by (nonlinear_arith);
    lemma_div_floor_bound(t * t, s);
    assert(t2 * t <= t2 * s) by (nonlinear_arith)
        requires
            t2 >= 0,
            0 <= t < s,
    ;
    lemma_div_is_ordered(t2 * t, t2 * s, s);
    lemma_div_multiples_vanish(t2, s);
    assert(t2 * s == s * t2) by (nonlinear_arith);
    assert(t3 <= t2);
    assert(t2 * t >= 0) by (nonlinear_arith)
        requires
            t2 >= 0,
            t >= 0,
    ;
    lemma_div_floor_bound(t2 * t, s);
    assert(h >= t2);
    lemma_fundamental_div_mod(t * t, s);
    lemma_fundamental_div_mod(t2 * t, s);
    let m2 = (t * t) % s;
    let m3 = (t2 * t) % s;
    assert(h * s == t2 * (3 * s - 2 * t) + 2 * m3) by (nonlinear_arith)
        requires
            t2 * t == s * t3 + m3,
            h == 3 * t2 - 2 * t3,
    ;
    assert((s - t) * (s - t) * (s + 2 * t) >= 0) by (nonlinear_arith)
        requires
            0 <= t <= s,
    ;
    assert(s * s * s - t * t * (3 * s - 2 * t) == (s - t) * (s - t) * (s + 2 * t))
        by (nonlinear_arith);
    assert(s * (t2 * (3 * s - 2 * t)) == (t * t - m2) * (3 * s - 2 * t)) by (nonlinear_arith)
        requires
            t * t == s * t2 + m2,
    ;
    assert((t * t - m2) * (3 * s - 2 * t) <= t * t * (3 * s - 2 * t)) by (nonlinear_arith)
        requires
            m2 >= 0,
            3 * s - 2 * t > 0,
    ;
    assert(t2 * (3 * s - 2 * t) <= s * s) by (nonlinear_arith)
        requires
            s * (t2 * (3 * s - 2 * t)) <= s * s * s,
            s > 0,
    ;
    assert(h <= s + 2) by (nonlinear_arith)
        requires
            h * s == t2 * (3 * s - 2 * t) + 2 * m3,
            t2 * (3 * s - 2 * t) <= s * s,
            0 <= m3 < s,
            s > 0,
    ;
}

/// The staged blend never leaves the interval of its two values by more
/// than four raw steps.
pub proof fn lemma_smooth_step_range(a: int, b: int, t: int)
    requires
        -SCALE <= a <= SCALE,
        -SCALE <= b <= SCALE,
        0 <= t < SCALE,
    ensures
        (if a <= b {
            a
        } else {
            b
        }) - 4 <= smooth_step_raw(a, b, t),
        smooth_step_raw(a, b, t) <= (if a >= b {
            a
        } else {
            b
        }) + 4,
{
    let s = SCALE as int;
    lemma_hermite_range(t);
    let h = hermite_raw(t);
    let blend = (h * (b - a)) / s;
    if b >= a {
        assert(h * (b - a) >= 0) by (nonlinear_arith)
            requires
                h >= 0,
                b >= a,
        ;
        lemma_div_floor_bound(h * (b - a), s);
        assert(h * (b - a) <= (s + 2) * (b - a)) by (nonlinear_arith)
            requires
                0 <= h <= s + 2,
                b - a >= 0,
        ;
        lemma_div_is_ordered(h * (b - a), (s + 2) * (b - a), s);
        assert((s + 2) * (b - a) == s * (b - a) + 2 * (b - a)) by (nonlinear_arith);
        lemma_div_shift(b - a, 2 * (b - a));
        lemma_div_is_ordered(2 * (b - a), 4 * s, s);
        lemma_div_multiples_vanish(4, s);
        assert(s * 4 == 4 * s) by (nonlinear_arith);
        assert(blend <= (b - a) + 4);
    } else {
        assert(h * (b - a) <= 0) by (nonlinear_arith)
            requires
                h >= 0,
                b - a <= 0,
        ;
        lemma_div_floor_bound(h * (b - a), s);
        assert(h * (b - a) >= (s + 2) * (b - a)) by (nonlinear_arith)
            requires
                0 <= h <= s + 2,
                b - a <= 0,
        ;
        lemma_div_is_ordered((s + 2) * (b - a), h * (b - a), s);
        assert((s + 2) * (b - a) == s * (b - a) + 2 * (b - a)) by (nonlinear_arith);
        lemma_div_shift(b - a, 2 * (b - a));
        lemma_div_is_ordered(-4 * s, 2 * (b - a), s);
        lemma_div_multiples_vanish(-4, s);
        assert(s * -4 == -4 * s) by (nonlinear_arith);
        assert(blend >= (b - a) - 4);
    }
}

/// `2^i` as an integer.
pub open spec fn pow2_int(i: nat) -> int
    decreases i,
{
    if i == 0 {
        1
    } else {
        2 * pow2_int((i - 1) as nat)
    }
}

/// Every power of two is positive.
pub proof fn lemma_pow2_int_pos(i: nat)
    ensures
        pow2_int(i) >= 1,
    decreases i,
{
    if i > 0 {
        lemma_pow2_int_pos((i - 1) as nat);
    }
}

/// Powers of two turn sums of exponents into products.
pub proof fn lemma_pow2_int_add(a: nat, b: nat)
    ensures
        pow2_int(a + b) == pow2_int(a) * pow2_int(b),
    decreases b,
{
    if b == 0 {
        assert(pow2_int(b) == 1);
    } else {
        lemma_pow2_int_add(a, (b - 1) as nat);
        assert(pow2_int(a + b) == 2 * pow2_int((a + b - 1) as nat));
        assert(pow2_int(b) == 2 * pow2_int((b - 1) as nat));
        assert(2 * (pow2_int(a) * pow2_int((b - 1) as nat)) == pow2_int(a) * (2 * pow2_int(
            (b - 1) as nat,
        ))) by (nonlinear_arith);
    }
}

/// The value of `2^16`.
pub proof fn lemma_pow2_int_16()
    ensures
        pow2_int(16nat) == 0x1_0000,
{
    assert(pow2_int(0nat) == 1);
    assert(pow2_int(1nat) == 2);
    assert(pow2_int(2nat) == 4);
    assert(pow2_int(3nat) == 8);
    assert(pow2_int(4nat) == 16);
    assert(pow2_int(5nat) == 32);
    assert(pow2_int(6nat) == 64);
    assert(pow2_int(7nat) == 128);
    assert(pow2_int(8nat) == 256);
    assert(pow2_int(9nat) == 512);
    assert(pow2_int(10nat) == 1024);
    assert(pow2_int(11nat) == 2048);
    assert(pow2_int(12nat) == 4096);
    assert(pow2_int(13nat) == 8192);
    assert(pow2_int(14nat) == 16384);
    assert(pow2_int(15nat) == 32768);
    assert(pow2_int(16nat) == 65536);
}

/// Powers of two up to `2^16` stay within the scale factor.
pub proof fn lemma_pow2_int_small(i: nat)
    requires
        i <= 16,
    ensures
        1 <= pow2_int(i) <= 0x1_0000,
    decreases i,
{
    lemma_pow2_int_pos(i);
    lemma_pow2_int_pos((16 - i) as nat);
    lemma_pow2_int_add(i, (16 - i) as nat);
    lemma_pow2_int_16();
    assert(pow2_int(i) * pow2_int((16 - i) as nat) == 0x1_0000);
    assert(pow2_int(i) <= 0x1_0000) by (nonlinear_arith)
        requires
            pow2_int(i) * pow2_int((16 - i) as nat) == 0x1_0000,
            pow2_int(i) >= 1,
            pow2_int((16 - i) as nat) >= 1,
    ;
}

/// The `i`-th power of the lacunarity in raw steps, each multiplication
/// floored back to raw steps.
pub open spec fn lac_pow(lac: int, i: nat) -> int
    decreases i,
{
    if i == 0 {
        SCALE as int
    } else {
        (lac_pow(lac, (i - 1) as nat) * lac) / (SCALE as int)
    }
}

/// The lacunarity powers stay within one scale unit for a lacunarity in
/// `[0, 1)`.
pub proof fn lemma_lac_pow_range(lac: int, i: nat)
    requires
        0 <= lac < SCALE,
    ensures
        0 <= lac_pow(lac, i) <= SCALE,
    decreases i,
{
    if i > 0 {
        lemma_lac_pow_range(lac, (i - 1) as nat);
        let p = lac_pow(lac, (i - 1) as nat);
        assert(p * lac >= 0) by (nonlinear_arith)
            requires
                p >= 0,
                lac >= 0,
        ;
        lemma_div_floor_bound(p * lac, SCALE as int);
        assert(p * lac <= (SCALE as int) * (SCALE as int)) by (nonlinear_arith)
            requires
                0 <= p <= SCALE,
                0 <= lac < SCALE,
        ;
        lemma_div_is_ordered(p * lac, (SCALE as int) * (SCALE as int), SCALE as int);
        lemma_div_multiples_vanish(SCALE as int, SCALE as int);
    }
}

/// The bound the summed bands obey: the lacunarity power of each executed
/// band, plus six raw steps of flooring slack per band.
pub open spec fn noise_bound(lac: int, n: int) -> int
    decreases n,
{
    if n <= 1 {
        0
    } else {
        noise_bound(lac, n - 1) + lac_pow(lac, (n - 1) as nat) + 6
    }
}

/// One band's contribution is bounded by its lacunarity power plus six
/// raw steps: the blend stays within the lattice values up to four steps,
/// and the weighting floor loses at most two more.
pub proof fn lemma_band_bound(seed: u32, lac: int, d: int, i: nat)
    requires
        0 <= lac < SCALE,
    ensures
        -(lac_pow(lac, i) + 6) <= band_raw(seed, lac, d, i),
        band_raw(seed, lac, d, i) <= lac_pow(lac, i) + 6,
{
    let s = SCALE as int;
    let scaled = d * pow2_int(i);
    let fl = scaled / s;
    let fr = scaled - fl * s;
    lemma_fundamental_div_mod(scaled, s);
    assert(fr == scaled % s) by (nonlinear_arith)
        requires
            scaled == s * (scaled / s) + scaled % s,
            fl == scaled / s,
            fr == scaled - fl * s,
    ;
    assert(0 <= fr < s);
    let va = lattice_value(seed, fl) * s;
    let vb = lattice_value(seed, fl + 1) * s;
    assert(-1 <= lattice_value(seed, fl) <= 1);
    assert(-1 <= lattice_value(seed, fl + 1) <= 1);
    assert(-s <= va <= s && -s <= vb <= s) by (nonlinear_arith)
        requires
            -1 <= lattice_value(seed, fl) <= 1,
            -1 <= lattice_value(seed, fl + 1) <= 1,
            va == lattice_value(seed, fl) * s,
            vb == lattice_value(seed, fl + 1) * s,
            s > 0,
    ;
    lemma_smooth_step_range(va, vb, fr);
    let sm = smooth_step_raw(va, vb, fr);
    assert(-(s + 4) <= sm <= s + 4);
    let lp = lac_pow(lac, i);
    lemma_lac_pow_range(lac, i);
    assert(sm * lp <= (s + 4) * lp) by (nonlinear_arith)
        requires
            sm <= s + 4,
            lp >= 0,
    ;
    assert(sm * lp >= (-(s + 4)) * lp) by (nonlinear_arith)
        requires
            sm >= -(s + 4),
            lp >= 0,
    ;
    lemma_div_is_ordered(sm * lp, (s + 4) * lp, s);
    lemma_div_is_ordered((-(s + 4)) * lp, sm * lp, s);
    assert((s + 4) * lp == s * lp + 4 * lp) by (nonlinear_arith);
    assert((-(s + 4)) * lp == s * (-lp) + (-(4 * lp))) by (nonlinear_arith);
    lemma_div_shift(lp, 4 * lp);
    lemma_div_shift(-lp, -(4 * lp));
    lemma_div_is_ordered(4 * lp, 4 * s, s);
    lemma_div_is_ordered(-(4 * s), -(4 * lp), s);
    lemma_div_multiples_vanish(4, s);
    lemma_div_multiples_vanish(-4, s);
    assert(s * 4 == 4 * s && s * -4 == -(4 * s)) by (nonlinear_arith);
    assert(4 * lp >= 0 && -(4 * lp) <= 0) by (nonlinear_arith)
        requires
            lp >= 0,
    ;
    lemma_div_floor_bound(4 * lp, s);
    lemma_div_floor_bound(-(4 * lp), s);
    assert(4 * lp <= 4 * s) by (nonlinear_arith)
        requires
            lp <= s,
    ;
}

/// The summed bands stay within the summed bound.
pub proof fn lemma_noise_sum_bound(seed: u32, lac: int, d: int, n: int)
    requires
        0 <= lac < SCALE,
    ensures
        -noise_bound(lac, n) <= noise_sum(seed, lac, d, n),
        noise_sum(seed, lac, d, n) <= noise_bound(lac, n),
    decreases n,
{
    if n > 1 {
        lemma_noise_sum_bound(seed, lac, d, n - 1);
        lemma_band_bound(seed, lac, d, (n - 1) as nat);
    }
}

/// For a lacunarity of at most one half, each power is at most half the
/// one before it.
pub proof fn lemma_lac_pow_halves(lac: int, i: nat)
    requires
        0 <= lac <= SCALE / 2,
    ensures
        2 * lac_pow(lac, i + 1) <= lac_pow(lac, i),
{
    let s = SCALE as int;
    lemma_lac_pow_range(lac, i);
    let p = lac_pow(lac, i);
    assert(p * lac <= p * (s / 2)) by (nonlinear_arith)
        requires
            p >= 0,
            lac <= s / 2,
    ;
    lemma_div_is_ordered(p * lac, p * (s / 2), s);
    lemma_fundamental_div_mod(p, 2);
    assert(p * (s / 2) == s * (p / 2) + (s / 2) * (p % 2)) by (nonlinear_arith)
        requires
            p == 2 * (p / 2) + p % 2,
            s == 65536,
    ;
    assert(0 <= (s / 2) * (p % 2) < s) by (nonlinear_arith)
        requires
            0 <= p % 2 < 2,
            s == 65536,
    ;
    vstd::arithmetic::div_mod::lemma_fundamental_div_mod_converse(
        p * (s / 2),
        s,
        p / 2,
        (s / 2) * (p % 2),
    );
    assert(lac_pow(lac, i + 1) <= p / 2);
}

/// For a lacunarity of at most one half the summed bound stays within two
/// lacunarity steps plus the flooring slack — under two units in all.
pub proof fn lemma_noise_bound_small(lac: int, n: int)
    requires
        0 <= lac <= SCALE / 2,
        1 <= n,
    ensures
        noise_bound(lac, n) <= 2 * lac + 6 * (n - 1),
        n >= 2 ==> noise_bound(lac, n) + lac_pow(lac, (n - 1) as nat) <= 2 * lac + 6 * (n - 1),
    decreases n,
{
    if n == 1 {
    } else if n == 2 {
        assert(lac_pow(lac, 0nat) == SCALE as int);
        lemma_div_multiples_vanish(lac, SCALE as int);
        assert(lac_pow(lac, 1nat) == ((SCALE as int) * lac) / (SCALE as int));
        assert(lac_pow(lac, 1nat) == lac);
        assert(noise_bound(lac, 1) == 0);
        assert(noise_bound(lac, 2) == noise_bound(lac, 1) + lac_pow(lac, 1nat) + 6);
    } else {
        lemma_noise_bound_small(lac, n - 1);
        lemma_lac_pow_halves(lac, (n - 2) as nat);
        assert((n - 2) as nat + 1 == (n - 1) as nat);
    }
}

/// The contribution of band `i` at raw distance `d`: the blend of the two
/// neighbouring lattice values of the `2^i`-scaled distance, weighed by
/// the `i`-th power of the lacunarity.
pub open spec fn band_raw(seed: u32, lac: int, d: int, i: nat) -> int {
    let scaled = d * pow2_int(i);
    let fl = scaled / (SCALE as int);
    let fr = scaled - fl * (SCALE as int);
    let va = lattice_value(seed, fl) * (SCALE as int);
    let vb = lattice_value(seed, fl + 1) * (SCALE as int);
    (smooth_step_raw(va, vb, fr) * lac_pow(lac, i)) / (SCALE as int)
}

/// The sum of the bands `1 .. n` (band 0 contributes nothing by design).
pub open spec fn noise_sum(seed: u32, lac: int, d: int, n: int) -> int
    decreases n,
{
    if n <= 1 {
        0
    } else {
        noise_sum(seed, lac, d, n - 1) + band_raw(seed, lac, d, (n - 1) as nat)
    }
}

/// A deterministic, seedable scalar noise field.
#[derive(Clone, Copy, Debug, PartialEq, Eq, Structural, Hash)]
pub struct FractalNoise {
    pub seed: u32,
    pub lacunarity: Fx,
    pub octaves: i8,
}

impl FractalNoise {
    /// The parameter ranges the field is defined over: a per-octave decay
    /// in `[0, 1)` and a small octave count.
    pub open spec fn wf(self) -> bool {
        &&& 0 <= self.octaves <= 16
        &&& 0 <= self.lacunarity.raw < SCALE
    }

    /// The value of the field at raw distance `d`.
    pub open spec fn value(self, d: int) -> int {
        noise_sum(self.seed, self.lacunarity.raw as int, d, self.octaves as int)
    }

    pub fn new(seed: u32, lacunarity: Fx, octaves: i8) -> (r: FractalNoise)
        ensures
            r == (FractalNoise { seed, lacunarity, octaves }),
    {
        FractalNoise { seed, lacunarity, octaves }
    }

    /// One round of the integer mixer.
    fn get_hash(i: u32) -> (r: u32)
        ensures
            r == hash_spec(i),
    {
        let a: u32 = i ^ (i >> 16);
        let b: u32 = a.wrapping_mul(0x21f0aaad);
        let c: u32 = b ^ (b >> 15);
        let d: u32 = c.wrapping_mul(0xd35a2d97);
        d ^ (d >> 15)
    }

    /// Clamp a floored lattice index into `u32`.
    fn sat_lattice_exec(n: i64) -> (r: u32)
        ensures
            r == sat_lattice(n as int),
    {
        if n < 0 {
            0
        } else if n > 0xFFFF_FFFF {
            0xFFFF_FFFF
        } else {
            n as u32
        }
    }

    /// The lattice value at index `n`, in raw steps: one of `-SCALE`, `0`,
    /// `SCALE`.
    fn lattice_val(seed: u32, n: i64) -> (r: i64)
        ensures
            r == lattice_value(seed, n as int) * (SCALE as int),
            -SCALE <= r <= SCALE,
    {
        let l: u32 = Self::sat_lattice_exec(n);
        let h: u32 = Self::get_hash(seed.wrapping_mul(l));
        ((h % 3) as i64 - 1) * SCALE
    }

    /// Cubic Hermite blend of two raw values at raw fraction `t`.
    fn smooth_step(a: i64, b: i64, t: i64) -> (r: i64)
        requires
            -SCALE <= a <= SCALE,
            -SCALE <= b <= SCALE,
            0 <= t < SCALE,
        ensures
            r == smooth_step_raw(a as int, b as int, t as int),
            -7 * SCALE <= r <= 7 * SCALE,
    {
        proof {
            lemma_mul_bound(t as int, t as int, SCALE as int, SCALE as int);
            lemma_div_floor_bound(t as int * t as int, SCALE as int);
        }
        let t2: i64 = div_floor_i64(t * t, SCALE);
        proof {
            assert(t as int * t as int <= SCALE as int * SCALE as int) by (nonlinear_arith)
                requires
                    0 <= t < SCALE,
            ;
            lemma_div_is_ordered(t as int * t as int, SCALE as int * SCALE as int, SCALE as int);
            lemma_div_multiples_vanish(SCALE as int, SCALE as int);
            assert(t2 <= SCALE);
            lemma_mul_bound(t2 as int, t as int, SCALE as int, SCALE as int);
            lemma_div_floor_bound(t2 as int * t as int, SCALE as int);
        }
        let t3: i64 = div_floor_i64(t2 * t, SCALE);
        proof {
            assert(t2 as int * t as int <= SCALE as int * SCALE as int) by (nonlinear_arith)
                requires
                    0 <= t2 <= SCALE,
                    0 <= t < SCALE,
            ;
            lemma_div_is_ordered(t2 as int * t as int, SCALE as int * SCALE as int, SCALE as int);
            lemma_div_multiples_vanish(SCALE as int, SCALE as int);
            assert(t3 <= SCALE);
        }
        let h: i64 = 3 * t2 - 2 * t3;
        proof {
            lemma_mul_bound(h as int, b as int - a as int, 3 * SCALE as int, 2 * SCALE as int);
            lemma_div_floor_bound(h as int * (b as int - a as int), SCALE as int);
            assert((h as int * (b as int - a as int)) / (SCALE as int) <= 6 * SCALE as int) by {
                assert(h as int * (b as int - a as int) <= 6 * SCALE as int * SCALE as int);
                lemma_div_is_ordered(
                    h as int * (b as int - a as int),
                    6 * SCALE as int * SCALE as int,
                    SCALE as int,
                );
                lemma_div_multiples_vanish(6 * SCALE as int, SCALE as int);
            }
            assert((h as int * (b as int - a as int)) / (SCALE as int) >= -6 * SCALE as int) by {
                assert(h as int * (b as int - a as int) >= (-6) * SCALE as int * SCALE as int);
                lemma_div_is_ordered(
                    (-6) * SCALE as int * SCALE as int,
                    h as int * (b as int - a as int),
                    SCALE as int,
                );
                lemma_div_multiples_vanish((-6) * SCALE as int, SCALE as int);
            }
        }
        let blend: i64 = div_floor_i64(h * (b - a), SCALE);
        a + blend
    }

    /// The value of the field at `distance`, exactly `self.value`.
    ///
    /// The result is a pure function of the field and the distance, so two
    /// evaluations at the same distance always agree.
    /// The contribution of one band: the `2^i`-scaled distance is split
    /// into lattice index and fraction, the two neighbouring lattice values
    /// are blended, and the blend is weighed by `lp`, the `i`-th power of
    /// the lacunarity.
    fn band(seed: u32, distance: i64, mult: i64, lp: i64, Ghost(i): Ghost<nat>, Ghost(lac): Ghost<int>) -> (r: i64)
        requires
            -DIST_LIMIT <= distance <= DIST_LIMIT,
            2 <= mult <= 0x1_0000,
            0 <= lp <= SCALE,
            mult == pow2_int(i),
            lp == lac_pow(lac, i),
        ensures
            r == band_raw(seed, lac, distance as int, i),
            -458752 <= r <= 458752,
    {
        proof {
            lemma_mul_bound(distance as int, mult as int, DIST_LIMIT as int, 0x1_0000);
            lemma_div_floor_bound(distance as int * mult as int, SCALE as int);
        }
        let scaled: i64 = distance * mult;
        let fl: i64 = div_floor_i64(scaled, SCALE);
        proof {
            lemma_fundamental_div_mod(scaled as int, SCALE as int);
        }
        let fr: i64 = scaled - fl * SCALE;
        let va: i64 = Self::lattice_val(seed, fl);
        let vb_ix: i64 = fl + 1;
        let vb: i64 = Self::lattice_val(seed, vb_ix);
        let sm: i64 = Self::smooth_step(va, vb, fr);
        proof {
            lemma_mul_bound(sm as int, lp as int, 7 * SCALE as int, SCALE as int);
            lemma_div_floor_bound(sm as int * lp as int, SCALE as int);
            assert((sm as int * lp as int) / (SCALE as int) <= 458752) by {
                assert(sm as int * lp as int <= 458752 * 65536) by (nonlinear_arith)
                    requires
                        -458752 <= sm <= 458752,
                        0 <= lp <= 65536,
                        SCALE == 65536,
                ;
                lemma_div_is_ordered(sm as int * lp as int, 458752int * 65536, SCALE as int);
                lemma_div_multiples_vanish(458752int, SCALE as int);
            }
            assert((sm as int * lp as int) / (SCALE as int) >= -458752) by {
                assert(sm as int * lp as int >= (-458752) * 65536) by (nonlinear_arith)
                    requires
                        -458752 <= sm <= 458752,
                        0 <= lp <= 65536,
                        SCALE == 65536,
                ;
                lemma_div_is_ordered((-458752int) * 65536, sm as int * lp as int, SCALE as int);
                lemma_div_multiples_vanish(-458752int, SCALE as int);
            }
        }
        div_floor_i64(sm * lp, SCALE)
    }

    /// The next power of the lacunarity, floored back to raw steps.
    fn next_lac_pow(lp: i64, lac_raw: i64, Ghost(i): Ghost<nat>, Ghost(lac): Ghost<int>) -> (r: i64)
        requires
            0 <= lp <= SCALE,
            0 <= lac_raw < SCALE,
            lp == lac_pow(lac, i),
            lac == lac_raw as int,
        ensures
            r == lac_pow(lac, i + 1),
            0 <= r <= SCALE,
    {
        proof {
            lemma_mul_bound(lp as int, lac_raw as int, SCALE as int, SCALE as int);
            lemma_div_floor_bound(lp as int * lac_raw as int, SCALE as int);
            assert((lp as int * lac_raw as int) / (SCALE as int) <= SCALE as int) by {
                assert(lp as int * lac_raw as int <= SCALE as int * SCALE as int)
                    by (nonlinear_arith)
                    requires
                        0 <= lp <= SCALE,
                        0 <= lac_raw < SCALE,
                ;
                lemma_div_is_ordered(
                    lp as int * lac_raw as int,
                    SCALE as int * SCALE as int,
                    SCALE as int,
                );
                lemma_div_multiples_vanish(SCALE as int, SCALE as int);
            }
        }
        div_floor_i64(lp * lac_raw, SCALE)
    }

    /// The value of the field at `distance`, exactly `self.value`.
    ///
    /// The result is a pure function of the field and the distance, so two
    /// evaluations at the same distance always agree.
    pub fn get(&self, distance: Fx) -> (r: Fx)
        requires
            self.wf(),
            -DIST_LIMIT <= distance.raw <= DIST_LIMIT,
        ensures
            r.raw == self.value(distance.raw as int),
            -noise_bound(self.lacunarity.raw as int, self.octaves as int) <= r.raw,
            r.raw <= noise_bound(self.lacunarity.raw as int, self.octaves as int),
            -NOISE_LIMIT <= r.raw <= NOISE_LIMIT,
    {
        let mut val: i64 = 0;
        let mut i: i8 = 1;
        let mut mult: i64 = 2;
        let mut lp: i64 = self.lacunarity.raw;
        let ghost lac: int = self.lacunarity.raw as int;
        proof {
            assert(pow2_int(0nat) == 1);
            assert(pow2_int(1nat) == 2 * pow2_int(0nat));
            assert(lac_pow(lac, 0nat) == SCALE as int);
            lemma_div_multiples_vanish(lac, SCALE as int);
            assert(lac_pow(lac, 1nat) == (lac_pow(lac, 0nat) * lac) / (SCALE as int));
            assert(lac_pow(lac, 1nat) == lac);
        }
        while i < self.octaves
            invariant
                self.wf(),
                -DIST_LIMIT <= distance.raw <= DIST_LIMIT,
                1 <= i <= 16,
                i <= self.octaves || (i == 1 && self.octaves <= 1),
                lac == self.lacunarity.raw as int,
                mult == pow2_int(i as nat),
                2 <= mult <= 0x1_0000,
                lp == lac_pow(lac, i as nat),
                0 <= lp <= SCALE,
                val == noise_sum(self.seed, lac, distance.raw as int, i as int),
                -458752 * ((i as int) - 1) <= val <= 458752 * ((i as int) - 1),
            decreases self.octaves - i,
        {
            let band: i64 = Self::band(
                self.seed,
                distance.raw,
                mult,
                lp,
                Ghost(i as nat),
                Ghost(lac),
            );
            val = val + band;
            lp = Self::next_lac_pow(lp, self.lacunarity.raw, Ghost(i as nat), Ghost(lac));
            proof {
                assert(pow2_int((i + 1) as nat) == 2 * pow2_int(i as nat));
                lemma_pow2_int_small((i + 1) as nat);
            }
            mult = mult * 2;
            i = i + 1;
        }
        proof {
            lemma_noise_sum_bound(
                self.seed,
                self.lacunarity.raw as int,
                distance.raw as int,
                self.octaves as int,
            );
        }
        Fx { raw: val }
    }
}

/// With zero octaves or one octave no band executes, so the field is zero
/// at every distance.
pub proof fn lemma_few_octaves_zero(f: FractalNoise, d: int)
    requires
        f.octaves <= 1,
    ensures
        f.value(d) == 0,
{
}

} // verus!
