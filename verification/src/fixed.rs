//! Fixed-point scalars.
//!
//! Every quantity of the drawing core (coordinates, widths, noise values)
//! is a multiple of `1/SCALE`, held as the integer number of such steps.
//! All operations round toward negative infinity, so each one has an exact
//! integer meaning and the whole pipeline is deterministic.
use vstd::prelude::*;

verus! {

use vstd::arithmetic::div_mod::{lemma_fundamental_div_mod, lemma_fundamental_div_mod_converse};

/// Raw steps per unit: a value of one unit is held as `SCALE` raw steps.
pub const SCALE: i64 = 65536;

/// Largest magnitude, in raw steps, of a scene coordinate (2^30).
pub const COORD_LIMIT: i64 = 0x4000_0000;

/// Product of a raw value by `SCALE`, flooring: the raw value of `a * b`
/// when `a` and `b` are raw fixed-point values.
pub open spec fn fxmul(a: int, b: int) -> int {
    (a * b) / (SCALE as int)
}

/// The raw value of `a / b` when `a` and `b` are raw fixed-point values,
/// flooring.
pub open spec fn fxdiv(a: int, b: int) -> int {
    (a * (SCALE as int)) / b
}

/// The floor of the square root: the unique `r >= 0` with
/// `r * r <= n < (r + 1) * (r + 1)`.
pub open spec fn sqrt_floor(n: int) -> int {
    choose|r: int| 0 <= r && #[trigger] (r * r) <= n < (r + 1) * (r + 1)
}

/// Any witness of the square-root bracketing is the value of `sqrt_floor`.
pub proof fn lemma_sqrt_floor(n: int, r: int)
    requires
        0 <= r,
        r * r <= n,
        n < (r + 1) * (r + 1),
    ensures
        sqrt_floor(n) == r,
{
    let s = choose|s: int| 0 <= s && #[trigger] (s * s) <= n < (s + 1) * (s + 1);
    assert(0 <= s && s * s <= n < (s + 1) * (s + 1));
    assert(s == r) by (nonlinear_arith)
        requires
            0 <= r,
            r * r <= n,
            n < (r + 1) * (r + 1),
            0 <= s,
            s * s <= n,
            n < (s + 1) * (s + 1),
    ;
}

/// Every nonnegative integer has a floored square root, so `sqrt_floor`
/// is bracketed by it.
pub proof fn lemma_sqrt_exists(n: int)
    requires
        0 <= n,
    ensures
        0 <= sqrt_floor(n),
        sqrt_floor(n) * sqrt_floor(n) <= n,
        n < (sqrt_floor(n) + 1) * (sqrt_floor(n) + 1),
    decreases n,
{
    if n == 0 {
        lemma_sqrt_floor(0, 0);
    } else {
        lemma_sqrt_exists(n - 1);
        let r = sqrt_floor(n - 1);
        if (r + 1) * (r + 1) <= n {
            assert(n == (r + 1) * (r + 1));
            assert(n < (r + 2) * (r + 2)) by (nonlinear_arith)
                requires
                    n == (r + 1) * (r + 1),
                    r >= 0,
            ;
            lemma_sqrt_floor(n, r + 1);
        } else {
            lemma_sqrt_floor(n, r);
        }
    }
}

/// A product of values bounded in magnitude is bounded by the product of
/// the bounds.
pub proof fn lemma_mul_bound(a: int, b: int, ba: int, bb: int)
    requires
        -ba <= a <= ba,
        -bb <= b <= bb,
        0 <= ba,
        0 <= bb,
    ensures
        -(ba * bb) <= a * b <= ba * bb,
{
    assert(-(ba * bb) <= a * b <= ba * bb) by (nonlinear_arith)
        requires
            -ba <= a <= ba,
            -bb <= b <= bb,
            0 <= ba,
            0 <= bb,
    ;
}

/// Flooring division shrinks magnitudes: for a positive divisor the
/// quotient lies between `-|a|` and `|a|`.
pub proof fn lemma_div_floor_bound(a: int, b: int)
    requires
        b >= 1,
    ensures
        a >= 0 ==> 0 <= a / b <= a,
        a < 0 ==> a <= a / b <= 0,
{
    lemma_fundamental_div_mod(a, b);
    let q = a / b;
    let m = a % b;
    assert(0 <= m < b);
    if a >= 0 {
        assert(0 <= q <= a) by (nonlinear_arith)
            requires
                a == b * q + m,
                0 <= m < b,
                b >= 1,
                a >= 0,
        ;
    } else {
        assert(a <= q <= 0) by (nonlinear_arith)
            requires
                a == b * q + m,
                0 <= m < b,
                b >= 1,
                a < 0,
        ;
    }
}

/// A value within `m` whole scale steps divides down to within `m`.
pub proof fn lemma_div_scale_bound(a: int, m: int)
    requires
        0 <= m,
        -m * (SCALE as int) <= a <= m * (SCALE as int),
    ensures
        -m <= a / (SCALE as int) <= m,
{
    vstd::arithmetic::div_mod::lemma_div_is_ordered(a, m * (SCALE as int), SCALE as int);
    vstd::arithmetic::div_mod::lemma_div_is_ordered(-m * (SCALE as int), a, SCALE as int);
    vstd::arithmetic::div_mod::lemma_div_multiples_vanish(m, SCALE as int);
    vstd::arithmetic::div_mod::lemma_div_multiples_vanish(-m, SCALE as int);
    assert(m * (SCALE as int) == (SCALE as int) * m) by (nonlinear_arith);
    assert(-m * (SCALE as int) == (SCALE as int) * -m) by (nonlinear_arith);
}

/// Flooring division of an `i128` by a positive divisor, computed through
/// unsigned division so the rounding direction is explicit.
pub fn div_floor_i128(a: i128, b: i128) -> (r: i128)
    requires
        b > 0,
        a > i128::MIN,
    ensures
        r == (a as int) / (b as int),
{
    proof {
        lemma_div_floor_bound(a as int, b as int);
    }
    if a >= 0 {
        let q: u128 = (a as u128) / (b as u128);
        proof {
            assert(a as u128 == a as int);
            assert(b as u128 == b as int);
        }
        q as i128
    } else {
        let na: u128 = (-a) as u128;
        let bu: u128 = b as u128;
        let q: u128 = na / bu;
        let m: u128 = na % bu;
        proof {
            assert(na as int == -(a as int));
            lemma_fundamental_div_mod(na as int, bu as int);
            assert(na as int == bu as int * (na as int / bu as int) + (na as int % bu as int));
            lemma_div_floor_bound(na as int, bu as int);
            assert(q as int == na as int / bu as int);
            assert(m as int == na as int % bu as int);
            if m == 0 {
                assert(a as int == -(q as int) * (b as int) + 0) by (nonlinear_arith)
                    requires
                        na as int == bu as int * (q as int) + (m as int),
                        m as int == 0,
                        na as int == -(a as int),
                        bu as int == b as int,
                ;
                lemma_fundamental_div_mod_converse(a as int, b as int, -(q as int), 0);
            } else {
                assert(a as int == (-(q as int) - 1) * (b as int) + (b as int - m as int))
                    by (nonlinear_arith)
                    requires
                        na as int == bu as int * (q as int) + (m as int),
                        na as int == -(a as int),
                        bu as int == b as int,
                ;
                assert(0 <= (b as int - m as int) < (b as int));
                lemma_fundamental_div_mod_converse(
                    a as int,
                    b as int,
                    -(q as int) - 1,
                    b as int - m as int,
                );
            }
        }
        if m == 0 {
            -(q as i128)
        } else {
            -(q as i128) - 1
        }
    }
}

/// Flooring division of an `i64` by a positive divisor.
pub fn div_floor_i64(a: i64, b: i64) -> (r: i64)
    requires
        b > 0,
    ensures
        r == (a as int) / (b as int),
{
    proof {
        lemma_div_floor_bound(a as int, b as int);
    }
    let r: i128 = div_floor_i128(a as i128, b as i128);
    r as i64
}

/// A fixed-point scalar: `raw` counts steps of `1/SCALE`.
#[derive(Clone, Copy, Debug, PartialEq, Eq, Structural, Hash)]
pub struct Fx {
    pub raw: i64,
}

impl Fx {
    /// The scalar with the given raw step count.
    pub fn new(raw: i64) -> (r: Fx)
        ensures
            r.raw == raw,
    {
        Fx { raw }
    }

    /// Zero.
    pub fn zero() -> (r: Fx)
        ensures
            r.raw == 0,
    {
        Fx { raw: 0 }
    }

    /// The scalar worth `u` whole units.
    pub fn from_units(u: i64) -> (r: Fx)
        requires
            -0x4000_0000_0000 <= u <= 0x4000_0000_0000,
        ensures
            r.raw == u * (SCALE as int),
    {
        Fx { raw: u * SCALE }
    }

    /// Exact sum.
    pub fn plus(self, o: Fx) -> (r: Fx)
        requires
            i64::MIN <= self.raw + o.raw <= i64::MAX,
        ensures
            r.raw == self.raw + o.raw,
    {
        Fx { raw: self.raw + o.raw }
    }

    /// Exact difference.
    pub fn minus(self, o: Fx) -> (r: Fx)
        requires
            i64::MIN <= self.raw - o.raw <= i64::MAX,
        ensures
            r.raw == self.raw - o.raw,
    {
        Fx { raw: self.raw - o.raw }
    }

    /// Exact negation.
    pub fn neg(self) -> (r: Fx)
        requires
            self.raw > i64::MIN,
        ensures
            r.raw == -self.raw,
    {
        Fx { raw: -self.raw }
    }

    /// Fixed-point product, flooring.
    pub fn times(self, o: Fx) -> (r: Fx)
        requires
            -0x7FFF_FFFF_FFFF_FFFF * 0x10000 <= self.raw * o.raw <= 0x7FFF_FFFF_FFFF_FFFF
                * 0x10000,
        ensures
            r.raw == fxmul(self.raw as int, o.raw as int),
    {
        let p: i128 = (self.raw as i128) * (o.raw as i128);
        proof {
            lemma_div_floor_bound(p as int, SCALE as int);
            assert((p as int) / (SCALE as int) == fxmul(self.raw as int, o.raw as int));
            assert(-0x7FFF_FFFF_FFFF_FFFF <= (p as int) / (SCALE as int) <= 0x7FFF_FFFF_FFFF_FFFF)
                by (nonlinear_arith)
                requires
                    -0x7FFF_FFFF_FFFF_FFFF * 0x10000 <= p as int <= 0x7FFF_FFFF_FFFF_FFFF
                        * 0x10000,
                    (p as int) % 0x10000 == (p as int) - 0x10000 * ((p as int) / 0x10000),
                    0 <= (p as int) % 0x10000 < 0x10000,
            {
                lemma_fundamental_div_mod(p as int, 0x10000);
            }
        }
        let q: i128 = div_floor_i128(p, 0x10000);
        Fx { raw: q as i64 }
    }

    /// Fixed-point quotient by a positive divisor, flooring.
    pub fn over(self, o: Fx) -> (r: Fx)
        requires
            o.raw >= 1,
            -0x7FFF_FFFF_FFFF <= self.raw <= 0x7FFF_FFFF_FFFF,
        ensures
            r.raw == fxdiv(self.raw as int, o.raw as int),
    {
        let p: i128 = (self.raw as i128) * (SCALE as i128);
        proof {
            lemma_mul_bound(self.raw as int, SCALE as int, 0x7FFF_FFFF_FFFF, 0x10000);
            assert(-0x7FFF_FFFF_FFFF_0000 <= p as int <= 0x7FFF_FFFF_FFFF_0000);
            lemma_div_floor_bound(p as int, o.raw as int);
        }
        let q: i128 = div_floor_i128(p, o.raw as i128);
        Fx { raw: q as i64 }
    }

    /// Exact product by a small integer.
    pub fn scale_int(self, k: i64) -> (r: Fx)
        requires
            i64::MIN <= self.raw * k <= i64::MAX,
        ensures
            r.raw == self.raw * k,
    {
        let p: i128 = (self.raw as i128) * (k as i128);
        Fx { raw: p as i64 }
    }

    /// The whole-unit floor of the scalar.
    pub fn floor_units(self) -> (r: i64)
        ensures
            r == (self.raw as int) / (SCALE as int),
    {
        div_floor_i64(self.raw, SCALE)
    }

    /// The smaller of two scalars.
    pub fn min(self, o: Fx) -> (r: Fx)
        ensures
            r.raw == if self.raw <= o.raw {
                self.raw
            } else {
                o.raw
            },
    {
        if self.raw <= o.raw {
            self
        } else {
            o
        }
    }

    /// The larger of two scalars.
    pub fn max(self, o: Fx) -> (r: Fx)
        ensures
            r.raw == if self.raw >= o.raw {
                self.raw
            } else {
                o.raw
            },
    {
        if self.raw >= o.raw {
            self
        } else {
            o
        }
    }
}

/// Floor of the square root of a raw value, by bisection.
pub fn isqrt_u64(n: u64) -> (r: u64)
    ensures
        r * r <= n,
        n < (r + 1) * (r + 1),
        r == sqrt_floor(n as int),
{
    let mut lo: u64 = 0;
    let mut hi: u64 = 0x1_0000_0000;
    proof {
        assert((hi as int) * (hi as int) > n as int);
    }
    while hi - lo > 1
        invariant
            0 <= lo < hi <= 0x1_0000_0000,
            lo * lo <= n,
            n < hi * hi,
        decreases hi - lo,
    {
        let mid: u64 = lo + (hi - lo) / 2;
        assert(lo < mid < hi);
        proof {
            lemma_mul_bound(mid as int, mid as int, 0xFFFF_FFFF, 0xFFFF_FFFF);
        }
        if mid * mid <= n {
            lo = mid;
        } else {
            hi = mid;
        }
    }
    proof {
        assert(hi == lo + 1);
        lemma_sqrt_floor(n as int, lo as int);
    }
    lo
}

} // verus!
