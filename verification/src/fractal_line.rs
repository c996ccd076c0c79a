//! Fractal lines and their tessellation.
//!
//! A `FractalLine` is a straight segment from `start` to `end` perturbed
//! perpendicular to its direction by a `FractalNoise` field. The path
//! generator emits one vertex per sample step plus the exact endpoint:
//! vertex `k` sits at the linear interpolation of the endpoints, displaced
//! along the unit perpendicular by `width * envelope(t) * 3 * noise(d)`,
//! where the envelope `1 - (2t - 1)^16` pins both endpoints down. The
//! number of sample steps is `floor((length / wavelength) /
//! sample_distance)`, so the tessellation density does not depend on the
//! raw pixel length.
use vstd::prelude::*;

verus! {

use vstd::arithmetic::div_mod::{
    lemma_fundamental_div_mod,
    lemma_div_is_ordered,
    lemma_div_is_ordered_by_denominator,
    lemma_div_multiples_vanish,
    lemma_div_basics,
};
use crate::fixed::{Fx, SCALE, fxmul, fxdiv, sqrt_floor, isqrt_u64, lemma_sqrt_floor, lemma_sqrt_exists,
    lemma_mul_bound, lemma_div_floor_bound, lemma_div_scale_bound, div_floor_i64, div_floor_i128};
use crate::geometry::{FxPoint, FxRect};
use crate::noise::{FractalNoise, DIST_LIMIT, NOISE_LIMIT, noise_bound, lemma_noise_sum_bound,
    lemma_noise_bound_small, lemma_div_shift};

/// Largest width of a line, in raw steps (256 units).
pub const WIDTH_LIMIT: i64 = 0x100_0000;

/// Smallest wavelength and sample distance, in raw steps (1/16 unit).
pub const RES_MIN: i64 = 4096;

/// Largest wavelength, sample distance and offset magnitude, in raw steps.
pub const RES_MAX: i64 = 0x4000_0000;

/// Bound on the magnitude of a path vertex coordinate, in raw steps
/// (2^51): base point plus a conservatively bounded displacement.
pub const VERTEX_LIMIT: i64 = 0x8_0000_0000_0000;

/// Both coordinates of the point are bounded by `VERTEX_LIMIT`.
pub open spec fn vertex_in_limit(p: FxPoint) -> bool {
    &&& -VERTEX_LIMIT <= p.x.raw <= VERTEX_LIMIT
    &&& -VERTEX_LIMIT <= p.y.raw <= VERTEX_LIMIT
}

/// The smoothing envelope `1 - (2t - 1)^16` at raw fraction `t`, computed
/// by four squarings, each floored back to raw steps. It is exactly zero
/// at `t == 0`, so a path is anchored at its start.
pub open spec fn env_raw(t: int) -> int {
    let u = 2 * t - (SCALE as int);
    let p2 = (u * u) / (SCALE as int);
    let p4 = (p2 * p2) / (SCALE as int);
    let p8 = (p4 * p4) / (SCALE as int);
    let p16 = (p8 * p8) / (SCALE as int);
    (SCALE as int) - p16
}

/// A straight segment perturbed by a fractal noise field.
#[derive(Clone, Copy, Debug, PartialEq, Eq, Structural, Hash)]
pub struct FractalLine {
    pub start: FxPoint,
    pub end: FxPoint,
    pub noise: FractalNoise,
    pub width: Fx,
    pub wavelength: Fx,
    pub sample_distance: Fx,
    pub offset: Fx,
}

impl FractalLine {
    /// The parameter ranges the generator is defined over.
    pub open spec fn wf(self) -> bool {
        &&& self.start.in_range()
        &&& self.end.in_range()
        &&& self.noise.wf()
        &&& 0 <= self.width.raw <= WIDTH_LIMIT
        &&& RES_MIN <= self.wavelength.raw <= RES_MAX
        &&& RES_MIN <= self.sample_distance.raw <= RES_MAX
        &&& -RES_MAX <= self.offset.raw <= RES_MAX
    }

    /// x component of the direction `start - end`.
    pub open spec fn dir_x(self) -> int {
        self.start.x.raw - self.end.x.raw
    }

    /// y component of the direction `start - end`.
    pub open spec fn dir_y(self) -> int {
        self.start.y.raw - self.end.y.raw
    }

    /// The squared length of the segment, in raw steps squared.
    pub open spec fn len_sq(self) -> int {
        self.dir_x() * self.dir_x() + self.dir_y() * self.dir_y()
    }

    /// The length of the segment in raw steps, floored.
    pub open spec fn length_raw(self) -> int {
        sqrt_floor(self.len_sq())
    }

    /// The sample-step count as a raw fixed-point value:
    /// `(length / wavelength) / sample_distance`.
    pub open spec fn segments_fx(self) -> int {
        fxdiv(fxdiv(self.length_raw(), self.wavelength.raw as int), self.sample_distance.raw as int)
    }

    /// The number of sample steps before the forced endpoint.
    pub open spec fn sample_count(self) -> int {
        self.segments_fx() / (SCALE as int)
    }

    /// The fraction `k / segments` at sample step `k`, in raw steps.
    pub open spec fn t_of(self, k: int) -> int {
        fxdiv(k * (SCALE as int), self.segments_fx())
    }

    /// The noise-axis distance at sample step `k`:
    /// `length * t / wavelength + offset`.
    pub open spec fn noise_dist(self, k: int) -> int {
        fxdiv(fxmul(self.length_raw(), self.t_of(k)), self.wavelength.raw as int) + self.offset.raw
    }

    /// The signed displacement magnitude at sample step `k`:
    /// `(width * envelope) * (3 * noise)`.
    pub open spec fn disp_scalar(self, k: int) -> int {
        fxmul(
            fxmul(self.width.raw as int, env_raw(self.t_of(k))),
            3 * self.noise.value(self.noise_dist(k)),
        )
    }

    /// The x coordinate of vertex `k`: the interpolated base point plus
    /// the displacement along the unit perpendicular `(dir_y, -dir_x) /
    /// length`.
    pub open spec fn vertex_x(self, k: int) -> int {
        self.start.x.raw + fxmul(self.end.x.raw - self.start.x.raw, self.t_of(k)) + (self.dir_y()
            * self.disp_scalar(k)) / self.length_raw()
    }

    /// The y coordinate of vertex `k`.
    pub open spec fn vertex_y(self, k: int) -> int {
        self.start.y.raw + fxmul(self.end.y.raw - self.start.y.raw, self.t_of(k)) + (-self.dir_x()
            * self.disp_scalar(k)) / self.length_raw()
    }

    /// Vertex `k` of the tessellated path, for `0 <= k < sample_count`.
    pub open spec fn vertex(self, k: int) -> FxPoint {
        FxPoint { x: Fx { raw: self.vertex_x(k) as i64 }, y: Fx { raw: self.vertex_y(k) as i64 } }
    }

    /// The length of the segment in raw steps.
    fn length_exec(&self) -> (len: i64)
        requires
            self.wf(),
        ensures
            len == self.length_raw(),
            0 <= len < 0x1_0000_0000,
            len * len <= self.len_sq() < (len + 1) * (len + 1),
    {
        let dirx: i64 = self.start.x.raw - self.end.x.raw;
        let diry: i64 = self.start.y.raw - self.end.y.raw;
        proof {
            lemma_mul_bound(dirx as int, dirx as int, 0x8000_0000, 0x8000_0000);
            lemma_mul_bound(diry as int, diry as int, 0x8000_0000, 0x8000_0000);
            assert(dirx as int * dirx as int >= 0) by (nonlinear_arith);
            assert(diry as int * diry as int >= 0) by (nonlinear_arith);
        }
        let sq: i128 = (dirx as i128) * (dirx as i128) + (diry as i128) * (diry as i128);
        let n: u64 = sq as u64;
        let r: u64 = isqrt_u64(n);
        proof {
            assert(r < 0x1_0000_0000) by (nonlinear_arith)
                requires
                    r * r <= n,
                    n as int <= 0x8000_0000_0000_0000,
            ;
        }
        r as i64
    }

    /// The conservative bounding rectangle: the corner rectangle of the
    /// endpoints grown by ten and a half widths in both axes.
    pub fn aabb(&self) -> (r: FxRect)
        requires
            self.wf(),
        ensures
            r == self.spec_aabb(),
            r.ordered(),
            r.contains_pt(self.start),
            r.contains_pt(self.end),
            self.width.raw > 0 ==> r.x0.raw < r.x1.raw && r.y0.raw < r.y1.raw,
    {
        let base: FxRect = FxRect::from_points(self.start, self.end);
        let amt: i64 = div_floor_i64(self.width.raw * 21, 2);
        proof {
            lemma_div_floor_bound(self.width.raw as int * 21, 2);
        }
        base.inflate(Fx::new(amt), Fx::new(amt))
    }

    /// The bounding rectangle as a value.
    pub open spec fn spec_aabb(self) -> FxRect {
        let amt = (self.width.raw * 21) / 2;
        FxRect {
            x0: Fx {
                raw: (if self.start.x.raw <= self.end.x.raw {
                    self.start.x.raw as int
                } else {
                    self.end.x.raw as int
                } - amt) as i64,
            },
            y0: Fx {
                raw: (if self.start.y.raw <= self.end.y.raw {
                    self.start.y.raw as int
                } else {
                    self.end.y.raw as int
                } - amt) as i64,
            },
            x1: Fx {
                raw: (if self.start.x.raw <= self.end.x.raw {
                    self.end.x.raw as int
                } else {
                    self.start.x.raw as int
                } + amt) as i64,
            },
            y1: Fx {
                raw: (if self.start.y.raw <= self.end.y.raw {
                    self.end.y.raw as int
                } else {
                    self.start.y.raw as int
                } + amt) as i64,
            },
        }
    }

    /// The tessellated path: `sample_count` perturbed vertices followed by
    /// the exact endpoint. A zero-length line yields the single vertex
    /// `end`.
    pub fn path_points(&self) -> (pts: Vec<FxPoint>)
        requires
            self.wf(),
        ensures
            pts@.len() == self.sample_count() + 1,
            pts@[pts@.len() - 1] == self.end,
            forall|k: int| 0 <= k < self.sample_count() ==> #[trigger] pts@[k] == self.vertex(k),
            forall|k: int| 0 <= k < pts@.len() ==> vertex_in_limit(#[trigger] pts@[k]),
    {
        let len_raw: i64 = self.length_exec();
        let dirx: i64 = self.start.x.raw - self.end.x.raw;
        let diry: i64 = self.start.y.raw - self.end.y.raw;
        let lfx: Fx = Fx::new(len_raw);
        let q1: Fx = lfx.over(self.wavelength);
        proof {
            lemma_nonneg_div(len_raw as int, self.wavelength.raw as int);
            lemma_div_is_ordered_by_denominator(
                len_raw as int * (SCALE as int),
                RES_MIN as int,
                self.wavelength.raw as int,
            );
            lemma_div_is_ordered(
                len_raw as int * (SCALE as int),
                0x1_0000_0000_0000,
                RES_MIN as int,
            );
            lemma_div_multiples_vanish(0x10_0000_0000, RES_MIN as int);
            assert(0 <= q1.raw <= 0x10_0000_0000);
        }
        let q2: Fx = q1.over(self.sample_distance);
        proof {
            lemma_nonneg_div(q1.raw as int, self.sample_distance.raw as int);
            lemma_div_is_ordered_by_denominator(
                q1.raw as int * (SCALE as int),
                RES_MIN as int,
                self.sample_distance.raw as int,
            );
            lemma_div_is_ordered(
                q1.raw as int * (SCALE as int),
                0x100_0000_0000_0000,
                RES_MIN as int,
            );
            lemma_div_multiples_vanish(0x100_0000_0000, RES_MIN as int);
            assert(0 <= q2.raw <= 0x100_0000_0000);
        }
        let n: i64 = q2.floor_units();
        proof {
            lemma_div_floor_bound(q2.raw as int, SCALE as int);
            lemma_div_is_ordered(q2.raw as int, 0x100_0000_0000, SCALE as int);
            lemma_div_multiples_vanish(0x100_0000, SCALE as int);
            assert(0 <= n <= 0x100_0000);
            assert(n == self.sample_count());
        }
        let mut pts: Vec<FxPoint> = Vec::new();
        let mut k: i64 = 0;
        while k < n
            invariant
                self.wf(),
                0 <= k <= n,
                n <= 0x100_0000,
                pts@.len() == k,
                forall|j: int| 0 <= j < k ==> #[trigger] pts@[j] == self.vertex(j),
                forall|j: int| 0 <= j < k ==> vertex_in_limit(#[trigger] pts@[j]),
                len_raw == self.length_raw(),
                lfx.raw == len_raw,
                len_raw * len_raw <= self.len_sq() < (len_raw + 1) * (len_raw + 1),
                0 <= len_raw < 0x1_0000_0000,
                dirx == self.dir_x(),
                diry == self.dir_y(),
                q2.raw == self.segments_fx(),
                0 <= q2.raw <= 0x100_0000_0000,
                n == self.sample_count(),
            decreases n - k,
        {
            proof {
                lemma_step_in_segments(k as int, n as int, q2.raw as int);
                if len_raw == 0 {
                    lemma_div_basics(self.wavelength.raw as int);
                    lemma_div_basics(self.sample_distance.raw as int);
                    lemma_div_basics(SCALE as int);
                    assert(fxdiv(0, self.wavelength.raw as int) == 0);
                    assert(self.segments_fx() == 0);
                }
                assert(len_raw >= 1);
                assert(-len_raw <= dirx <= len_raw && -len_raw <= diry <= len_raw)
                    by (nonlinear_arith)
                    requires
                        len_raw * len_raw <= dirx * dirx + diry * diry,
                        dirx * dirx + diry * diry < (len_raw + 1) * (len_raw + 1),
                        len_raw >= 0,
                ;
            }
            let t: Fx = Fx::from_units(k).over(q2);
            proof {
                lemma_div_floor_bound(k as int * (SCALE as int) * (SCALE as int), q2.raw as int);
                lemma_t_fraction(k as int, q2.raw as int);
                assert(t.raw == self.t_of(k as int));
            }
            proof {
                lemma_mul_bound(len_raw as int, t.raw as int, 0x1_0000_0000, SCALE as int);
            }
            let base: Fx = lfx.times(t);
            proof {
                lemma_div_scale_bound(len_raw as int * t.raw as int, 0x1_0000_0000);
            }
            let nd0: Fx = base.over(self.wavelength);
            proof {
                lemma_div_floor_bound(base.raw as int * (SCALE as int), self.wavelength.raw as int);
                lemma_div_is_ordered_by_denominator(
                    base.raw as int * (SCALE as int),
                    RES_MIN as int,
                    self.wavelength.raw as int,
                );
                lemma_nonneg_div(base.raw as int, self.wavelength.raw as int);
                lemma_div_is_ordered(
                    base.raw as int * (SCALE as int),
                    0x1_0000_0000_0000,
                    RES_MIN as int,
                );
                lemma_div_multiples_vanish(0x10_0000_0000, RES_MIN as int);
                assert(0 <= nd0.raw <= 0x10_0000_0000);
            }
            let nd: Fx = nd0.plus(self.offset);
            let v: Fx = self.noise.get(nd);
            let v3: Fx = v.scale_int(3);
            let env: i64 = envelope_exec(t.raw);
            proof {
                lemma_mul_bound(self.width.raw as int, env as int, WIDTH_LIMIT as int, SCALE as int);
            }
            let m: Fx = self.width.times(Fx::new(env));
            proof {
                lemma_div_scale_bound(self.width.raw as int * env as int, WIDTH_LIMIT as int);
                lemma_mul_bound(m.raw as int, v3.raw as int, WIDTH_LIMIT as int, 3 * NOISE_LIMIT as int);
            }
            let m2: Fx = m.times(v3);
            proof {
                lemma_div_scale_bound(m.raw as int * v3.raw as int, 0x4_0000_0000_0000);
            }
            let dx_disp: i64 = disp_component(diry, m2.raw, len_raw);
            let dy_disp: i64 = disp_component(-dirx, m2.raw, len_raw);
            proof {
                lemma_mul_bound(
                    self.end.x.raw - self.start.x.raw,
                    t.raw as int,
                    0x8000_0000,
                    SCALE as int,
                );
                lemma_mul_bound(
                    self.end.y.raw - self.start.y.raw,
                    t.raw as int,
                    0x8000_0000,
                    SCALE as int,
                );
            }
            let fx_dx: Fx = Fx::new(self.end.x.raw - self.start.x.raw).times(t);
            let fy_dy: Fx = Fx::new(self.end.y.raw - self.start.y.raw).times(t);
            proof {
                lemma_div_scale_bound((self.end.x.raw - self.start.x.raw) * t.raw, 0x8000_0000);
                lemma_div_scale_bound((self.end.y.raw - self.start.y.raw) * t.raw, 0x8000_0000);
            }
            let vx: i64 = self.start.x.raw + fx_dx.raw + dx_disp;
            let vy: i64 = self.start.y.raw + fy_dy.raw + dy_disp;
            proof {
                assert(vx == self.vertex_x(k as int));
                assert(vy == self.vertex_y(k as int));
            }
            pts.push(FxPoint { x: Fx::new(vx), y: Fx::new(vy) });
            k = k + 1;
        }
        pts.push(self.end);
        pts
    }
}

/// Inside the loop, the step times the scale stays one whole scale short
/// of the segment value.
proof fn lemma_step_in_segments(k: int, n: int, q2: int)
    requires
        0 <= k < n,
        n == q2 / (SCALE as int),
        -0x7FFF_FFFF_FFFF <= q2 <= 0x7FFF_FFFF_FFFF,
    ensures
        q2 >= 1,
        (k + 1) * (SCALE as int) <= q2,
        k * (SCALE as int) <= 0x7FFF_FFFF_FFFF,
        0 <= k * (SCALE as int),
{
    lemma_fundamental_div_mod(q2, SCALE as int);
    assert((SCALE as int) * (q2 / (SCALE as int)) >= (SCALE as int) * (k + 1)) by (nonlinear_arith)
        requires
            q2 / (SCALE as int) >= k + 1,
    ;
    assert(q2 >= (k + 1) * (SCALE as int)) by (nonlinear_arith)
        requires
            q2 == (SCALE as int) * (q2 / (SCALE as int)) + q2 % (SCALE as int),
            0 <= q2 % (SCALE as int),
            (SCALE as int) * (q2 / (SCALE as int)) >= (SCALE as int) * (k + 1),
    ;
    assert(0 <= k * (SCALE as int) && k * (SCALE as int) <= q2 - (SCALE as int))
        by (nonlinear_arith)
        requires
            0 <= k,
            (k + 1) * (SCALE as int) <= q2,
    ;
}

/// The fraction at a step before the last stays below one unit.
proof fn lemma_t_fraction(k: int, q2: int)
    requires
        0 <= k,
        q2 >= 1,
        (k + 1) * (SCALE as int) <= q2,
    ensures
        0 <= fxdiv(k * (SCALE as int), q2) < (SCALE as int),
{
    let x = k * (SCALE as int) * (SCALE as int);
    assert(x >= 0) by (nonlinear_arith)
        requires
            0 <= k,
            x == k * (SCALE as int) * (SCALE as int),
    ;
    lemma_div_floor_bound(x, q2);
    assert(x < (SCALE as int) * q2) by (nonlinear_arith)
        requires
            (k + 1) * (SCALE as int) <= q2,
            0 <= k,
            x == k * (SCALE as int) * (SCALE as int),
    ;
    lemma_fundamental_div_mod(x, q2);
    assert(x / q2 < (SCALE as int)) by (nonlinear_arith)
        requires
            x == q2 * (x / q2) + x % q2,
            0 <= x % q2 < q2,
            x < (SCALE as int) * q2,
            q2 >= 1,
    ;
}

/// A nonnegative value divided by a positive one stays nonnegative.
proof fn lemma_nonneg_div(a: int, b: int)
    requires
        0 <= a,
        1 <= b,
    ensures
        0 <= fxdiv(a, b),
{
    lemma_div_floor_bound(a * (SCALE as int), b);
    assert(a * (SCALE as int) >= 0) by (nonlinear_arith)
        requires
            0 <= a,
    ;
}

/// The smoothing envelope at raw fraction `t`.
fn envelope_exec(t: i64) -> (r: i64)
    requires
        0 <= t < SCALE,
    ensures
        r == env_raw(t as int),
        0 <= r <= SCALE,
{
    let u: i64 = 2 * t - SCALE;
    let p2: i64 = square_step(u);
    let p4: i64 = square_step(p2);
    let p8: i64 = square_step(p4);
    let p16: i64 = square_step(p8);
    SCALE - p16
}

/// One squaring of the envelope chain: `(v * v) / SCALE`, which stays in
/// `[0, SCALE]` for inputs in `[-SCALE, SCALE]`.
fn square_step(v: i64) -> (r: i64)
    requires
        -SCALE <= v <= SCALE,
    ensures
        r == (v as int * v as int) / (SCALE as int),
        0 <= r <= SCALE,
{
    proof {
        lemma_mul_bound(v as int, v as int, SCALE as int, SCALE as int);
        assert(v as int * v as int >= 0) by (nonlinear_arith);
        lemma_div_scale_bound(v as int * v as int, SCALE as int);
        lemma_div_floor_bound(v as int * v as int, SCALE as int);
    }
    div_floor_i64(v * v, SCALE)
}

/// One perpendicular displacement component: `(d * m) / len`, whose
/// magnitude stays within that of `m` because `|d| <= len`.
fn disp_component(d: i64, m: i64, len: i64) -> (r: i64)
    requires
        1 <= len <= 0x1_0000_0000,
        -len <= d <= len,
        -0x4_0000_0000_0000 <= m <= 0x4_0000_0000_0000,
    ensures
        r == (d as int * m as int) / (len as int),
        -0x4_0000_0000_0000 <= r <= 0x4_0000_0000_0000,
{
    proof {
        lemma_mul_bound(d as int, m as int, len as int, 0x4_0000_0000_0000);
    }
    let p: i128 = (d as i128) * (m as i128);
    proof {
        lemma_div_is_ordered(p as int, len as int * 0x4_0000_0000_0000, len as int);
        lemma_div_is_ordered(len as int * (-0x4_0000_0000_0000), p as int, len as int);
        lemma_div_multiples_vanish(0x4_0000_0000_0000, len as int);
        lemma_div_multiples_vanish(-0x4_0000_0000_0000, len as int);
    }
    let q: i128 = div_floor_i128(p, len as i128);
    q as i64
}

/// A zero-length line has no sample steps: its path is the single vertex
/// `end`, and nothing in the generator divides by the zero length.
pub proof fn lemma_zero_length(l: FractalLine)
    requires
        l.wf(),
        l.start == l.end,
    ensures
        l.sample_count() == 0,
{
    assert(l.len_sq() == 0);
    lemma_sqrt_floor(0, 0);
    assert(l.length_raw() == 0);
    lemma_div_basics(l.wavelength.raw as int);
    assert(fxdiv(0, l.wavelength.raw as int) == 0);
    lemma_div_basics(l.sample_distance.raw as int);
    assert(l.segments_fx() == 0);
    lemma_div_basics(SCALE as int);
}

/// The segment value and the length are nonnegative, and a positive
/// sample count forces a positive length.
pub proof fn lemma_path_shape(l: FractalLine)
    requires
        l.wf(),
    ensures
        0 <= l.length_raw(),
        0 <= l.segments_fx(),
        0 <= l.sample_count(),
        l.sample_count() >= 1 ==> l.length_raw() >= 1 && l.segments_fx() >= SCALE,
{
    assert(l.len_sq() >= 0) by (nonlinear_arith);
    lemma_sqrt_exists(l.len_sq());
    let len = l.length_raw();
    lemma_nonneg_div(len, l.wavelength.raw as int);
    let q1 = fxdiv(len, l.wavelength.raw as int);
    lemma_nonneg_div(q1, l.sample_distance.raw as int);
    let q2 = l.segments_fx();
    lemma_div_floor_bound(q2, SCALE as int);
    if l.sample_count() >= 1 {
        lemma_fundamental_div_mod(q2, SCALE as int);
        assert(q2 >= SCALE) by (nonlinear_arith)
            requires
                q2 == (SCALE as int) * (q2 / (SCALE as int)) + q2 % (SCALE as int),
                0 <= q2 % (SCALE as int),
                q2 / (SCALE as int) >= 1,
        ;
        if len == 0 {
            lemma_div_basics(l.wavelength.raw as int);
            lemma_div_basics(l.sample_distance.raw as int);
            assert(fxdiv(0, l.wavelength.raw as int) == 0);
            assert(q2 == 0);
        }
    }
}

/// The first vertex of a path with at least one sample step is exactly
/// `start`: the smoothing envelope vanishes at fraction zero.
pub proof fn lemma_first_vertex_is_start(l: FractalLine)
    requires
        l.wf(),
        l.sample_count() >= 1,
    ensures
        l.vertex(0) == l.start,
{
    lemma_path_shape(l);
    let q2 = l.segments_fx();
    let len = l.length_raw();
    lemma_div_basics(q2);
    assert(l.t_of(0) == fxdiv(0, q2));
    assert(fxdiv(0, q2) == 0);
    assert(env_raw(0) == 0) by {
        let u = 2 * 0 - (SCALE as int);
        assert(u * u == (SCALE as int) * (SCALE as int)) by (nonlinear_arith)
            requires
                u == -(SCALE as int),
        ;
        lemma_div_multiples_vanish(SCALE as int, SCALE as int);
        assert((u * u) / (SCALE as int) == SCALE as int);
    }
    assert(fxmul(l.width.raw as int, 0) == 0) by {
        lemma_div_basics(SCALE as int);
        assert(l.width.raw as int * 0 == 0);
    }
    let v3 = 3 * l.noise.value(l.noise_dist(0));
    assert(l.disp_scalar(0) == 0) by {
        lemma_div_basics(SCALE as int);
        assert(0 * v3 == 0);
        assert(fxmul(0, v3) == 0);
    }
    lemma_div_basics(len);
    assert((l.dir_y() * 0) / len == 0) by {
        assert(l.dir_y() * 0 == 0);
        lemma_div_basics(len);
    }
    assert((-l.dir_x() * 0) / len == 0) by {
        assert(-l.dir_x() * 0 == 0);
        lemma_div_basics(len);
    }
    assert(fxmul(l.end.x.raw - l.start.x.raw, 0) == 0) by {
        assert((l.end.x.raw - l.start.x.raw) * 0 == 0);
        lemma_div_basics(SCALE as int);
    }
    assert(fxmul(l.end.y.raw - l.start.y.raw, 0) == 0) by {
        assert((l.end.y.raw - l.start.y.raw) * 0 == 0);
        lemma_div_basics(SCALE as int);
    }
    assert(l.vertex_x(0) == l.start.x.raw);
    assert(l.vertex_y(0) == l.start.y.raw);
}

/// One squaring of the envelope chain stays within `[0, SCALE]`.
proof fn lemma_square_range(v: int)
    requires
        -SCALE <= v <= SCALE,
    ensures
        0 <= (v * v) / (SCALE as int) <= SCALE,
{
    let s = SCALE as int;
    assert(v * v >= 0) by (nonlinear_arith);
    lemma_div_floor_bound(v * v, s);
    assert(v * v <= s * s) by (nonlinear_arith)
        requires
            -s <= v <= s,
    ;
    lemma_div_is_ordered(v * v, s * s, s);
    lemma_div_multiples_vanish(s, s);
}

/// The staged envelope stays within `[0, SCALE]` for fractions in
/// `[0, SCALE)`.
pub proof fn lemma_env_range(t: int)
    requires
        0 <= t < SCALE,
    ensures
        0 <= env_raw(t) <= SCALE,
{
    let s = SCALE as int;
    let u = 2 * t - s;
    lemma_square_range(u);
    let p2 = (u * u) / s;
    lemma_square_range(p2);
    let p4 = (p2 * p2) / s;
    lemma_square_range(p4);
    let p8 = (p4 * p4) / s;
    lemma_square_range(p8);
}

/// A flooring product with a fraction in `[0, SCALE]` stays between zero
/// and the other factor.
pub proof fn lemma_fxmul_fraction(d: int, t: int)
    requires
        0 <= t <= SCALE,
    ensures
        d >= 0 ==> 0 <= fxmul(d, t) <= d,
        d < 0 ==> d <= fxmul(d, t) <= 0,
{
    let s = SCALE as int;
    if d >= 0 {
        assert(0 <= d * t && d * t <= d * s) by (nonlinear_arith)
            requires
                d >= 0,
                0 <= t <= s,
        ;
        lemma_div_floor_bound(d * t, s);
        lemma_div_is_ordered(d * t, d * s, s);
        lemma_div_multiples_vanish(d, s);
        assert(d * s == s * d) by (nonlinear_arith);
    } else {
        assert(d * s <= d * t && d * t <= 0) by (nonlinear_arith)
            requires
                d < 0,
                0 <= t <= s,
        ;
        lemma_div_floor_bound(d * t, s);
        lemma_div_is_ordered(d * s, d * t, s);
        lemma_div_multiples_vanish(d, s);
        assert(d * s == s * d) by (nonlinear_arith);
    }
}

/// Spec-level bounds on the tessellation parameters of a well-formed
/// line.
proof fn lemma_segments_bounds(l: FractalLine)
    requires
        l.wf(),
    ensures
        0 <= l.length_raw() < 0x1_0000_0000,
        l.length_raw() * l.length_raw() <= l.len_sq(),
        l.len_sq() < (l.length_raw() + 1) * (l.length_raw() + 1),
        0 <= l.segments_fx() <= 0x100_0000_0000,
        0 <= l.sample_count() <= 0x100_0000,
{
    let s = SCALE as int;
    lemma_mul_bound(l.dir_x(), l.dir_x(), 0x8000_0000, 0x8000_0000);
    lemma_mul_bound(l.dir_y(), l.dir_y(), 0x8000_0000, 0x8000_0000);
    assert(l.len_sq() >= 0) by (nonlinear_arith);
    lemma_sqrt_exists(l.len_sq());
    let len = l.length_raw();
    assert(len < 0x1_0000_0000) by (nonlinear_arith)
        requires
            len * len <= l.len_sq(),
            l.len_sq() <= 0x8000_0000_0000_0000,
            len >= 0,
    ;
    let q1 = fxdiv(len, l.wavelength.raw as int);
    lemma_nonneg_div(len, l.wavelength.raw as int);
    lemma_div_is_ordered_by_denominator(len * s, RES_MIN as int, l.wavelength.raw as int);
    lemma_div_is_ordered(len * s, 0x1_0000_0000_0000, RES_MIN as int);
    lemma_div_multiples_vanish(0x10_0000_0000, RES_MIN as int);
    assert(0 <= q1 <= 0x10_0000_0000);
    lemma_nonneg_div(q1, l.sample_distance.raw as int);
    lemma_div_is_ordered_by_denominator(q1 * s, RES_MIN as int, l.sample_distance.raw as int);
    lemma_div_is_ordered(q1 * s, 0x100_0000_0000_0000, RES_MIN as int);
    lemma_div_multiples_vanish(0x100_0000_0000, RES_MIN as int);
    assert(0 <= l.segments_fx() <= 0x100_0000_0000);
    lemma_div_floor_bound(l.segments_fx(), s);
    lemma_div_is_ordered(l.segments_fx(), 0x100_0000_0000, s);
    lemma_div_multiples_vanish(0x100_0000, s);
}

/// The bounding rectangle always contains both endpoints: the inflation
/// is never negative.
pub proof fn lemma_aabb_contains_endpoints(l: FractalLine)
    requires
        l.wf(),
    ensures
        l.spec_aabb().contains_pt(l.start),
        l.spec_aabb().contains_pt(l.end),
{
    let w = l.width.raw as int;
    assert(w * 21 >= 0) by (nonlinear_arith)
        requires
            w >= 0,
    ;
    lemma_div_floor_bound(w * 21, 2);
}

/// Every perturbed vertex lies inside the conservative bounding
/// rectangle, provided the lacunarity is at most one half: the
/// displacement then stays within four and a fraction widths, well under
/// the ten-and-a-half-width inflation.
pub proof fn lemma_path_in_aabb(l: FractalLine, k: int)
    requires
        l.wf(),
        l.noise.lacunarity.raw <= SCALE / 2,
        0 <= k < l.sample_count(),
    ensures
        l.spec_aabb().contains_pt(l.vertex(k)),
{
    let s = SCALE as int;
    lemma_segments_bounds(l);
    let q2 = l.segments_fx();
    let len = l.length_raw();
    let n = l.sample_count();
    lemma_step_in_segments(k, n, q2);
    lemma_t_fraction(k, q2);
    let t = l.t_of(k);
    if len == 0 {
        lemma_div_basics(l.wavelength.raw as int);
        lemma_div_basics(l.sample_distance.raw as int);
        lemma_div_basics(s);
        assert(fxdiv(0, l.wavelength.raw as int) == 0);
        assert(l.segments_fx() == 0);
        assert(false);
    }
    assert(len >= 1);
    assert(-len <= l.dir_y() <= len && -len <= l.dir_x() <= len) by (nonlinear_arith)
        requires
            len * len <= l.dir_x() * l.dir_x() + l.dir_y() * l.dir_y(),
            l.dir_x() * l.dir_x() + l.dir_y() * l.dir_y() < (len + 1) * (len + 1),
            len >= 0,
    ;
    // The base point interpolates between the endpoints.
    lemma_fxmul_fraction(l.end.x.raw - l.start.x.raw, t);
    lemma_fxmul_fraction(l.end.y.raw - l.start.y.raw, t);
    // The displacement scalar.
    lemma_env_range(t);
    let env = env_raw(t);
    let w = l.width.raw as int;
    let m = fxmul(w, env);
    assert(0 <= w * env && w * env <= w * s) by (nonlinear_arith)
        requires
            w >= 0,
            0 <= env <= s,
    ;
    lemma_div_floor_bound(w * env, s);
    lemma_div_is_ordered(w * env, w * s, s);
    lemma_div_multiples_vanish(w, s);
    assert(w * s == s * w) by (nonlinear_arith);
    assert(0 <= m <= w);
    let lac = l.noise.lacunarity.raw as int;
    let oct = l.noise.octaves as int;
    lemma_noise_sum_bound(l.noise.seed, lac, l.noise_dist(k), oct);
    let v = l.noise.value(l.noise_dist(k));
    if oct >= 1 {
        lemma_noise_bound_small(lac, oct);
    }
    assert(noise_bound(lac, oct) <= s + 90);
    assert(-(s + 90) <= v <= s + 90);
    let v3 = 3 * v;
    let m2 = l.disp_scalar(k);
    assert(m2 == fxmul(m, v3));
    let amt = (w * 21) / 2;
    lemma_div_is_ordered(w * 20, w * 21, 2);
    assert(w * 20 <= w * 21) by (nonlinear_arith)
        requires
            w >= 0,
    ;
    assert((w * 20) / 2 == 10 * w) by {
        lemma_div_multiples_vanish(10 * w, 2);
        assert(w * 20 == 2 * (10 * w)) by (nonlinear_arith);
    }
    assert(amt >= 10 * w);
    if w == 0 {
        lemma_div_basics(s);
        lemma_div_basics(len);
        assert(m == 0);
        assert(m2 == fxmul(0, v3));
        assert(0 * v3 == 0) by (nonlinear_arith);
        assert(m2 == 0);
        assert(l.dir_y() * m2 == 0 && -l.dir_x() * m2 == 0) by (nonlinear_arith)
            requires
                m2 == 0,
        ;
        assert((l.dir_y() * m2) / len == 0);
        assert((-l.dir_x() * m2) / len == 0);
    } else {
        // |m2| <= 3w + dd + 1 with dd = (270 w)/s <= w.
        let dd = (270 * w) / s;
        assert(270 * w >= 0) by (nonlinear_arith)
            requires
                w >= 0,
        ;
        lemma_div_floor_bound(270 * w, s);
        assert(270 * w <= w * s) by (nonlinear_arith)
            requires
                w >= 0,
                s == 65536,
        ;
        lemma_div_is_ordered(270 * w, w * s, s);
        assert(0 <= dd <= w);
        assert(m * v3 <= w * (3 * s + 270) && -(w * (3 * s + 270)) <= m * v3)
            by (nonlinear_arith)
            requires
                0 <= m <= w,
                -(3 * s + 270) <= v3 <= 3 * s + 270,
        ;
        lemma_div_is_ordered(m * v3, w * (3 * s + 270), s);
        lemma_div_is_ordered(-(w * (3 * s + 270)), m * v3, s);
        assert(w * (3 * s + 270) == s * (3 * w) + 270 * w) by (nonlinear_arith);
        assert(-(w * (3 * s + 270)) == s * (-(3 * w)) + (-(270 * w))) by (nonlinear_arith);
        lemma_div_shift(3 * w, 270 * w);
        lemma_div_shift(-(3 * w), -(270 * w));
        assert((-(270 * w)) / s >= -dd - 1) by {
            lemma_fundamental_div_mod(270 * w, s);
            let rm = (270 * w) % s;
            if rm == 0 {
                assert(-(270 * w) == s * (-dd) + 0) by (nonlinear_arith)
                    requires
                        270 * w == s * dd + rm,
                        rm == 0,
                ;
                vstd::arithmetic::div_mod::lemma_fundamental_div_mod_converse(
                    -(270 * w),
                    s,
                    -dd,
                    0,
                );
            } else {
                assert(-(270 * w) == s * (-dd - 1) + (s - rm)) by (nonlinear_arith)
                    requires
                        270 * w == s * dd + rm,
                ;
                vstd::arithmetic::div_mod::lemma_fundamental_div_mod_converse(
                    -(270 * w),
                    s,
                    -dd - 1,
                    s - rm,
                );
            }
        }
        let b2 = 3 * w + dd + 1;
        assert(-b2 <= m2 <= b2);
        // The perpendicular division keeps the magnitude.
        assert(l.dir_y() * m2 <= len * b2 && -(len * b2) <= l.dir_y() * m2) by (nonlinear_arith)
            requires
                -len <= l.dir_y() <= len,
                -b2 <= m2 <= b2,
                len >= 0,
                b2 >= 0,
        ;
        assert(-l.dir_x() * m2 <= len * b2 && -(len * b2) <= -l.dir_x() * m2)
            by (nonlinear_arith)
            requires
                -len <= l.dir_x() <= len,
                -b2 <= m2 <= b2,
                len >= 0,
                b2 >= 0,
        ;
        lemma_div_is_ordered(l.dir_y() * m2, len * b2, len);
        lemma_div_is_ordered(-(len * b2), l.dir_y() * m2, len);
        lemma_div_is_ordered(-l.dir_x() * m2, len * b2, len);
        lemma_div_is_ordered(-(len * b2), -l.dir_x() * m2, len);
        lemma_div_multiples_vanish(b2, len);
        lemma_div_multiples_vanish(-b2, len);
        assert(len * b2 == len * b2 && -(len * b2) == len * (-b2)) by (nonlinear_arith);
        // b2 <= amt: 3w + w + 1 <= 10w for w >= 1.
        assert(b2 <= amt);
    }
}

} // verus!
