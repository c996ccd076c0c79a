//! Points, rectangles and affine maps over fixed-point scalars.
//!
//! Rectangles are axis-aligned and kept with ordered corners. Overlap is
//! strict (a shared edge alone is not an overlap), matching an intersection
//! test that asks for positive area; point containment is closed. An affine
//! map holds the six coefficients of a 2x2 matrix and a translation:
//! `x' = a*x + c*y + e`, `y' = b*x + d*y + f`.
use vstd::prelude::*;

verus! {

use crate::fixed::{Fx, SCALE, COORD_LIMIT, fxmul, fxdiv, lemma_mul_bound, lemma_div_floor_bound,
    lemma_div_scale_bound, div_floor_i128};

/// Largest magnitude, in raw steps, of an affine coefficient (2^46).
pub const AFF_LIMIT: i64 = 0x4000_0000_0000;

/// A point of the scene plane.
#[derive(Clone, Copy, Debug, PartialEq, Eq, Structural, Hash)]
pub struct FxPoint {
    pub x: Fx,
    pub y: Fx,
}

impl FxPoint {
    /// The origin as a value.
    pub open spec fn spec_zero() -> FxPoint {
        FxPoint { x: Fx { raw: 0 }, y: Fx { raw: 0 } }
    }

    /// Both coordinates lie within the scene's coordinate range.
    pub open spec fn in_range(self) -> bool {
        &&& -COORD_LIMIT <= self.x.raw <= COORD_LIMIT
        &&& -COORD_LIMIT <= self.y.raw <= COORD_LIMIT
    }

    pub fn new(x: Fx, y: Fx) -> (r: FxPoint)
        ensures
            r == (FxPoint { x, y }),
    {
        FxPoint { x, y }
    }

    /// The origin.
    pub fn zero() -> (r: FxPoint)
        ensures
            r == FxPoint::spec_zero(),
    {
        FxPoint { x: Fx::zero(), y: Fx::zero() }
    }

    /// Runtime check of `in_range`.
    pub fn check_range(&self) -> (r: bool)
        ensures
            r == self.in_range(),
    {
        -COORD_LIMIT <= self.x.raw && self.x.raw <= COORD_LIMIT && -COORD_LIMIT <= self.y.raw
            && self.y.raw <= COORD_LIMIT
    }
}

/// An axis-aligned rectangle with ordered corners.
#[derive(Clone, Copy, Debug, PartialEq, Eq, Structural, Hash)]
pub struct FxRect {
    pub x0: Fx,
    pub y0: Fx,
    pub x1: Fx,
    pub y1: Fx,
}

impl FxRect {
    /// The corners are ordered; a degenerate (zero-area) rectangle is
    /// allowed.
    pub open spec fn ordered(self) -> bool {
        self.x0.raw <= self.x1.raw && self.y0.raw <= self.y1.raw
    }

    /// The two rectangles share positive area.
    pub open spec fn overlaps(self, o: FxRect) -> bool {
        &&& self.x0.raw < o.x1.raw
        &&& o.x0.raw < self.x1.raw
        &&& self.y0.raw < o.y1.raw
        &&& o.y0.raw < self.y1.raw
    }

    /// The point lies inside or on the border.
    pub open spec fn contains_pt(self, p: FxPoint) -> bool {
        &&& self.x0.raw <= p.x.raw <= self.x1.raw
        &&& self.y0.raw <= p.y.raw <= self.y1.raw
    }

    /// Every point of `o` lies inside `self`.
    pub open spec fn covers(self, o: FxRect) -> bool {
        &&& self.x0.raw <= o.x0.raw
        &&& self.y0.raw <= o.y0.raw
        &&& o.x1.raw <= self.x1.raw
        &&& o.y1.raw <= self.y1.raw
    }

    /// The smallest rectangle holding both given points, as corners.
    pub fn from_points(p: FxPoint, q: FxPoint) -> (r: FxRect)
        ensures
            r.x0.raw == if p.x.raw <= q.x.raw {
                p.x.raw
            } else {
                q.x.raw
            },
            r.x1.raw == if p.x.raw <= q.x.raw {
                q.x.raw
            } else {
                p.x.raw
            },
            r.y0.raw == if p.y.raw <= q.y.raw {
                p.y.raw
            } else {
                q.y.raw
            },
            r.y1.raw == if p.y.raw <= q.y.raw {
                q.y.raw
            } else {
                p.y.raw
            },
            r.ordered(),
            r.contains_pt(p),
            r.contains_pt(q),
    {
        FxRect {
            x0: p.x.min(q.x),
            y0: p.y.min(q.y),
            x1: p.x.max(q.x),
            y1: p.y.max(q.y),
        }
    }

    /// Grow the rectangle by `dx` on the left and right and by `dy` above
    /// and below.
    pub fn inflate(self, dx: Fx, dy: Fx) -> (r: FxRect)
        requires
            0 <= dx.raw <= 0x100_0000_0000,
            0 <= dy.raw <= 0x100_0000_0000,
            -0x100_0000_0000 <= self.x0.raw <= 0x100_0000_0000,
            -0x100_0000_0000 <= self.x1.raw <= 0x100_0000_0000,
            -0x100_0000_0000 <= self.y0.raw <= 0x100_0000_0000,
            -0x100_0000_0000 <= self.y1.raw <= 0x100_0000_0000,
        ensures
            r.x0.raw == self.x0.raw - dx.raw,
            r.x1.raw == self.x1.raw + dx.raw,
            r.y0.raw == self.y0.raw - dy.raw,
            r.y1.raw == self.y1.raw + dy.raw,
    {
        FxRect {
            x0: self.x0.minus(dx),
            y0: self.y0.minus(dy),
            x1: self.x1.plus(dx),
            y1: self.y1.plus(dy),
        }
    }

    /// Strict positive-area intersection test.
    pub fn intersects(&self, o: &FxRect) -> (r: bool)
        ensures
            r == self.overlaps(*o),
    {
        self.x0.raw < o.x1.raw && o.x0.raw < self.x1.raw && self.y0.raw < o.y1.raw && o.y0.raw
            < self.y1.raw
    }

    /// Closed point-containment test.
    pub fn contains_point(&self, p: &FxPoint) -> (r: bool)
        ensures
            r == self.contains_pt(*p),
    {
        self.x0.raw <= p.x.raw && p.x.raw <= self.x1.raw && self.y0.raw <= p.y.raw && p.y.raw
            <= self.y1.raw
    }

    /// Closed rectangle-containment test.
    pub fn contains_rect(&self, o: &FxRect) -> (r: bool)
        ensures
            r == self.covers(*o),
    {
        self.x0.raw <= o.x0.raw && self.y0.raw <= o.y0.raw && o.x1.raw <= self.x1.raw && o.y1.raw
            <= self.y1.raw
    }

    /// The smallest rectangle covering both.
    pub fn union(self, o: FxRect) -> (r: FxRect)
        ensures
            r.x0.raw == if self.x0.raw <= o.x0.raw {
                self.x0.raw
            } else {
                o.x0.raw
            },
            r.y0.raw == if self.y0.raw <= o.y0.raw {
                self.y0.raw
            } else {
                o.y0.raw
            },
            r.x1.raw == if self.x1.raw >= o.x1.raw {
                self.x1.raw
            } else {
                o.x1.raw
            },
            r.y1.raw == if self.y1.raw >= o.y1.raw {
                self.y1.raw
            } else {
                o.y1.raw
            },
            r.covers(self),
            r.covers(o),
            self.ordered() || o.ordered() ==> r.ordered(),
    {
        FxRect {
            x0: self.x0.min(o.x0),
            y0: self.y0.min(o.y0),
            x1: self.x1.max(o.x1),
            y1: self.y1.max(o.y1),
        }
    }
}

/// Covering is transitive.
pub proof fn lemma_covers_trans(a: FxRect, b: FxRect, c: FxRect)
    requires
        a.covers(b),
        b.covers(c),
    ensures
        a.covers(c),
{
}

/// A rectangle that covers a positive-area rectangle overlaps it.
pub proof fn lemma_covers_overlaps(a: FxRect, b: FxRect)
    requires
        a.covers(b),
        b.x0.raw < b.x1.raw,
        b.y0.raw < b.y1.raw,
    ensures
        a.overlaps(b),
        b.overlaps(a),
{
}

/// An affine map of the plane. `a, b, c, d` are the matrix columns
/// `(a, b)` and `(c, d)`; `e, f` is the translation.
#[derive(Clone, Copy, Debug, PartialEq, Eq, Structural, Hash)]
pub struct Affine {
    pub a: Fx,
    pub b: Fx,
    pub c: Fx,
    pub d: Fx,
    pub e: Fx,
    pub f: Fx,
}

/// The x coordinate of the image of `(px, py)`, in raw steps.
pub open spec fn apply_x(m: Affine, px: int, py: int) -> int {
    fxmul(m.a.raw as int, px) + fxmul(m.c.raw as int, py) + m.e.raw
}

/// The y coordinate of the image of `(px, py)`, in raw steps.
pub open spec fn apply_y(m: Affine, px: int, py: int) -> int {
    fxmul(m.b.raw as int, px) + fxmul(m.d.raw as int, py) + m.f.raw
}

/// The identity map as a value.
pub open spec fn affine_identity() -> Affine {
    Affine {
        a: Fx { raw: SCALE },
        b: Fx { raw: 0 },
        c: Fx { raw: 0 },
        d: Fx { raw: SCALE },
        e: Fx { raw: 0 },
        f: Fx { raw: 0 },
    }
}

impl Affine {
    /// Every coefficient lies within the affine coefficient range.
    pub open spec fn in_range(self) -> bool {
        &&& -AFF_LIMIT <= self.a.raw <= AFF_LIMIT
        &&& -AFF_LIMIT <= self.b.raw <= AFF_LIMIT
        &&& -AFF_LIMIT <= self.c.raw <= AFF_LIMIT
        &&& -AFF_LIMIT <= self.d.raw <= AFF_LIMIT
        &&& -AFF_LIMIT <= self.e.raw <= AFF_LIMIT
        &&& -AFF_LIMIT <= self.f.raw <= AFF_LIMIT
    }

    /// The identity map.
    pub fn identity() -> (r: Affine)
        ensures
            r == affine_identity(),
            r.in_range(),
    {
        Affine {
            a: Fx::new(SCALE),
            b: Fx::zero(),
            c: Fx::zero(),
            d: Fx::new(SCALE),
            e: Fx::zero(),
            f: Fx::zero(),
        }
    }

    /// A pure translation.
    pub fn translate(v: FxPoint) -> (r: Affine)
        requires
            -AFF_LIMIT <= v.x.raw <= AFF_LIMIT,
            -AFF_LIMIT <= v.y.raw <= AFF_LIMIT,
        ensures
            r.a.raw == SCALE,
            r.b.raw == 0,
            r.c.raw == 0,
            r.d.raw == SCALE,
            r.e.raw == v.x.raw,
            r.f.raw == v.y.raw,
            r.in_range(),
    {
        Affine {
            a: Fx::new(SCALE),
            b: Fx::zero(),
            c: Fx::zero(),
            d: Fx::new(SCALE),
            e: v.x,
            f: v.y,
        }
    }

    /// A uniform scaling about the origin.
    pub fn scale(s: Fx) -> (r: Affine)
        requires
            -AFF_LIMIT <= s.raw <= AFF_LIMIT,
        ensures
            r.a.raw == s.raw,
            r.b.raw == 0,
            r.c.raw == 0,
            r.d.raw == s.raw,
            r.e.raw == 0,
            r.f.raw == 0,
            r.in_range(),
    {
        Affine { a: s, b: Fx::zero(), c: Fx::zero(), d: s, e: Fx::zero(), f: Fx::zero() }
    }

    /// The rotation whose cosine and sine are given.
    pub fn rotate_cs(cos: Fx, sin: Fx) -> (r: Affine)
        requires
            -0x20000 <= cos.raw <= 0x20000,
            -0x20000 <= sin.raw <= 0x20000,
        ensures
            r.a.raw == cos.raw,
            r.b.raw == sin.raw,
            r.c.raw == -sin.raw,
            r.d.raw == cos.raw,
            r.e.raw == 0,
            r.f.raw == 0,
            r.in_range(),
    {
        Affine { a: cos, b: sin, c: sin.neg(), d: cos, e: Fx::zero(), f: Fx::zero() }
    }

    /// The image of a point under the map. The point may lie somewhat
    /// outside the coordinate range, as inflated bounding corners do.
    pub fn apply(&self, p: &FxPoint) -> (r: FxPoint)
        requires
            self.in_range(),
            -0x8000_0000 <= p.x.raw <= 0x8000_0000,
            -0x8000_0000 <= p.y.raw <= 0x8000_0000,
        ensures
            r.x.raw == apply_x(*self, p.x.raw as int, p.y.raw as int),
            r.y.raw == apply_y(*self, p.x.raw as int, p.y.raw as int),
    {
        let x: i64 = affine_dot(self.a.raw, p.x.raw, self.c.raw, p.y.raw, self.e.raw);
        let y: i64 = affine_dot(self.b.raw, p.x.raw, self.d.raw, p.y.raw, self.f.raw);
        FxPoint { x: Fx::new(x), y: Fx::new(y) }
    }

    /// The bounding rectangle of the images of the four corners.
    pub fn transform_rect_bbox(&self, r: &FxRect) -> (o: FxRect)
        requires
            self.in_range(),
            -0x8000_0000 <= r.x0.raw <= 0x8000_0000,
            -0x8000_0000 <= r.x1.raw <= 0x8000_0000,
            -0x8000_0000 <= r.y0.raw <= 0x8000_0000,
            -0x8000_0000 <= r.y1.raw <= 0x8000_0000,
        ensures
            o.ordered(),
            o == spec_transform_rect_bbox(*self, *r),
    {
        let p00 = self.apply(&FxPoint { x: r.x0, y: r.y0 });
        let p01 = self.apply(&FxPoint { x: r.x0, y: r.y1 });
        let p10 = self.apply(&FxPoint { x: r.x1, y: r.y0 });
        let p11 = self.apply(&FxPoint { x: r.x1, y: r.y1 });
        let x0 = p00.x.min(p01.x).min(p10.x.min(p11.x));
        let y0 = p00.y.min(p01.y).min(p10.y.min(p11.y));
        let x1 = p00.x.max(p01.x).max(p10.x.max(p11.x));
        let y1 = p00.y.max(p01.y).max(p10.y.max(p11.y));
        FxRect { x0, y0, x1, y1 }
    }
}

/// Coefficient `a` of the composition `m` after `n`.
pub open spec fn comp_a(m: Affine, n: Affine) -> int {
    fxmul(m.a.raw as int, n.a.raw as int) + fxmul(m.c.raw as int, n.b.raw as int)
}

/// Coefficient `b` of the composition `m` after `n`.
pub open spec fn comp_b(m: Affine, n: Affine) -> int {
    fxmul(m.b.raw as int, n.a.raw as int) + fxmul(m.d.raw as int, n.b.raw as int)
}

/// Coefficient `c` of the composition `m` after `n`.
pub open spec fn comp_c(m: Affine, n: Affine) -> int {
    fxmul(m.a.raw as int, n.c.raw as int) + fxmul(m.c.raw as int, n.d.raw as int)
}

/// Coefficient `d` of the composition `m` after `n`.
pub open spec fn comp_d(m: Affine, n: Affine) -> int {
    fxmul(m.b.raw as int, n.c.raw as int) + fxmul(m.d.raw as int, n.d.raw as int)
}

/// Coefficient `e` of the composition `m` after `n`.
pub open spec fn comp_e(m: Affine, n: Affine) -> int {
    fxmul(m.a.raw as int, n.e.raw as int) + fxmul(m.c.raw as int, n.f.raw as int) + m.e.raw
}

/// Coefficient `f` of the composition `m` after `n`.
pub open spec fn comp_f(m: Affine, n: Affine) -> int {
    fxmul(m.b.raw as int, n.e.raw as int) + fxmul(m.d.raw as int, n.f.raw as int) + m.f.raw
}

/// `r` holds exactly the coefficients of the composition `m` after `n`.
pub open spec fn composed(m: Affine, n: Affine, r: Affine) -> bool {
    &&& r.a.raw == comp_a(m, n)
    &&& r.b.raw == comp_b(m, n)
    &&& r.c.raw == comp_c(m, n)
    &&& r.d.raw == comp_d(m, n)
    &&& r.e.raw == comp_e(m, n)
    &&& r.f.raw == comp_f(m, n)
}

/// All coefficients of the composition stay within the affine range.
pub open spec fn compose_in_range(m: Affine, n: Affine) -> bool {
    &&& -AFF_LIMIT <= comp_a(m, n) <= AFF_LIMIT
    &&& -AFF_LIMIT <= comp_b(m, n) <= AFF_LIMIT
    &&& -AFF_LIMIT <= comp_c(m, n) <= AFF_LIMIT
    &&& -AFF_LIMIT <= comp_d(m, n) <= AFF_LIMIT
    &&& -AFF_LIMIT <= comp_e(m, n) <= AFF_LIMIT
    &&& -AFF_LIMIT <= comp_f(m, n) <= AFF_LIMIT
}

/// The raw determinant of the matrix part.
pub open spec fn det_raw(m: Affine) -> int {
    fxmul(m.a.raw as int, m.d.raw as int) - fxmul(m.b.raw as int, m.c.raw as int)
}

/// Coefficients of the inverse, each a flooring fixed-point quotient by
/// the determinant.
pub open spec fn inv_a(m: Affine) -> int {
    fxdiv(m.d.raw as int, det_raw(m))
}

/// Coefficient `b` of the inverse.
pub open spec fn inv_b(m: Affine) -> int {
    fxdiv(-m.b.raw as int, det_raw(m))
}

/// Coefficient `c` of the inverse.
pub open spec fn inv_c(m: Affine) -> int {
    fxdiv(-m.c.raw as int, det_raw(m))
}

/// Coefficient `d` of the inverse.
pub open spec fn inv_d(m: Affine) -> int {
    fxdiv(m.a.raw as int, det_raw(m))
}

/// Coefficient `e` of the inverse.
pub open spec fn inv_e(m: Affine) -> int {
    fxdiv(fxmul(m.c.raw as int, m.f.raw as int) - fxmul(m.d.raw as int, m.e.raw as int), det_raw(m))
}

/// Coefficient `f` of the inverse.
pub open spec fn inv_f(m: Affine) -> int {
    fxdiv(fxmul(m.b.raw as int, m.e.raw as int) - fxmul(m.a.raw as int, m.f.raw as int), det_raw(m))
}

/// `r` holds exactly the coefficients of the inverse of `m`.
pub open spec fn inverted(m: Affine, r: Affine) -> bool {
    &&& r.a.raw == inv_a(m)
    &&& r.b.raw == inv_b(m)
    &&& r.c.raw == inv_c(m)
    &&& r.d.raw == inv_d(m)
    &&& r.e.raw == inv_e(m)
    &&& r.f.raw == inv_f(m)
}

/// All coefficients of the inverse stay within the affine range.
pub open spec fn inverse_in_range(m: Affine) -> bool {
    &&& -AFF_LIMIT <= inv_a(m) <= AFF_LIMIT
    &&& -AFF_LIMIT <= inv_b(m) <= AFF_LIMIT
    &&& -AFF_LIMIT <= inv_c(m) <= AFF_LIMIT
    &&& -AFF_LIMIT <= inv_d(m) <= AFF_LIMIT
    &&& -AFF_LIMIT <= inv_e(m) <= AFF_LIMIT
    &&& -AFF_LIMIT <= inv_f(m) <= AFF_LIMIT
}

/// The composition as a value: `None` when a coefficient would leave the
/// affine range.
pub open spec fn compose_opt(m: Affine, n: Affine) -> Option<Affine> {
    if compose_in_range(m, n) {
        Some(
            Affine {
                a: Fx { raw: comp_a(m, n) as i64 },
                b: Fx { raw: comp_b(m, n) as i64 },
                c: Fx { raw: comp_c(m, n) as i64 },
                d: Fx { raw: comp_d(m, n) as i64 },
                e: Fx { raw: comp_e(m, n) as i64 },
                f: Fx { raw: comp_f(m, n) as i64 },
            },
        )
    } else {
        None
    }
}

/// The inverse as a value: `None` when the determinant is not positive or
/// a coefficient would leave the affine range.
pub open spec fn inverse_opt(m: Affine) -> Option<Affine> {
    if det_raw(m) > 0 && inverse_in_range(m) {
        Some(
            Affine {
                a: Fx { raw: inv_a(m) as i64 },
                b: Fx { raw: inv_b(m) as i64 },
                c: Fx { raw: inv_c(m) as i64 },
                d: Fx { raw: inv_d(m) as i64 },
                e: Fx { raw: inv_e(m) as i64 },
                f: Fx { raw: inv_f(m) as i64 },
            },
        )
    } else {
        None
    }
}

impl Affine {
    /// The composition `self` after `o`: applying the result applies `o`
    /// first. `None` when a coefficient would leave the affine range.
    pub fn try_compose(&self, o: &Affine) -> (res: Option<Affine>)
        requires
            self.in_range(),
            o.in_range(),
        ensures
            res == compose_opt(*self, *o),
            match res {
                Some(m) => composed(*self, *o, m) && m.in_range() && compose_in_range(*self, *o),
                None => !compose_in_range(*self, *o),
            },
    {
        let va: i128 = dot2_i128(self.a.raw, o.a.raw, self.c.raw, o.b.raw);
        let vb: i128 = dot2_i128(self.b.raw, o.a.raw, self.d.raw, o.b.raw);
        let vc: i128 = dot2_i128(self.a.raw, o.c.raw, self.c.raw, o.d.raw);
        let vd: i128 = dot2_i128(self.b.raw, o.c.raw, self.d.raw, o.d.raw);
        let ve: i128 = dot2_i128(self.a.raw, o.e.raw, self.c.raw, o.f.raw) + (self.e.raw as i128);
        let vf: i128 = dot2_i128(self.b.raw, o.e.raw, self.d.raw, o.f.raw) + (self.f.raw as i128);
        let lim: i128 = AFF_LIMIT as i128;
        if -lim <= va && va <= lim && -lim <= vb && vb <= lim && -lim <= vc && vc <= lim && -lim
            <= vd && vd <= lim && -lim <= ve && ve <= lim && -lim <= vf && vf <= lim {
            Some(
                Affine {
                    a: Fx::new(va as i64),
                    b: Fx::new(vb as i64),
                    c: Fx::new(vc as i64),
                    d: Fx::new(vd as i64),
                    e: Fx::new(ve as i64),
                    f: Fx::new(vf as i64),
                },
            )
        } else {
            None
        }
    }

    /// The inverse map, when the determinant is positive and every
    /// coefficient stays in range. Hosts only build maps from translations,
    /// positive scalings and rotations, whose determinants stay positive.
    pub fn try_inverse(&self) -> (res: Option<Affine>)
        requires
            self.in_range(),
        ensures
            res == inverse_opt(*self),
            match res {
                Some(m) => det_raw(*self) > 0 && inverted(*self, m) && m.in_range()
                    && inverse_in_range(*self),
                None => det_raw(*self) <= 0 || !inverse_in_range(*self),
            },
    {
        proof {
            lemma_mul_bound(self.a.raw as int, self.d.raw as int, AFF_LIMIT as int,
                AFF_LIMIT as int);
            lemma_mul_bound(self.b.raw as int, self.c.raw as int, AFF_LIMIT as int,
                AFF_LIMIT as int);
            lemma_mul_bound(self.c.raw as int, self.f.raw as int, AFF_LIMIT as int,
                AFF_LIMIT as int);
            lemma_mul_bound(self.d.raw as int, self.e.raw as int, AFF_LIMIT as int,
                AFF_LIMIT as int);
            lemma_mul_bound(self.b.raw as int, self.e.raw as int, AFF_LIMIT as int,
                AFF_LIMIT as int);
            lemma_mul_bound(self.a.raw as int, self.f.raw as int, AFF_LIMIT as int,
                AFF_LIMIT as int);
        }
        let pad: i128 = (self.a.raw as i128) * (self.d.raw as i128);
        let pbc: i128 = (self.b.raw as i128) * (self.c.raw as i128);
        proof {
            lemma_div_scale_bound(pad as int, 0x4000_0000_0000_0000_0000_0000);
            lemma_div_scale_bound(pbc as int, 0x4000_0000_0000_0000_0000_0000);
        }
        let det: i128 = div_floor_i128(pad, SCALE as i128) - div_floor_i128(pbc, SCALE as i128);
        if det <= 0 {
            return None;
        }
        let ia: Option<i64> = inv_coeff((self.d.raw as i128) * (SCALE as i128), det);
        let ib: Option<i64> = inv_coeff((-self.b.raw as i128) * (SCALE as i128), det);
        let ic: Option<i64> = inv_coeff((-self.c.raw as i128) * (SCALE as i128), det);
        let id: Option<i64> = inv_coeff((self.a.raw as i128) * (SCALE as i128), det);
        let pcf: i128 = (self.c.raw as i128) * (self.f.raw as i128);
        let pde: i128 = (self.d.raw as i128) * (self.e.raw as i128);
        let pbe: i128 = (self.b.raw as i128) * (self.e.raw as i128);
        let paf: i128 = (self.a.raw as i128) * (self.f.raw as i128);
        proof {
            lemma_div_scale_bound(pcf as int, 0x4000_0000_0000_0000_0000_0000);
            lemma_div_scale_bound(pde as int, 0x4000_0000_0000_0000_0000_0000);
            lemma_div_scale_bound(pbe as int, 0x4000_0000_0000_0000_0000_0000);
            lemma_div_scale_bound(paf as int, 0x4000_0000_0000_0000_0000_0000);
        }
        let ne: i128 = div_floor_i128(pcf, SCALE as i128) - div_floor_i128(pde, SCALE as i128);
        let nf: i128 = div_floor_i128(pbe, SCALE as i128) - div_floor_i128(paf, SCALE as i128);
        let ie: Option<i64> = inv_coeff(ne * (SCALE as i128), det);
        let fv: Option<i64> = inv_coeff(nf * (SCALE as i128), det);
        match (ia, ib, ic, id, ie, fv) {
            (Some(a), Some(b), Some(c), Some(d), Some(e), Some(f)) => Some(
                Affine {
                    a: Fx::new(a),
                    b: Fx::new(b),
                    c: Fx::new(c),
                    d: Fx::new(d),
                    e: Fx::new(e),
                    f: Fx::new(f),
                },
            ),
            _ => None,
        }
    }
}

/// One coefficient of an inverse: the flooring quotient of a scaled
/// numerator by the determinant, or `None` outside the affine range.
fn inv_coeff(num: i128, det: i128) -> (res: Option<i64>)
    requires
        det > 0,
        -0x8000_0000_0000_0000_0000_0000_0000 <= num <= 0x8000_0000_0000_0000_0000_0000_0000,
    ensures
        match res {
            Some(v) => v == (num as int) / (det as int) && -AFF_LIMIT <= v <= AFF_LIMIT,
            None => !(-AFF_LIMIT <= (num as int) / (det as int) <= AFF_LIMIT),
        },
{
    proof {
        lemma_div_floor_bound(num as int, det as int);
    }
    let q: i128 = div_floor_i128(num, det);
    if -(AFF_LIMIT as i128) <= q && q <= AFF_LIMIT as i128 {
        Some(q as i64)
    } else {
        None
    }
}

/// The exact sum of two flooring fixed-point products.
fn dot2_i128(p: i64, q: i64, r: i64, s: i64) -> (res: i128)
    requires
        -AFF_LIMIT <= p <= AFF_LIMIT,
        -AFF_LIMIT <= q <= AFF_LIMIT,
        -AFF_LIMIT <= r <= AFF_LIMIT,
        -AFF_LIMIT <= s <= AFF_LIMIT,
    ensures
        res == fxmul(p as int, q as int) + fxmul(r as int, s as int),
        -0x1_0000_0000_0000_0000_0000_0000_0000 <= res <= 0x1_0000_0000_0000_0000_0000_0000_0000,
{
    proof {
        lemma_mul_bound(p as int, q as int, AFF_LIMIT as int, AFF_LIMIT as int);
        lemma_mul_bound(r as int, s as int, AFF_LIMIT as int, AFF_LIMIT as int);
    }
    let pq: i128 = (p as i128) * (q as i128);
    let rs: i128 = (r as i128) * (s as i128);
    proof {
        lemma_div_scale_bound(pq as int, 0x4000_0000_0000_0000_0000_0000);
        lemma_div_scale_bound(rs as int, 0x4000_0000_0000_0000_0000_0000);
    }
    div_floor_i128(pq, SCALE as i128) + div_floor_i128(rs, SCALE as i128)
}

/// The bounding rectangle of the images of a rectangle's corners.
pub open spec fn spec_transform_rect_bbox(m: Affine, r: FxRect) -> FxRect {
    let x00 = apply_x(m, r.x0.raw as int, r.y0.raw as int);
    let x01 = apply_x(m, r.x0.raw as int, r.y1.raw as int);
    let x10 = apply_x(m, r.x1.raw as int, r.y0.raw as int);
    let x11 = apply_x(m, r.x1.raw as int, r.y1.raw as int);
    let y00 = apply_y(m, r.x0.raw as int, r.y0.raw as int);
    let y01 = apply_y(m, r.x0.raw as int, r.y1.raw as int);
    let y10 = apply_y(m, r.x1.raw as int, r.y0.raw as int);
    let y11 = apply_y(m, r.x1.raw as int, r.y1.raw as int);
    FxRect {
        x0: Fx { raw: min4(x00, x01, x10, x11) as i64 },
        y0: Fx { raw: min4(y00, y01, y10, y11) as i64 },
        x1: Fx { raw: max4(x00, x01, x10, x11) as i64 },
        y1: Fx { raw: max4(y00, y01, y10, y11) as i64 },
    }
}

/// The least of four integers.
pub open spec fn min4(a: int, b: int, c: int, d: int) -> int {
    let ab = if a <= b {
        a
    } else {
        b
    };
    let cd = if c <= d {
        c
    } else {
        d
    };
    if ab <= cd {
        ab
    } else {
        cd
    }
}

/// The greatest of four integers.
pub open spec fn max4(a: int, b: int, c: int, d: int) -> int {
    let ab = if a >= b {
        a
    } else {
        b
    };
    let cd = if c >= d {
        c
    } else {
        d
    };
    if ab >= cd {
        ab
    } else {
        cd
    }
}

/// One row of an affine application: `(a*x + c*y)/SCALE + e`, flooring
/// each product.
fn affine_dot(a: i64, x: i64, c: i64, y: i64, e: i64) -> (r: i64)
    requires
        -AFF_LIMIT <= a <= AFF_LIMIT,
        -AFF_LIMIT <= c <= AFF_LIMIT,
        -AFF_LIMIT <= e <= AFF_LIMIT,
        -0x8000_0000 <= x <= 0x8000_0000,
        -0x8000_0000 <= y <= 0x8000_0000,
    ensures
        r == fxmul(a as int, x as int) + fxmul(c as int, y as int) + e,
{
    proof {
        lemma_mul_bound(a as int, x as int, AFF_LIMIT as int, 0x8000_0000);
        lemma_mul_bound(c as int, y as int, AFF_LIMIT as int, 0x8000_0000);
    }
    let px: i128 = (a as i128) * (x as i128);
    let py: i128 = (c as i128) * (y as i128);
    proof {
        lemma_div_scale_bound(px as int, 0x2000_0000_0000_0000);
        lemma_div_scale_bound(py as int, 0x2000_0000_0000_0000);
    }
    let qx: i128 = div_floor_i128(px, SCALE as i128);
    let qy: i128 = div_floor_i128(py, SCALE as i128);
    (qx as i64) + (qy as i64) + e
}

} // verus!
