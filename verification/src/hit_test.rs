//! Selection hit-testing.
//!
//! An object is selected by a query rectangle in two phases: a broad phase
//! on its conservative bounding rectangle, then a fine phase on its fine
//! collision shape — a vertex of the polyline inside the query, or a
//! polyline segment meeting the query (the separating-axis test of a
//! closed segment against a closed axis-aligned box, so a narrow box
//! slicing a line between two vertices still selects it). A query that
//! misses the bounding rectangle never selects, and a drag re-runs the
//! test over the whole scene, deselecting everything the box no longer
//! reaches.
use vstd::prelude::*;

verus! {

use vstd::arithmetic::div_mod::lemma_div_is_ordered;
use crate::fixed::{COORD_LIMIT, lemma_mul_bound};
use crate::geometry::{FxPoint, FxRect, lemma_covers_overlaps};
use crate::render_object::{RenderObject, DrawableObj};
use crate::scene::SceneStore;
use crate::fractal_line::{FractalLine, lemma_path_shape, vertex_in_limit, VERTEX_LIMIT};

/// The query rectangle's corners lie in the coordinate range.
pub open spec fn query_in_range(q: FxRect) -> bool {
    &&& -COORD_LIMIT <= q.x0.raw <= COORD_LIMIT
    &&& -COORD_LIMIT <= q.x1.raw <= COORD_LIMIT
    &&& -COORD_LIMIT <= q.y0.raw <= COORD_LIMIT
    &&& -COORD_LIMIT <= q.y1.raw <= COORD_LIMIT
}

/// The side of the directed carrier line through `a` and `b` that `p`
/// falls on: the cross product `(b - a) x (p - a)`.
pub open spec fn cross3(a: FxPoint, b: FxPoint, p: FxPoint) -> int {
    (b.x.raw - a.x.raw) * (p.y.raw - a.y.raw) - (b.y.raw - a.y.raw) * (p.x.raw - a.x.raw)
}

/// The closed segment from `a` to `b` meets the closed rectangle: the
/// separating-axis test of a segment against an axis-aligned box. The
/// segment's interval reaches the rectangle on both axes, and the four
/// corners do not all lie strictly on one side of the carrier line.
pub open spec fn seg_meets_rect(a: FxPoint, b: FxPoint, r: FxRect) -> bool {
    let c00 = FxPoint { x: r.x0, y: r.y0 };
    let c10 = FxPoint { x: r.x1, y: r.y0 };
    let c11 = FxPoint { x: r.x1, y: r.y1 };
    let c01 = FxPoint { x: r.x0, y: r.y1 };
    &&& (if a.x.raw <= b.x.raw {
        a.x.raw
    } else {
        b.x.raw
    }) <= r.x1.raw
    &&& r.x0.raw <= (if a.x.raw >= b.x.raw {
        a.x.raw
    } else {
        b.x.raw
    })
    &&& (if a.y.raw <= b.y.raw {
        a.y.raw
    } else {
        b.y.raw
    }) <= r.y1.raw
    &&& r.y0.raw <= (if a.y.raw >= b.y.raw {
        a.y.raw
    } else {
        b.y.raw
    })
    &&& !(cross3(a, b, c00) > 0 && cross3(a, b, c10) > 0 && cross3(a, b, c11) > 0 && cross3(
        a,
        b,
        c01,
    ) > 0)
    &&& !(cross3(a, b, c00) < 0 && cross3(a, b, c10) < 0 && cross3(a, b, c11) < 0 && cross3(
        a,
        b,
        c01,
    ) < 0)
}

/// The fine phase: some vertex of the collision polyline lies inside the
/// query, or some segment of it meets the query.
pub open spec fn fine_hit(query: FxRect, pts: Seq<FxPoint>) -> bool {
    ||| exists|k: int| 0 <= k < pts.len() && query.contains_pt(#[trigger] pts[k])
    ||| exists|k: int|
        0 <= k && k + 1 < pts.len() && seg_meets_rect(#[trigger] pts[k], pts[k + 1], query)
}

/// The query selects the object: the bounding rectangles share positive
/// area and the fine collision shape reaches into the query.
pub open spec fn hit_spec(query: FxRect, obj: RenderObject) -> bool {
    &&& query.overlaps(obj.spec_aabb())
    &&& fine_hit(query, obj.drawable.collision_pts())
}

/// One cross product of the separating-axis test, exactly.
fn cross_exec(a: &FxPoint, b: &FxPoint, p: &FxPoint) -> (r: i128)
    requires
        vertex_in_limit(*a),
        vertex_in_limit(*b),
        vertex_in_limit(*p),
    ensures
        r == cross3(*a, *b, *p),
{
    let abx: i128 = (b.x.raw as i128) - (a.x.raw as i128);
    let aby: i128 = (b.y.raw as i128) - (a.y.raw as i128);
    let apx: i128 = (p.x.raw as i128) - (a.x.raw as i128);
    let apy: i128 = (p.y.raw as i128) - (a.y.raw as i128);
    proof {
        lemma_mul_bound(abx as int, apy as int, 0x10_0000_0000_0000, 0x10_0000_0000_0000);
        lemma_mul_bound(aby as int, apx as int, 0x10_0000_0000_0000, 0x10_0000_0000_0000);
    }
    abx * apy - aby * apx
}

/// Whether the closed segment meets the closed rectangle.
fn seg_meets_rect_exec(a: &FxPoint, b: &FxPoint, r: &FxRect) -> (res: bool)
    requires
        vertex_in_limit(*a),
        vertex_in_limit(*b),
        query_in_range(*r),
    ensures
        res == seg_meets_rect(*a, *b, *r),
{
    let minx: i64 = if a.x.raw <= b.x.raw {
        a.x.raw
    } else {
        b.x.raw
    };
    let maxx: i64 = if a.x.raw >= b.x.raw {
        a.x.raw
    } else {
        b.x.raw
    };
    let miny: i64 = if a.y.raw <= b.y.raw {
        a.y.raw
    } else {
        b.y.raw
    };
    let maxy: i64 = if a.y.raw >= b.y.raw {
        a.y.raw
    } else {
        b.y.raw
    };
    if !(minx <= r.x1.raw && r.x0.raw <= maxx && miny <= r.y1.raw && r.y0.raw <= maxy) {
        return false;
    }
    let c00 = cross_exec(a, b, &FxPoint { x: r.x0, y: r.y0 });
    let c10 = cross_exec(a, b, &FxPoint { x: r.x1, y: r.y0 });
    let c11 = cross_exec(a, b, &FxPoint { x: r.x1, y: r.y1 });
    let c01 = cross_exec(a, b, &FxPoint { x: r.x0, y: r.y1 });
    if c00 > 0 && c10 > 0 && c11 > 0 && c01 > 0 {
        return false;
    }
    if c00 < 0 && c10 < 0 && c11 < 0 && c01 < 0 {
        return false;
    }
    true
}

/// Whether the query selects the object.
pub fn hit(query: &FxRect, obj: &RenderObject) -> (r: bool)
    requires
        obj.wf(),
        query_in_range(*query),
    ensures
        r == hit_spec(*query, *obj),
{
    let bb = obj.aabb();
    if !query.intersects(&bb) {
        return false;
    }
    let pts = obj.drawable.collision_points();
    let mut i: usize = 0;
    while i < pts.len()
        invariant
            i <= pts@.len(),
            pts@ == obj.drawable.collision_pts(),
            forall|k: int| 0 <= k < pts@.len() ==> vertex_in_limit(#[trigger] pts@[k]),
            query_in_range(*query),
            query.overlaps(obj.spec_aabb()),
            forall|j: int| 0 <= j < i ==> !query.contains_pt(#[trigger] pts@[j]),
            forall|j: int|
                0 <= j < i && j + 1 < pts@.len() ==> !seg_meets_rect(
                    #[trigger] pts@[j],
                    pts@[j + 1],
                    *query,
                ),
        decreases pts@.len() - i,
    {
        if query.contains_point(&pts[i]) {
            return true;
        }
        if i + 1 < pts.len() {
            if seg_meets_rect_exec(&pts[i], &pts[i + 1], query) {
                return true;
            }
        }
        i = i + 1;
    }
    false
}

/// Re-run the hit test over the whole scene: afterwards each object's
/// selection flag says exactly whether the query selects it.
pub fn update_selected(scene: &mut SceneStore, query: &FxRect)
    requires
        old(scene).wf(),
        query_in_range(*query),
    ensures
        final(scene).wf(),
        final(scene).objects@.len() == old(scene).objects@.len(),
        forall|i: int|
            0 <= i < old(scene).objects@.len() ==> final(scene).objects@[i] == (RenderObject {
                selected: hit_spec(*query, old(scene).objects@[i]),
                ..old(scene).objects@[i]
            }),
{
    let ghost orig = scene.objects@;
    let mut out: Vec<RenderObject> = Vec::new();
    let mut i: usize = 0;
    while i < scene.objects.len()
        invariant
            i <= orig.len(),
            scene.objects@ == orig,
            crate::scene::store_inv(orig),
            query_in_range(*query),
            out@.len() == i,
            forall|j: int|
                0 <= j < i ==> out@[j] == (RenderObject {
                    selected: hit_spec(*query, orig[j]),
                    ..orig[j]
                }),
        decreases orig.len() - i,
    {
        let obj = scene.objects[i];
        let selected = hit(query, &obj);
        out.push(
            RenderObject {
                z: obj.z,
                transform: obj.transform,
                selected,
                drawable: obj.drawable,
            },
        );
        i = i + 1;
    }
    scene.objects = out;
    proof {
        let fin = scene.objects@;
        assert forall|a: int, b: int| 0 <= a < b < fin.len() implies fin[a].z < fin[b].z by {
            assert(orig[a].z < orig[b].z);
        }
        assert forall|a: int| 0 <= a < fin.len() implies #[trigger] fin[a].wf() by {
            assert(orig[a].wf());
        }
    }
}

/// A query with no positive-area overlap with the bounding rectangle
/// never selects.
pub proof fn lemma_selection_disjoint(query: FxRect, obj: RenderObject)
    requires
        !query.overlaps(obj.spec_aabb()),
    ensures
        !hit_spec(query, obj),
{
}

/// Selection containment: a query rectangle that fully encloses the
/// bounding rectangle of a fractal line of positive width selects it —
/// the path's forced endpoint is a collision vertex inside the query.
pub proof fn lemma_selection_containment(query: FxRect, l: FractalLine, obj: RenderObject)
    requires
        obj.drawable == DrawableObj::FractalLine(l),
        l.wf(),
        l.width.raw > 0,
        query.covers(l.spec_aabb()),
    ensures
        hit_spec(query, obj),
{
    let bb = l.spec_aabb();
    let amt = (l.width.raw * 21) / 2;
    assert(21 <= l.width.raw * 21) by (nonlinear_arith)
        requires
            1 <= l.width.raw,
    ;
    lemma_div_is_ordered(21, l.width.raw as int * 21, 2);
    assert(10 <= amt);
    assert(bb.x0.raw < bb.x1.raw && bb.y0.raw < bb.y1.raw);
    lemma_covers_overlaps(query, bb);
    assert(query.overlaps(obj.spec_aabb()));
    assert(bb.contains_pt(l.end));
    assert(query.contains_pt(l.end));
    lemma_path_shape(l);
    let pts = obj.drawable.collision_pts();
    let n = l.sample_count();
    assert(pts[n] == l.end);
    assert(0 <= n < pts.len());
}

} // verus!
