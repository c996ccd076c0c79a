//! The incremental diff engine.
//!
//! Two scene snapshots are compared keyed by draw order `z`, which is the
//! stable identity inside a store (orders are unique and never reassigned
//! by an update). Positional matching was deliberately rejected: it can
//! call a reorder an update. The result is three disjoint groups — objects
//! added, pairs updated (same order, different content), objects removed —
//! plus the union of the bounding rectangles of everything touched, old
//! and new footprint alike, which is the region a host must repaint.
use vstd::prelude::*;

verus! {

use crate::geometry::{FxRect, lemma_covers_trans};
use crate::render_object::RenderObject;
use crate::scene::{SceneStore, store_inv, contains_order};

/// The object of `s` with draw order `z` (meaningful when present and the
/// orders are unique).
pub open spec fn at_order(s: Seq<RenderObject>, z: u32) -> RenderObject {
    s[choose|i: int| 0 <= i < s.len() && s[i].z == z]
}

/// With unique orders, any occupant of an order is the occupant.
pub proof fn lemma_at_order(s: Seq<RenderObject>, i: int)
    requires
        store_inv(s),
        0 <= i < s.len(),
    ensures
        at_order(s, s[i].z) == s[i],
{
    let z = s[i].z;
    assert(contains_order(s, z));
    let j = choose|j: int| 0 <= j < s.len() && s[j].z == z;
    if i < j {
        assert(s[i].z < s[j].z);
    }
    if j < i {
        assert(s[j].z < s[i].z);
    }
}

/// Membership test for the added group: the order is absent from `old`.
pub open spec fn add_pred(old: Seq<RenderObject>) -> spec_fn(RenderObject) -> bool {
    |o: RenderObject| !contains_order(old, o.z)
}

/// Membership test for the updated group: the order is present in `old`
/// with different content.
pub open spec fn upd_pred(old: Seq<RenderObject>) -> spec_fn(RenderObject) -> bool {
    |o: RenderObject| contains_order(old, o.z) && at_order(old, o.z) != o
}

/// Pairs a new object with its old form.
pub open spec fn upd_map(old: Seq<RenderObject>) -> spec_fn(RenderObject) -> (
    RenderObject,
    RenderObject,
) {
    |o: RenderObject| (at_order(old, o.z), o)
}

/// The objects of `new` whose order is absent from `old`.
pub open spec fn added_spec(old: Seq<RenderObject>, new: Seq<RenderObject>) -> Seq<RenderObject> {
    new.filter(add_pred(old))
}

/// The objects of `old` whose order is absent from `new`.
pub open spec fn removed_spec(old: Seq<RenderObject>, new: Seq<RenderObject>) -> Seq<
    RenderObject,
> {
    old.filter(add_pred(new))
}

/// The objects of `new` whose order is present in `old` with different
/// content, paired with their old form.
pub open spec fn updated_spec(old: Seq<RenderObject>, new: Seq<RenderObject>) -> Seq<
    (RenderObject, RenderObject),
> {
    new.filter(upd_pred(old)).map_values(upd_map(old))
}

/// The rectangle is the bounding box of one of the touched objects of
/// the three groups (for an update, of its old or its new form).
pub open spec fn touched_box(
    added: Seq<RenderObject>,
    removed: Seq<RenderObject>,
    updated: Seq<(RenderObject, RenderObject)>,
    b: FxRect,
) -> bool {
    ||| exists|i: int| 0 <= i < added.len() && (#[trigger] added[i]).spec_aabb() == b
    ||| exists|i: int| 0 <= i < removed.len() && (#[trigger] removed[i]).spec_aabb() == b
    ||| exists|i: int|
        0 <= i < updated.len() && ((#[trigger] updated[i]).0.spec_aabb() == b
            || updated[i].1.spec_aabb() == b)
}

/// Each edge of `d` is attained by some touched bounding box.
pub open spec fn edges_attained(
    added: Seq<RenderObject>,
    removed: Seq<RenderObject>,
    updated: Seq<(RenderObject, RenderObject)>,
    d: FxRect,
) -> bool {
    &&& exists|b: FxRect|
        #[trigger] touched_box(added, removed, updated, b) && b.x0.raw == d.x0.raw
    &&& exists|b: FxRect|
        #[trigger] touched_box(added, removed, updated, b) && b.y0.raw == d.y0.raw
    &&& exists|b: FxRect|
        #[trigger] touched_box(added, removed, updated, b) && b.x1.raw == d.x1.raw
    &&& exists|b: FxRect|
        #[trigger] touched_box(added, removed, updated, b) && b.y1.raw == d.y1.raw
}

/// The outcome of comparing two snapshots.
pub struct SceneDiff {
    pub added: Vec<RenderObject>,
    pub updated: Vec<(RenderObject, RenderObject)>,
    pub removed: Vec<RenderObject>,
    pub dirty: Option<FxRect>,
}

impl SceneDiff {
    /// The three groups are exactly the keyed comparison of the two
    /// snapshots.
    pub open spec fn groups_match(self, old: Seq<RenderObject>, new: Seq<RenderObject>) -> bool {
        &&& self.added@ == added_spec(old, new)
        &&& self.removed@ == removed_spec(old, new)
        &&& self.updated@ == updated_spec(old, new)
    }

    /// The dirty region covers the bounding rectangle of every touched
    /// object — for an update, of both its old and its new form.
    pub open spec fn dirty_covers(self) -> bool {
        match self.dirty {
            Some(d) => {
                &&& forall|i: int|
                    0 <= i < self.added@.len() ==> d.covers(#[trigger] self.added@[i].spec_aabb())
                &&& forall|i: int|
                    0 <= i < self.removed@.len() ==> d.covers(
                        #[trigger] self.removed@[i].spec_aabb(),
                    )
                &&& forall|i: int|
                    0 <= i < self.updated@.len() ==> d.covers(
                        (#[trigger] self.updated@[i]).0.spec_aabb(),
                    ) && d.covers(self.updated@[i].1.spec_aabb())
            },
            None => self.added@.len() == 0 && self.removed@.len() == 0 && self.updated@.len()
                == 0,
        }
    }

    /// The rectangle is the bounding box of one of the touched objects.
    pub open spec fn is_touched_box(self, b: FxRect) -> bool {
        touched_box(self.added@, self.removed@, self.updated@, b)
    }

    /// The dirty region is no larger than the union of the touched
    /// bounding boxes: each of its four edges is attained by one of them.
    /// Together with `dirty_covers` this pins the region to exactly that
    /// union.
    pub open spec fn dirty_tight(self) -> bool {
        match self.dirty {
            Some(d) => edges_attained(self.added@, self.removed@, self.updated@, d),
            None => true,
        }
    }
}

/// Edge attainment carries through a union with one more touched box.
proof fn lemma_union_edges_attained(
    added: Seq<RenderObject>,
    removed: Seq<RenderObject>,
    updated: Seq<(RenderObject, RenderObject)>,
    p: FxRect,
    bb: FxRect,
    u: FxRect,
)
    requires
        u.x0.raw == if p.x0.raw <= bb.x0.raw {
            p.x0.raw
        } else {
            bb.x0.raw
        },
        u.y0.raw == if p.y0.raw <= bb.y0.raw {
            p.y0.raw
        } else {
            bb.y0.raw
        },
        u.x1.raw == if p.x1.raw >= bb.x1.raw {
            p.x1.raw
        } else {
            bb.x1.raw
        },
        u.y1.raw == if p.y1.raw >= bb.y1.raw {
            p.y1.raw
        } else {
            bb.y1.raw
        },
        touched_box(added, removed, updated, bb),
        edges_attained(added, removed, updated, p),
    ensures
        edges_attained(added, removed, updated, u),
{
    if p.x0.raw <= bb.x0.raw {
        let w = choose|b: FxRect|
            #[trigger] touched_box(added, removed, updated, b) && b.x0.raw == p.x0.raw;
        assert(touched_box(added, removed, updated, w) && w.x0.raw == u.x0.raw);
    } else {
        assert(touched_box(added, removed, updated, bb) && bb.x0.raw == u.x0.raw);
    }
    if p.y0.raw <= bb.y0.raw {
        let w = choose|b: FxRect|
            #[trigger] touched_box(added, removed, updated, b) && b.y0.raw == p.y0.raw;
        assert(touched_box(added, removed, updated, w) && w.y0.raw == u.y0.raw);
    } else {
        assert(touched_box(added, removed, updated, bb) && bb.y0.raw == u.y0.raw);
    }
    if p.x1.raw >= bb.x1.raw {
        let w = choose|b: FxRect|
            #[trigger] touched_box(added, removed, updated, b) && b.x1.raw == p.x1.raw;
        assert(touched_box(added, removed, updated, w) && w.x1.raw == u.x1.raw);
    } else {
        assert(touched_box(added, removed, updated, bb) && bb.x1.raw == u.x1.raw);
    }
    if p.y1.raw >= bb.y1.raw {
        let w = choose|b: FxRect|
            #[trigger] touched_box(added, removed, updated, b) && b.y1.raw == p.y1.raw;
        assert(touched_box(added, removed, updated, w) && w.y1.raw == u.y1.raw);
    } else {
        assert(touched_box(added, removed, updated, bb) && bb.y1.raw == u.y1.raw);
    }
}

/// Find the position holding draw order `z`, if any.
fn find_order(objects: &Vec<RenderObject>, z: u32) -> (r: Option<usize>)
    ensures
        match r {
            Some(i) => i < objects@.len() && objects@[i as int].z == z,
            None => !contains_order(objects@, z),
        },
{
    let mut i: usize = 0;
    while i < objects.len()
        invariant
            i <= objects@.len(),
            forall|j: int| 0 <= j < i ==> (#[trigger] objects@[j].z) != z,
        decreases objects@.len() - i,
    {
        if objects[i].z == z {
            return Some(i);
        }
        i = i + 1;
    }
    None
}

/// Compare two snapshots keyed by draw order and compute the repaint
/// region.
pub fn diff(old_s: &SceneStore, new_s: &SceneStore) -> (d: SceneDiff)
    requires
        old_s.wf(),
        new_s.wf(),
    ensures
        d.groups_match(old_s.objects@, new_s.objects@),
        d.dirty_covers(),
        d.dirty_tight(),
{
    let ghost olds = old_s.objects@;
    let ghost news = new_s.objects@;

    let mut added: Vec<RenderObject> = Vec::new();
    let mut updated: Vec<(RenderObject, RenderObject)> = Vec::new();
    let mut removed: Vec<RenderObject> = Vec::new();

    proof {
        reveal(Seq::filter);
        assert(news.take(0int).filter(add_pred(olds)) =~= Seq::<RenderObject>::empty());
        assert(news.take(0int).filter(upd_pred(olds)) =~= Seq::<RenderObject>::empty());
        assert(news.take(0int).filter(upd_pred(olds)).map_values(upd_map(olds)) =~= Seq::<
            (RenderObject, RenderObject),
        >::empty());
        assert(olds.take(0int).filter(add_pred(news)) =~= Seq::<RenderObject>::empty());
    }
    let mut i: usize = 0;
    while i < new_s.objects.len()
        invariant
            i <= news.len(),
            new_s.objects@ == news,
            old_s.objects@ == olds,
            store_inv(olds),
            store_inv(news),
            added@ == news.take(i as int).filter(add_pred(olds)),
            updated@ == news.take(i as int).filter(upd_pred(olds)).map_values(upd_map(olds)),
            forall|j: int| 0 <= j < added@.len() ==> (#[trigger] added@[j]).wf(),
            forall|j: int|
                0 <= j < updated@.len() ==> (#[trigger] updated@[j]).0.wf() && updated@[j].1.wf(),
        decreases news.len() - i,
    {
        let obj = new_s.objects[i];
        proof {
            reveal(Seq::filter);
            let pre = news.take(i as int + 1);
            assert(pre.drop_last() =~= news.take(i as int));
            assert(pre.last() == news[i as int]);
        }
        match find_order(&old_s.objects, obj.z) {
            None => {
                added.push(obj);
                proof {
                    assert(add_pred(olds)(obj));
                    assert(!upd_pred(olds)(obj));
                    assert(updated@ =~= news.take(i as int + 1).filter(upd_pred(olds)).map_values(
                        upd_map(olds),
                    ));
                }
            },
            Some(j) => {
                let old_obj = old_s.objects[j];
                proof {
                    lemma_at_order(olds, j as int);
                    assert(at_order(olds, obj.z) == old_obj);
                    assert(!add_pred(olds)(obj));
                }
                if !render_objects_equal(&old_obj, &obj) {
                    updated.push((old_obj, obj));
                    proof {
                        assert(upd_pred(olds)(obj));
                        let base = news.take(i as int).filter(upd_pred(olds));
                        assert(news.take(i as int + 1).filter(upd_pred(olds)) == base.push(obj));
                        assert(base.push(obj).map_values(upd_map(olds)) =~= base.map_values(
                            upd_map(olds),
                        ).push(upd_map(olds)(obj)));
                        assert(upd_map(olds)(obj) == (old_obj, obj));
                        assert(old_obj.wf()) by {
                            assert(olds[j as int].wf());
                        }
                    }
                } else {
                    proof {
                        assert(!upd_pred(olds)(obj));
                        assert(updated@ =~= news.take(i as int + 1).filter(
                            upd_pred(olds),
                        ).map_values(upd_map(olds)));
                    }
                }
            },
        }
        i = i + 1;
    }
    proof {
        assert(news.take(news.len() as int) =~= news);
    }
    let mut k: usize = 0;
    while k < old_s.objects.len()
        invariant
            k <= olds.len(),
            old_s.objects@ == olds,
            new_s.objects@ == news,
            store_inv(olds),
            removed@ == olds.take(k as int).filter(add_pred(news)),
            forall|j: int| 0 <= j < removed@.len() ==> (#[trigger] removed@[j]).wf(),
        decreases olds.len() - k,
    {
        let obj = old_s.objects[k];
        proof {
            reveal(Seq::filter);
            let pre = olds.take(k as int + 1);
            assert(pre.drop_last() =~= olds.take(k as int));
            assert(pre.last() == olds[k as int]);
        }
        match find_order(&new_s.objects, obj.z) {
            None => {
                removed.push(obj);
                proof {
                    assert(add_pred(news)(obj));
                }
            },
            Some(_) => {
                proof {
                    assert(!add_pred(news)(obj));
                }
            },
        }
        k = k + 1;
    }
    proof {
        assert(olds.take(olds.len() as int) =~= olds);
    }

    let mut dirty: Option<FxRect> = None;
    let mut a: usize = 0;
    while a < added.len()
        invariant
            a <= added@.len(),
            forall|j: int| 0 <= j < added@.len() ==> (#[trigger] added@[j]).wf(),
            match dirty {
                Some(d) => {
                    &&& forall|j: int| 0 <= j < a ==> d.covers(#[trigger] added@[j].spec_aabb())
                    &&& edges_attained(added@, removed@, updated@, d)
                },
                None => a == 0,
            },
        decreases added@.len() - a,
    {
        let bb = added[a].aabb();
        proof {
            assert(touched_box(added@, removed@, updated@, bb));
        }
        match dirty {
            None => {
                dirty = Some(bb);
            },
            Some(p) => {
                let u = p.union(bb);
                proof {
                    assert forall|j: int| 0 <= j < a implies u.covers(
                        #[trigger] added@[j].spec_aabb(),
                    ) by {
                        lemma_covers_trans(u, p, added@[j].spec_aabb());
                    }
                    lemma_union_edges_attained(added@, removed@, updated@, p, bb, u);
                }
                dirty = Some(u);
            },
        }
        a = a + 1;
    }
    let mut r: usize = 0;
    while r < removed.len()
        invariant
            r <= removed@.len(),
            forall|j: int| 0 <= j < removed@.len() ==> (#[trigger] removed@[j]).wf(),
            match dirty {
                Some(d) => {
                    &&& forall|j: int|
                        0 <= j < added@.len() ==> d.covers(#[trigger] added@[j].spec_aabb())
                    &&& forall|j: int|
                        0 <= j < r ==> d.covers(#[trigger] removed@[j].spec_aabb())
                    &&& edges_attained(added@, removed@, updated@, d)
                },
                None => r == 0 && added@.len() == 0,
            },
        decreases removed@.len() - r,
    {
        let bb = removed[r].aabb();
        proof {
            assert(touched_box(added@, removed@, updated@, bb));
        }
        match dirty {
            None => {
                dirty = Some(bb);
            },
            Some(p) => {
                let u = p.union(bb);
                proof {
                    assert forall|j: int| 0 <= j < added@.len() implies u.covers(
                        #[trigger] added@[j].spec_aabb(),
                    ) by {
                        lemma_covers_trans(u, p, added@[j].spec_aabb());
                    }
                    assert forall|j: int| 0 <= j < r implies u.covers(
                        #[trigger] removed@[j].spec_aabb(),
                    ) by {
                        lemma_covers_trans(u, p, removed@[j].spec_aabb());
                    }
                    lemma_union_edges_attained(added@, removed@, updated@, p, bb, u);
                }
                dirty = Some(u);
            },
        }
        r = r + 1;
    }
    let mut u_i: usize = 0;
    while u_i < updated.len()
        invariant
            u_i <= updated@.len(),
            forall|j: int|
                0 <= j < updated@.len() ==> (#[trigger] updated@[j]).0.wf() && updated@[j].1.wf(),
            match dirty {
                Some(d) => {
                    &&& forall|j: int|
                        0 <= j < added@.len() ==> d.covers(#[trigger] added@[j].spec_aabb())
                    &&& forall|j: int|
                        0 <= j < removed@.len() ==> d.covers(#[trigger] removed@[j].spec_aabb())
                    &&& forall|j: int|
                        0 <= j < u_i ==> d.covers((#[trigger] updated@[j]).0.spec_aabb())
                            && d.covers(updated@[j].1.spec_aabb())
                    &&& edges_attained(added@, removed@, updated@, d)
                },
                None => u_i == 0 && added@.len() == 0 && removed@.len() == 0,
            },
        decreases updated@.len() - u_i,
    {
        let bb_old = updated[u_i].0.aabb();
        let bb_new = updated[u_i].1.aabb();
        proof {
            assert(touched_box(added@, removed@, updated@, bb_old));
            assert(touched_box(added@, removed@, updated@, bb_new));
        }
        match dirty {
            None => {
                let first = bb_old.union(bb_new);
                proof {
                    assert(edges_attained(added@, removed@, updated@, bb_old));
                    lemma_union_edges_attained(added@, removed@, updated@, bb_old, bb_new, first);
                }
                dirty = Some(first);
            },
            Some(p) => {
                let step = p.union(bb_old);
                let joined = step.union(bb_new);
                proof {
                    lemma_union_edges_attained(added@, removed@, updated@, p, bb_old, step);
                    lemma_union_edges_attained(added@, removed@, updated@, step, bb_new, joined);
                    lemma_covers_trans(joined, step, p);
                    lemma_covers_trans(joined, step, bb_old);
                    assert forall|j: int| 0 <= j < added@.len() implies joined.covers(
                        #[trigger] added@[j].spec_aabb(),
                    ) by {
                        lemma_covers_trans(joined, p, added@[j].spec_aabb());
                    }
                    assert forall|j: int| 0 <= j < removed@.len() implies joined.covers(
                        #[trigger] removed@[j].spec_aabb(),
                    ) by {
                        lemma_covers_trans(joined, p, removed@[j].spec_aabb());
                    }
                    assert forall|j: int| 0 <= j < u_i implies joined.covers(
                        (#[trigger] updated@[j]).0.spec_aabb(),
                    ) && joined.covers(updated@[j].1.spec_aabb()) by {
                        lemma_covers_trans(joined, p, updated@[j].0.spec_aabb());
                        lemma_covers_trans(joined, p, updated@[j].1.spec_aabb());
                    }
                }
                dirty = Some(joined);
            },
        }
        u_i = u_i + 1;
    }
    SceneDiff { added, updated, removed, dirty }
}

/// Two objects hold exactly the same content.
fn render_objects_equal(a: &RenderObject, b: &RenderObject) -> (r: bool)
    ensures
        r == (*a == *b),
{
    *a == *b
}

/// Some pair of the updated group has a new form with draw order `z`.
pub open spec fn has_pair_order(s: Seq<(RenderObject, RenderObject)>, z: u32) -> bool {
    exists|i: int| 0 <= i < s.len() && (#[trigger] s[i]).1.z == z
}

/// Diff completeness: a draw order that differs in presence or content
/// between the two snapshots appears in exactly one of the three groups,
/// and an order that does not differ appears in none.
pub proof fn lemma_diff_partition(old: Seq<RenderObject>, new: Seq<RenderObject>, z: u32)
    requires
        store_inv(old),
        store_inv(new),
    ensures
        contains_order(new, z) && !contains_order(old, z) ==> contains_order(
            added_spec(old, new),
            z,
        ) && !contains_order(removed_spec(old, new), z) && !has_pair_order(
            updated_spec(old, new),
            z,
        ),
        contains_order(old, z) && !contains_order(new, z) ==> !contains_order(
            added_spec(old, new),
            z,
        ) && contains_order(removed_spec(old, new), z) && !has_pair_order(
            updated_spec(old, new),
            z,
        ),
        contains_order(old, z) && contains_order(new, z) && at_order(old, z) != at_order(new, z)
            ==> !contains_order(added_spec(old, new), z) && !contains_order(
            removed_spec(old, new),
            z,
        ) && has_pair_order(updated_spec(old, new), z),
        contains_order(old, z) && contains_order(new, z) && at_order(old, z) == at_order(new, z)
            ==> !contains_order(added_spec(old, new), z) && !contains_order(
            removed_spec(old, new),
            z,
        ) && !has_pair_order(updated_spec(old, new), z),
        !contains_order(old, z) && !contains_order(new, z) ==> !contains_order(
            added_spec(old, new),
            z,
        ) && !contains_order(removed_spec(old, new), z) && !has_pair_order(
            updated_spec(old, new),
            z,
        ),
{
    let added = added_spec(old, new);
    let removed = removed_spec(old, new);
    let filtered = new.filter(upd_pred(old));
    let updated = updated_spec(old, new);
    assert(forall|i: int|
        0 <= i < updated.len() ==> (#[trigger] updated[i]) == upd_map(old)(filtered[i]));

    // Where each group member comes from, and what its test guarantees.
    assert forall|i: int| 0 <= i < added.len() implies !contains_order(
        old,
        (#[trigger] added[i]).z,
    ) && contains_order(new, added[i].z) by {
        new.lemma_filter_pred(add_pred(old), i);
        crate::scene::lemma_filter_element_of(new, add_pred(old), i);
        let j = choose|j: int| 0 <= j < new.len() && new[j] == new.filter(add_pred(old))[i];
        assert(new[j].z == added[i].z);
    }
    assert forall|i: int| 0 <= i < removed.len() implies !contains_order(
        new,
        (#[trigger] removed[i]).z,
    ) && contains_order(old, removed[i].z) by {
        old.lemma_filter_pred(add_pred(new), i);
        crate::scene::lemma_filter_element_of(old, add_pred(new), i);
        let j = choose|j: int| 0 <= j < old.len() && old[j] == old.filter(add_pred(new))[i];
        assert(old[j].z == removed[i].z);
    }
    assert forall|i: int| 0 <= i < updated.len() implies contains_order(
        old,
        (#[trigger] updated[i]).1.z,
    ) && at_order(old, updated[i].1.z) != updated[i].1 && contains_order(new, updated[i].1.z)
        && at_order(new, updated[i].1.z) == updated[i].1 by {
        new.lemma_filter_pred(upd_pred(old), i);
        crate::scene::lemma_filter_element_of(new, upd_pred(old), i);
        let j = choose|j: int| 0 <= j < new.len() && new[j] == new.filter(upd_pred(old))[i];
        assert(new[j].z == updated[i].1.z);
        lemma_at_order(new, j);
    }

    // Presence in the groups where the order differs.
    if contains_order(new, z) && !contains_order(old, z) {
        let i = choose|i: int| 0 <= i < new.len() && new[i].z == z;
        assert(add_pred(old)(new[i]));
        new.lemma_filter_contains(add_pred(old), i);
        let k = choose|k: int| 0 <= k < added.len() && added[k] == new[i];
        assert(added[k].z == z);
    }
    if contains_order(old, z) && !contains_order(new, z) {
        let i = choose|i: int| 0 <= i < old.len() && old[i].z == z;
        assert(add_pred(new)(old[i]));
        old.lemma_filter_contains(add_pred(new), i);
        let k = choose|k: int| 0 <= k < removed.len() && removed[k] == old[i];
        assert(removed[k].z == z);
    }
    if contains_order(old, z) && contains_order(new, z) && at_order(old, z) != at_order(new, z) {
        let i = choose|i: int| 0 <= i < new.len() && new[i].z == z;
        lemma_at_order(new, i);
        assert(upd_pred(old)(new[i]));
        new.lemma_filter_contains(upd_pred(old), i);
        let k = choose|k: int| 0 <= k < filtered.len() && filtered[k] == new[i];
        assert(updated[k].1.z == z);
    }
}

} // verus!
