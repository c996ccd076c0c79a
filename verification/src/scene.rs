//! The ordered scene store.
//!
//! Objects are kept sorted by strictly increasing draw order `z`, so `z`
//! is unique inside one store and serves as the stable identity that the
//! diff engine keys on. Inserting assigns the next order — one past the
//! current maximum, or 0 in an empty store — so a new object always draws
//! on top of every earlier one. A store value is a snapshot: comparing two
//! store values from different moments is how repaint regions are found.
use vstd::prelude::*;

verus! {

use crate::render_object::RenderObject;

/// An insertion-ordered collection of render objects.
#[derive(Clone, Debug)]
pub struct SceneStore {
    pub objects: Vec<RenderObject>,
}

/// The draw orders are strictly increasing along the store, and each held
/// shape is well formed.
pub open spec fn store_inv(s: Seq<RenderObject>) -> bool {
    &&& forall|i: int, j: int| 0 <= i < j < s.len() ==> s[i].z < s[j].z
    &&& forall|i: int| 0 <= i < s.len() ==> #[trigger] s[i].wf()
}

/// Some object of `s` has draw order `z`.
pub open spec fn contains_order(s: Seq<RenderObject>, z: u32) -> bool {
    exists|i: int| 0 <= i < s.len() && #[trigger] s[i].z == z
}

/// The draw orders are exactly the positions: the store was filled by
/// inserts alone.
pub open spec fn dense_orders(s: Seq<RenderObject>) -> bool {
    forall|i: int| 0 <= i < s.len() ==> (#[trigger] s[i].z) == i
}

/// The draw order the next insert into `s` receives.
pub open spec fn next_order_of(s: Seq<RenderObject>) -> int {
    if s.len() == 0 {
        0
    } else {
        s.last().z + 1
    }
}

impl SceneStore {
    /// The store invariant.
    pub open spec fn wf(self) -> bool {
        store_inv(self.objects@)
    }

    /// The draw order the next inserted object receives.
    pub open spec fn spec_next_order(self) -> int {
        next_order_of(self.objects@)
    }

    /// An empty store.
    pub fn new() -> (r: SceneStore)
        ensures
            r.objects@.len() == 0,
            r.wf(),
    {
        SceneStore { objects: Vec::new() }
    }

    pub fn len(&self) -> (r: usize)
        ensures
            r == self.objects@.len(),
    {
        self.objects.len()
    }

    pub fn get(&self, i: usize) -> (r: &RenderObject)
        requires
            i < self.objects@.len(),
        ensures
            *r == self.objects@[i as int],
    {
        &self.objects[i]
    }

    /// The highest draw order in the store, or `None` when it is empty.
    pub fn max_order(&self) -> (r: Option<u32>)
        requires
            self.wf(),
        ensures
            match r {
                Some(m) => {
                    &&& self.objects@.len() > 0
                    &&& m == self.objects@.last().z
                    &&& forall|i: int| 0 <= i < self.objects@.len() ==> (#[trigger] self.objects@[i].z) <= m
                },
                None => self.objects@.len() == 0,
            },
    {
        if self.objects.len() == 0 {
            None
        } else {
            let last = self.objects.len() - 1;
            Some(self.objects[last].z)
        }
    }

    /// Insert an object on top of the scene: its draw order is replaced by
    /// the next order, everything else is kept.
    pub fn insert(&mut self, obj: RenderObject) -> (assigned: u32)
        requires
            old(self).wf(),
            obj.wf(),
            old(self).spec_next_order() <= u32::MAX,
        ensures
            assigned == old(self).spec_next_order(),
            final(self).objects@ == old(self).objects@.push((RenderObject { z: assigned, ..obj })),
            final(self).wf(),
    {
        let z: u32 = match self.max_order() {
            Some(m) => m + 1,
            None => 0,
        };
        let placed = RenderObject { z, transform: obj.transform, selected: obj.selected, drawable: obj.drawable };
        self.objects.push(placed);
        z
    }

    /// Remove every selected object; the rest keep their relative order
    /// and their draw orders.
    pub fn remove_selected(&mut self)
        ensures
            final(self).objects@ == old(self).objects@.filter(|o: RenderObject| !o.selected),
            old(self).wf() ==> final(self).wf(),
    {
        let ghost orig: Seq<RenderObject> = self.objects@;
        let mut kept: Vec<RenderObject> = Vec::new();
        let mut i: usize = 0;
        proof {
            reveal(Seq::filter);
            assert(orig.take(0int) =~= Seq::<RenderObject>::empty());
            assert(orig.take(0int).filter(|o: RenderObject| !o.selected) =~= Seq::<
                RenderObject,
            >::empty());
        }
        while i < self.objects.len()
            invariant
                i <= self.objects@.len(),
                self.objects@ == orig,
                kept@ == orig.take(i as int).filter(|o: RenderObject| !o.selected),
            decreases self.objects@.len() - i,
        {
            let obj = self.objects[i];
            proof {
                reveal(Seq::filter);
                let pre = orig.take(i as int + 1);
                assert(pre.drop_last() =~= orig.take(i as int));
                assert(pre.last() == orig[i as int]);
            }
            if !obj.selected {
                kept.push(obj);
            }
            i = i + 1;
        }
        proof {
            assert(orig.take(orig.len() as int) =~= orig);
        }
        self.objects = kept;
        proof {
            if store_inv(orig) {
                lemma_filter_keeps_store_inv(orig, |o: RenderObject| !o.selected);
            }
        }
    }
}

/// Filtering a sorted, well-formed sequence keeps it sorted and well
/// formed: the kept objects stand in their old relative order.
pub proof fn lemma_filter_keeps_store_inv(s: Seq<RenderObject>, pred: spec_fn(RenderObject) -> bool)
    requires
        store_inv(s),
    ensures
        store_inv(s.filter(pred)),
    decreases s.len(),
{
    reveal(Seq::filter);
    if s.len() > 0 {
        let pre = s.drop_last();
        assert(store_inv(pre)) by {
            assert(forall|i: int| 0 <= i < pre.len() ==> pre[i] == s[i]);
        }
        lemma_filter_keeps_store_inv(pre, pred);
        let sub = pre.filter(pred);
        if pred(s.last()) {
            let out = sub.push(s.last());
            assert forall|i: int, j: int| 0 <= i < j < out.len() implies out[i].z < out[j].z by {
                if j < out.len() - 1 {
                    assert(sub[i].z < sub[j].z);
                } else {
                    lemma_filter_element_of(pre, pred, i);
                    let w = choose|w: int| 0 <= w < pre.len() && pre[w] == pre.filter(pred)[i];
                    assert(s[w].z < s[s.len() - 1].z);
                }
            }
            assert forall|i: int| 0 <= i < out.len() implies #[trigger] out[i].wf() by {
                if i < out.len() - 1 {
                    assert(sub[i].wf());
                } else {
                    assert(s.last().wf());
                }
            }
        }
    }
}

/// Every element of a filtered sequence is an element of the original at
/// some position, so it inherits whatever holds of all elements.
pub proof fn lemma_filter_element_of(s: Seq<RenderObject>, pred: spec_fn(RenderObject) -> bool, i: int)
    requires
        0 <= i < s.filter(pred).len(),
    ensures
        exists|j: int| 0 <= j < s.len() && s[j] == s.filter(pred)[i],
    decreases s.len(),
{
    reveal(Seq::filter);
    if s.len() > 0 {
        let pre = s.drop_last();
        let sub = pre.filter(pred);
        if pred(s.last()) && i == s.filter(pred).len() - 1 {
            assert(s[s.len() - 1] == s.filter(pred)[i]);
        } else {
            lemma_filter_element_of(pre, pred, i);
            let j = choose|j: int| 0 <= j < pre.len() && pre[j] == pre.filter(pred)[i];
            assert(s[j] == s.filter(pred)[i]);
        }
    }
}

/// Inserting into a store whose orders are exactly its positions keeps
/// them so: from an empty store, successive inserts hand out the orders
/// `0, 1, 2, ...` in sequence, and the highest order is the count less
/// one.
pub proof fn lemma_insert_keeps_dense(s: Seq<RenderObject>, obj: RenderObject)
    requires
        dense_orders(s),
        store_inv(s),
        obj.z == if s.len() == 0 {
            0int
        } else {
            s.last().z + 1
        },
    ensures
        dense_orders(s.push(obj)),
        s.push(obj).last().z == s.len(),
{
    assert forall|i: int| 0 <= i < s.push(obj).len() implies (#[trigger] s.push(obj)[i].z)
        == i by {
        if i < s.len() {
            assert(s.push(obj)[i] == s[i]);
        } else {
            assert(s.push(obj)[i] == obj);
            if s.len() > 0 {
                assert(s.last().z == s.len() - 1);
            }
        }
    }
}

} // verus!
