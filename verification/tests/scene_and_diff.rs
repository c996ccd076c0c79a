use lipuma::fixed::{Fx, SCALE};
use lipuma::geometry::FxPoint;
use lipuma::noise::FractalNoise;
use lipuma::fractal_line::FractalLine;
use lipuma::render_object::{RenderObject, DrawableObj};
use lipuma::scene::SceneStore;
use lipuma::diff::diff;

fn pt(x_units: i64, y_units: i64) -> FxPoint {
    FxPoint::new(Fx::from_units(x_units), Fx::from_units(y_units))
}

fn line_at(seed: u32, x: i64) -> DrawableObj {
    DrawableObj::FractalLine(FractalLine {
        start: pt(x, 0),
        end: pt(x + 10, 0),
        noise: FractalNoise::new(seed, Fx::new(22937), 3),
        width: Fx::from_units(2),
        wavelength: Fx::from_units(5),
        sample_distance: Fx::from_units(2),
        offset: Fx::zero(),
    })
}

#[test]
fn draw_orders_count_up_from_zero() {
    let mut store = SceneStore::new();
    assert!(store.max_order().is_none());
    for i in 0..5u32 {
        let assigned = store.insert(RenderObject::new(u32::MAX, line_at(i, i as i64 * 20)));
        assert_eq!(assigned, i);
    }
    assert_eq!(store.max_order(), Some(4));
    for i in 0..5usize {
        assert_eq!(store.get(i).z, i as u32);
    }
}

#[test]
fn insert_into_empty_store_does_not_panic_on_max_order() {
    let mut store = SceneStore::new();
    assert_eq!(store.max_order(), None);
    let assigned = store.insert(RenderObject::new(7, line_at(1, 0)));
    assert_eq!(assigned, 0);
    assert_eq!(store.max_order(), Some(0));
}

#[test]
fn remove_selected_keeps_relative_order() {
    let mut store = SceneStore::new();
    for i in 0..3u32 {
        store.insert(RenderObject::new(u32::MAX, line_at(i, i as i64 * 20)));
    }
    let mut marked = SceneStore::new();
    for i in 0..3usize {
        let mut obj = *store.get(i);
        if i == 1 {
            obj.select();
        }
        marked.objects.push(obj);
    }
    marked.remove_selected();
    assert_eq!(marked.len(), 2);
    assert_eq!(marked.get(0).z, 0);
    assert_eq!(marked.get(1).z, 2);
}

#[test]
fn diff_of_identical_snapshots_is_empty() {
    let mut store = SceneStore::new();
    for i in 0..3u32 {
        store.insert(RenderObject::new(u32::MAX, line_at(i, i as i64 * 20)));
    }
    let d = diff(&store, &store);
    assert!(d.added.is_empty());
    assert!(d.updated.is_empty());
    assert!(d.removed.is_empty());
    assert!(d.dirty.is_none());
}

#[test]
fn diff_sorts_changes_into_the_three_groups() {
    // old: orders 0, 1, 2.  new: 0 removed, 1 kept, 2 selected, 3 added.
    let mut old_s = SceneStore::new();
    for i in 0..3u32 {
        old_s.insert(RenderObject::new(u32::MAX, line_at(i, i as i64 * 20)));
    }
    let mut new_s = SceneStore::new();
    new_s.objects.push(*old_s.get(1));
    let mut changed = *old_s.get(2);
    changed.select();
    new_s.objects.push(changed);
    new_s.objects.push(RenderObject::new(3, line_at(9, 200)));

    let d = diff(&old_s, &new_s);
    assert_eq!(d.added.len(), 1);
    assert_eq!(d.added[0].z, 3);
    assert_eq!(d.removed.len(), 1);
    assert_eq!(d.removed[0].z, 0);
    assert_eq!(d.updated.len(), 1);
    assert_eq!(d.updated[0].0.z, 2);
    assert_eq!(d.updated[0].1.z, 2);
    assert!(!d.updated[0].0.is_selected());
    assert!(d.updated[0].1.is_selected());

    // The dirty region covers every touched footprint, old and new.
    let dirty = d.dirty.expect("changes must produce a dirty region");
    let added_bb = d.added[0].aabb();
    let removed_bb = d.removed[0].aabb();
    let upd_old_bb = d.updated[0].0.aabb();
    let upd_new_bb = d.updated[0].1.aabb();
    assert!(dirty.contains_rect(&added_bb));
    assert!(dirty.contains_rect(&removed_bb));
    assert!(dirty.contains_rect(&upd_old_bb));
    assert!(dirty.contains_rect(&upd_new_bb));
    // ... and nothing more: it is exactly the union of those footprints.
    let expected = added_bb.union(removed_bb).union(upd_old_bb).union(upd_new_bb);
    assert_eq!(dirty, expected);
}

#[test]
fn object_intersection_uses_bounding_rectangles() {
    let a = RenderObject::new(0, line_at(1, 0));
    let b = RenderObject::new(1, line_at(2, 5));
    let far = RenderObject::new(2, line_at(3, 10000));
    assert!(a.intersects(&b));
    assert!(!a.intersects(&far));
}

#[test]
fn selection_rect_bounding_box_grows_by_one_unit() {
    let r = lipuma::geometry::FxRect::from_points(pt(0, 0), pt(10, 20));
    let s = lipuma::render_object::SelectionRect::new(r);
    let bb = s.aabb();
    assert_eq!(bb.x0.raw, -SCALE);
    assert_eq!(bb.y0.raw, -SCALE);
    assert_eq!(bb.x1.raw, 10 * SCALE + SCALE);
    assert_eq!(bb.y1.raw, 20 * SCALE + SCALE);
}
