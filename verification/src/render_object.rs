//! Drawable objects of the scene.
//!
//! The shapes are a closed tagged union, so bounding boxes, collision
//! shapes and equality are total by exhaustive matching. A `RenderObject`
//! wraps one shape with its draw order, transform and selection flag.
//! Content equality of two objects is plain structural equality; the draw
//! order `z` doubles as the stable identity within a scene, where it is
//! unique.
use vstd::prelude::*;

verus! {

use crate::fixed::{Fx, SCALE, COORD_LIMIT};
use crate::geometry::affine_identity;
use crate::geometry::{FxPoint, FxRect, Affine};
use crate::fractal_line::FractalLine;

/// The ephemeral dashed box a drag-selection shows; never committed to a
/// scene by the tools.
#[derive(Clone, Copy, Debug, PartialEq, Eq, Structural, Hash)]
pub struct SelectionRect {
    pub rect: FxRect,
}

impl SelectionRect {
    /// The rectangle has ordered corners within the coordinate range.
    pub open spec fn wf(self) -> bool {
        &&& self.rect.ordered()
        &&& -COORD_LIMIT <= self.rect.x0.raw <= COORD_LIMIT
        &&& -COORD_LIMIT <= self.rect.x1.raw <= COORD_LIMIT
        &&& -COORD_LIMIT <= self.rect.y0.raw <= COORD_LIMIT
        &&& -COORD_LIMIT <= self.rect.y1.raw <= COORD_LIMIT
    }

    pub fn new(rect: FxRect) -> (r: SelectionRect)
        ensures
            r.rect == rect,
    {
        SelectionRect { rect }
    }

    /// The rectangle grown by one unit in every direction.
    pub open spec fn spec_aabb(self) -> FxRect {
        FxRect {
            x0: Fx { raw: (self.rect.x0.raw - SCALE) as i64 },
            y0: Fx { raw: (self.rect.y0.raw - SCALE) as i64 },
            x1: Fx { raw: (self.rect.x1.raw + SCALE) as i64 },
            y1: Fx { raw: (self.rect.y1.raw + SCALE) as i64 },
        }
    }

    /// The bounding rectangle: the box grown by one unit.
    pub fn aabb(&self) -> (r: FxRect)
        requires
            self.wf(),
        ensures
            r == self.spec_aabb(),
            r.ordered(),
            r.x0.raw < r.x1.raw && r.y0.raw < r.y1.raw,
    {
        let one = Fx::new(SCALE);
        self.rect.inflate(one, one)
    }
}

/// The closed union of drawable shapes.
#[derive(Clone, Copy, Debug, PartialEq, Eq, Structural, Hash)]
pub enum DrawableObj {
    FractalLine(FractalLine),
    SelectionRect(SelectionRect),
}

impl DrawableObj {
    /// The held shape is well formed.
    pub open spec fn wf(self) -> bool {
        match self {
            DrawableObj::FractalLine(l) => l.wf(),
            DrawableObj::SelectionRect(s) => s.wf(),
        }
    }

    /// The conservative bounding rectangle of the shape.
    pub open spec fn spec_aabb(self) -> FxRect {
        match self {
            DrawableObj::FractalLine(l) => l.spec_aabb(),
            DrawableObj::SelectionRect(s) => s.spec_aabb(),
        }
    }

    /// The vertices of the fine collision shape: a line's tessellated
    /// path, or the corners of a selection box.
    pub open spec fn collision_pts(self) -> Seq<FxPoint> {
        match self {
            DrawableObj::FractalLine(l) => Seq::new(
                (l.sample_count() + 1) as nat,
                |k: int|
                    if k < l.sample_count() {
                        l.vertex(k)
                    } else {
                        l.end
                    },
            ),
            DrawableObj::SelectionRect(s) => {
                let bb = s.spec_aabb();
                seq![
                    FxPoint { x: bb.x0, y: bb.y0 },
                    FxPoint { x: bb.x1, y: bb.y0 },
                    FxPoint { x: bb.x1, y: bb.y1 },
                    FxPoint { x: bb.x0, y: bb.y1 },
                ]
            },
        }
    }

    /// The bounding rectangle.
    pub fn aabb(&self) -> (r: FxRect)
        requires
            self.wf(),
        ensures
            r == self.spec_aabb(),
            r.ordered(),
    {
        match self {
            DrawableObj::FractalLine(l) => l.aabb(),
            DrawableObj::SelectionRect(s) => s.aabb(),
        }
    }

    /// The vertices of the fine collision shape.
    pub fn collision_points(&self) -> (pts: Vec<FxPoint>)
        requires
            self.wf(),
        ensures
            pts@ == self.collision_pts(),
            pts@.len() >= 1,
            forall|k: int|
                0 <= k < pts@.len() ==> crate::fractal_line::vertex_in_limit(#[trigger] pts@[k]),
    {
        match self {
            DrawableObj::FractalLine(l) => {
                let pts = l.path_points();
                proof {
                    crate::fractal_line::lemma_path_shape(*l);
                    assert(pts@ =~= self.collision_pts());
                }
                pts
            },
            DrawableObj::SelectionRect(s) => {
                let bb = s.aabb();
                let mut pts: Vec<FxPoint> = Vec::new();
                pts.push(FxPoint { x: bb.x0, y: bb.y0 });
                pts.push(FxPoint { x: bb.x1, y: bb.y0 });
                pts.push(FxPoint { x: bb.x1, y: bb.y1 });
                pts.push(FxPoint { x: bb.x0, y: bb.y1 });
                proof {
                    assert(pts@ =~= self.collision_pts());
                }
                pts
            },
        }
    }
}

/// One object of a scene: a shape with a draw order, a transform and a
/// selection flag.
#[derive(Clone, Copy, Debug, PartialEq, Eq, Structural, Hash)]
pub struct RenderObject {
    pub z: u32,
    pub transform: Affine,
    pub selected: bool,
    pub drawable: DrawableObj,
}

impl RenderObject {
    /// The held drawable is well formed.
    pub open spec fn wf(self) -> bool {
        self.drawable.wf()
    }

    /// The bounding rectangle of the held drawable.
    pub open spec fn spec_aabb(self) -> FxRect {
        self.drawable.spec_aabb()
    }

    /// A fresh object at the given draw order: identity transform, not
    /// selected.
    pub fn new(z: u32, drawable: DrawableObj) -> (r: RenderObject)
        ensures
            r == (RenderObject {
                z,
                transform: crate::geometry::affine_identity(),
                selected: false,
                drawable,
            }),
    {
        RenderObject { z, transform: Affine::identity(), selected: false, drawable }
    }

    pub fn get_drawable(&self) -> (r: &DrawableObj)
        ensures
            r == self.drawable,
    {
        &self.drawable
    }

    /// Mark the object selected; nothing else changes.
    pub fn select(&mut self)
        ensures
            *final(self) == (RenderObject { selected: true, ..*old(self) }),
    {
        self.selected = true;
    }

    /// Clear the selection flag; nothing else changes.
    pub fn deselect(&mut self)
        ensures
            *final(self) == (RenderObject { selected: false, ..*old(self) }),
    {
        self.selected = false;
    }

    pub fn is_selected(&self) -> (r: bool)
        ensures
            r == self.selected,
    {
        self.selected
    }

    /// The bounding rectangle.
    pub fn aabb(&self) -> (r: FxRect)
        requires
            self.wf(),
        ensures
            r == self.spec_aabb(),
            r.ordered(),
    {
        self.drawable.aabb()
    }

    /// Whether the two objects' bounding rectangles share positive area.
    pub fn intersects(&self, rhs: &RenderObject) -> (r: bool)
        requires
            self.wf(),
            rhs.wf(),
        ensures
            r == self.spec_aabb().overlaps(rhs.spec_aabb()),
    {
        let a = self.aabb();
        let b = rhs.aabb();
        a.intersects(&b)
    }
}

/// A well-formed object's bounding rectangle stays within twice the
/// coordinate range: the endpoints are in range and the inflation is
/// bounded by the width cap.
pub proof fn lemma_aabb_in_bounds(o: RenderObject)
    requires
        o.wf(),
    ensures
        -0x8000_0000 <= o.spec_aabb().x0.raw <= 0x8000_0000,
        -0x8000_0000 <= o.spec_aabb().x1.raw <= 0x8000_0000,
        -0x8000_0000 <= o.spec_aabb().y0.raw <= 0x8000_0000,
        -0x8000_0000 <= o.spec_aabb().y1.raw <= 0x8000_0000,
{
    match o.drawable {
        DrawableObj::FractalLine(l) => {
            let amt = (l.width.raw * 21) / 2;
            crate::fixed::lemma_div_floor_bound(l.width.raw * 21, 2);
            assert(0 <= l.width.raw * 21 <= 352321536);
            assert(0 <= amt <= 352321536);
        },
        DrawableObj::SelectionRect(_) => {},
    }
}

} // verus!
