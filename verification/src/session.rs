//! The editing session and the widget logic around it.
//!
//! `GraphicsData` is the session state a host owns: the scene, the active
//! tool, the in-progress preview and the canvas transform. `GraphicsWidget`
//! holds the host-side gesture state — panning, rotating, the shift key —
//! and steps the session for each input event. Everything here is plain
//! fixed-point arithmetic except the angle of a rotation gesture: for that
//! the widget hands the host a `RotateRequest`, and the host answers with
//! the cosine and sine of the angle it computed.
use vstd::prelude::*;

verus! {

use crate::fixed::{Fx, SCALE, COORD_LIMIT, div_floor_i64, lemma_div_floor_bound};
use crate::geometry::{
    FxPoint,
    FxRect,
    Affine,
    AFF_LIMIT,
    affine_identity,
    apply_x,
    apply_y,
    compose_opt,
    inverse_opt,
    spec_transform_rect_bbox,
};
use crate::render_object::RenderObject;
use crate::scene::SceneStore;
use crate::tools::{
    Tool,
    FractalLineTool,
    ToolState,
    InputEvent,
    MouseEvent,
    MouseButton,
    WheelEvent,
    Key,
};

/// The factor one wheel notch zooms in by: 1.01 in raw steps, rounded.
pub const ZOOM_IN_FACTOR: i64 = 66191;

/// The factor one wheel notch zooms out by: 1/1.01 in raw steps, rounded.
pub const ZOOM_OUT_FACTOR: i64 = 64887;

/// Whether a drawing gesture is running in the session.
#[derive(Clone, Copy, Debug, PartialEq, Eq, Structural, Hash)]
pub enum GraphicsEngineState {
    Default,
    Drawing,
}

/// The widget's own gesture: idle, panning from a point, or rotating from
/// a point.
#[derive(Clone, Copy, Debug, PartialEq, Eq, Structural, Hash)]
pub enum GraphicsWidgetState {
    Default,
    Panning(FxPoint),
    Rotating(FxPoint),
}

/// A rotation the host must finish: it computes the angle between the two
/// rays from `hub` and applies it about `center_scene`.
#[derive(Clone, Copy, Debug, PartialEq, Eq, Structural, Hash)]
pub struct RotateRequest {
    pub hub: FxPoint,
    pub from: FxPoint,
    pub to: FxPoint,
    pub center_scene: FxPoint,
}

/// What the host must do after an event.
#[derive(Clone, Copy, Debug, PartialEq, Eq, Structural, Hash)]
pub struct EventOutput {
    pub request_focus: bool,
    pub request_paint: bool,
    pub rotate: Option<RotateRequest>,
}

/// A translation matrix as a value.
pub open spec fn affine_translate(v: FxPoint) -> Affine {
    Affine { a: Fx { raw: SCALE }, b: Fx { raw: 0 }, c: Fx { raw: 0 }, d: Fx { raw: SCALE }, e: v.x, f: v.y }
}

/// A uniform scaling matrix as a value.
pub open spec fn affine_scale_mat(s: Fx) -> Affine {
    Affine { a: s, b: Fx { raw: 0 }, c: Fx { raw: 0 }, d: s, e: Fx { raw: 0 }, f: Fx { raw: 0 } }
}

/// A rotation matrix from a cosine and a sine, as a value.
pub open spec fn affine_rotate_mat(cos: Fx, sin: Fx) -> Affine {
    Affine { a: cos, b: sin, c: Fx { raw: (-sin.raw) as i64 }, d: cos, e: Fx { raw: 0 }, f: Fx { raw: 0 } }
}

/// The negated point.
pub open spec fn point_neg(p: FxPoint) -> FxPoint {
    FxPoint { x: Fx { raw: (-p.x.raw) as i64 }, y: Fx { raw: (-p.y.raw) as i64 } }
}

/// The image of a point, as a value.
pub open spec fn spec_apply_pt(m: Affine, p: FxPoint) -> FxPoint {
    FxPoint {
        x: Fx { raw: apply_x(m, p.x.raw as int, p.y.raw as int) as i64 },
        y: Fx { raw: apply_y(m, p.x.raw as int, p.y.raw as int) as i64 },
    }
}

/// The conjugated composition `t * (translate(p) * mid * translate(-p))`,
/// or `None` where a coefficient would leave the affine range.
pub open spec fn spec_around_point(t: Affine, p: FxPoint, mid: Affine) -> Option<Affine> {
    match compose_opt(affine_translate(p), mid) {
        Some(m1) => match compose_opt(m1, affine_translate(point_neg(p))) {
            Some(m2) => compose_opt(t, m2),
            None => None,
        },
        None => None,
    }
}

/// The editing session a host owns.
#[derive(Clone, Debug)]
pub struct GraphicsData {
    pub objects: SceneStore,
    pub preview: Option<RenderObject>,
    pub tool: Tool,
    pub transform: Affine,
}

impl GraphicsData {
    /// Scene, tool and transform are well formed.
    pub open spec fn wf(self) -> bool {
        &&& self.objects.wf()
        &&& self.tool.wf()
        &&& self.transform.in_range()
    }

    /// A fresh session: empty scene, no preview, the line tool on standby,
    /// the identity canvas transform.
    pub fn new() -> (r: GraphicsData)
        ensures
            r.objects.objects@.len() == 0,
            r.preview is None,
            r.transform == affine_identity(),
            r.tool matches Tool::FractalLineTool(t) && t.state == ToolState::Standby,
            r.wf(),
    {
        GraphicsData {
            objects: SceneStore::new(),
            preview: None,
            tool: Tool::FractalLineTool(FractalLineTool::new()),
            transform: Affine::identity(),
        }
    }

    /// The transform that takes canvas space to widget space.
    pub fn get_trans_to_widget(&self) -> (r: Affine)
        ensures
            r == self.transform,
    {
        self.transform
    }

    /// Only the translation of the transform: the matrix block is the
    /// identity, the translation coefficients are kept.
    pub fn get_translation(&self) -> (r: Affine)
        ensures
            r == (Affine {
                e: self.transform.e,
                f: self.transform.f,
                ..affine_identity()
            }),
            self.transform.in_range() ==> r.in_range(),
    {
        Affine {
            a: Fx::new(SCALE),
            b: Fx::zero(),
            c: Fx::zero(),
            d: Fx::new(SCALE),
            e: self.transform.e,
            f: self.transform.f,
        }
    }

    /// The rotation and scale of the transform, with the translation
    /// dropped.
    pub fn get_rot_scale(&self) -> (r: Affine)
        ensures
            r == (Affine { e: Fx { raw: 0 }, f: Fx { raw: 0 }, ..self.transform }),
            self.transform.in_range() ==> r.in_range(),
    {
        Affine {
            a: self.transform.a,
            b: self.transform.b,
            c: self.transform.c,
            d: self.transform.d,
            e: Fx::zero(),
            f: Fx::zero(),
        }
    }

    /// Scale the canvas about a point given in canvas space. Left
    /// unchanged when a coefficient would leave the affine range.
    pub fn scale_around_point(&mut self, p: FxPoint, s: Fx) -> (applied: bool)
        requires
            old(self).wf(),
            -AFF_LIMIT <= p.x.raw <= AFF_LIMIT,
            -AFF_LIMIT <= p.y.raw <= AFF_LIMIT,
            -AFF_LIMIT <= s.raw <= AFF_LIMIT,
        ensures
            final(self).objects == old(self).objects,
            final(self).preview == old(self).preview,
            final(self).tool == old(self).tool,
            match spec_around_point(old(self).transform, p, affine_scale_mat(s)) {
                Some(m) => applied && final(self).transform == m,
                None => !applied && final(self).transform == old(self).transform,
            },
            final(self).wf(),
    {
        let t1 = Affine::translate(p);
        let mid = Affine::scale(s);
        let t3 = Affine::translate(FxPoint { x: p.x.neg(), y: p.y.neg() });
        match t1.try_compose(&mid) {
            Some(m1) => match m1.try_compose(&t3) {
                Some(m2) => match self.transform.try_compose(&m2) {
                    Some(r) => {
                        self.transform = r;
                        true
                    },
                    None => false,
                },
                None => false,
            },
            None => false,
        }
    }

    /// Rotate the canvas about a point given in canvas space, by the angle
    /// whose cosine and sine the host computed. Left unchanged when a
    /// coefficient would leave the affine range.
    pub fn rotate_around_point(&mut self, p: FxPoint, cos: Fx, sin: Fx) -> (applied: bool)
        requires
            old(self).wf(),
            -AFF_LIMIT <= p.x.raw <= AFF_LIMIT,
            -AFF_LIMIT <= p.y.raw <= AFF_LIMIT,
            -0x20000 <= cos.raw <= 0x20000,
            -0x20000 <= sin.raw <= 0x20000,
        ensures
            final(self).objects == old(self).objects,
            final(self).preview == old(self).preview,
            final(self).tool == old(self).tool,
            match spec_around_point(old(self).transform, p, affine_rotate_mat(cos, sin)) {
                Some(m) => applied && final(self).transform == m,
                None => !applied && final(self).transform == old(self).transform,
            },
            final(self).wf(),
    {
        let t1 = Affine::translate(p);
        let mid = Affine::rotate_cs(cos, sin);
        let t3 = Affine::translate(FxPoint { x: p.x.neg(), y: p.y.neg() });
        match t1.try_compose(&mid) {
            Some(m1) => match m1.try_compose(&t3) {
                Some(m2) => match self.transform.try_compose(&m2) {
                    Some(r) => {
                        self.transform = r;
                        true
                    },
                    None => false,
                },
                None => false,
            },
            None => false,
        }
    }
}

impl Default for GraphicsData {
    /// A fresh session, as `new` builds it.
    fn default() -> (r: Self)
        ensures
            r.objects.objects@.len() == 0,
            r.preview is None,
            r.wf(),
    {
        Self::new()
    }
}

/// The new canvas transform after a pan from `from` to `to`: the delta is
/// taken back through the inverse of the rotation-and-scale block and
/// appended as a translation. The transform is kept when the block cannot
/// be inverted or a coefficient would leave the affine range.
pub open spec fn spec_pan_result(t: Affine, from: FxPoint, to: FxPoint) -> Affine {
    let rs = Affine { e: Fx { raw: 0 }, f: Fx { raw: 0 }, ..t };
    match inverse_opt(rs) {
        Some(inv) => {
            let d = FxPoint {
                x: Fx { raw: (to.x.raw - from.x.raw) as i64 },
                y: Fx { raw: (to.y.raw - from.y.raw) as i64 },
            };
            let v = spec_apply_pt(inv, d);
            if -AFF_LIMIT <= v.x.raw <= AFF_LIMIT && -AFF_LIMIT <= v.y.raw <= AFF_LIMIT {
                match compose_opt(t, affine_translate(v)) {
                    Some(r) => r,
                    None => t,
                }
            } else {
                t
            }
        },
        None => t,
    }
}

/// The middle of the widget's viewport.
pub open spec fn spec_port_center(port: FxRect) -> FxPoint {
    FxPoint {
        x: Fx { raw: ((port.x1.raw - port.x0.raw) / 2) as i64 },
        y: Fx { raw: ((port.y1.raw - port.y0.raw) / 2) as i64 },
    }
}

/// The rotation request a drag from `from` to `to` raises, or `None` when
/// the canvas transform cannot be inverted.
pub open spec fn spec_rotate_request(port: FxRect, t: Affine, from: FxPoint, to: FxPoint) -> Option<
    RotateRequest,
> {
    let hub = spec_port_center(port);
    match inverse_opt(t) {
        Some(inv) => Some(
            RotateRequest { hub, from, to, center_scene: spec_apply_pt(inv, hub) },
        ),
        None => None,
    }
}

/// The new canvas transform after one wheel notch at `e.pos`: a scaling
/// about the cursor taken back into canvas space. The transform is kept
/// when it cannot be inverted, the cursor image leaves the affine range,
/// or a coefficient would.
pub open spec fn spec_wheel_result(t: Affine, e: WheelEvent) -> Affine {
    if e.delta_y.raw == 0 {
        t
    } else {
        let factor = if e.delta_y.raw < 0 {
            Fx { raw: ZOOM_IN_FACTOR }
        } else {
            Fx { raw: ZOOM_OUT_FACTOR }
        };
        match inverse_opt(t) {
            Some(inv) => {
                let c = spec_apply_pt(inv, e.pos);
                if -AFF_LIMIT <= c.x.raw <= AFF_LIMIT && -AFF_LIMIT <= c.y.raw <= AFF_LIMIT {
                    match spec_around_point(t, c, affine_scale_mat(factor)) {
                        Some(r) => r,
                        None => t,
                    }
                } else {
                    t
                }
            },
            None => t,
        }
    }
}

/// The new canvas transform after a host zoom gesture by factor `s`.
pub open spec fn spec_zoom_result(t: Affine, s: Fx) -> Affine {
    if -AFF_LIMIT <= s.raw <= AFF_LIMIT {
        match compose_opt(t, affine_scale_mat(s)) {
            Some(r) => r,
            None => t,
        }
    } else {
        t
    }
}

/// Whether the transformation phase claims the event for itself.
pub open spec fn spec_transform_handles(
    state: GraphicsWidgetState,
    ev: InputEvent,
) -> bool {
    match ev {
        InputEvent::MouseDown(e) => e.button == MouseButton::Middle,
        InputEvent::MouseMove(_) => state is Panning,
        InputEvent::MouseUp(e) => e.button == MouseButton::Middle,
        _ => false,
    }
}

/// How one input event steps the widget's gesture state and the canvas
/// transform.
pub open spec fn spec_transform_step(
    pre_state: GraphicsWidgetState,
    pre_shift: bool,
    port: FxRect,
    t_pre: Affine,
    post_state: GraphicsWidgetState,
    post_shift: bool,
    t_post: Affine,
    ev: InputEvent,
    rot: Option<RotateRequest>,
) -> bool {
    match ev {
        InputEvent::MouseDown(e) => if e.button == MouseButton::Middle {
            &&& post_state == if pre_shift {
                GraphicsWidgetState::Rotating(e.pos)
            } else {
                GraphicsWidgetState::Panning(e.pos)
            }
            &&& post_shift == pre_shift
            &&& t_post == t_pre
            &&& rot is None
        } else {
            post_state == pre_state && post_shift == pre_shift && t_post == t_pre && rot is None
        },
        InputEvent::MouseMove(e) => match pre_state {
            GraphicsWidgetState::Default => post_state == pre_state && post_shift == pre_shift
                && t_post == t_pre && rot is None,
            GraphicsWidgetState::Panning(p) => {
                &&& post_state == GraphicsWidgetState::Panning(e.pos)
                &&& post_shift == pre_shift
                &&& t_post == spec_pan_result(t_pre, p, e.pos)
                &&& rot is None
            },
            GraphicsWidgetState::Rotating(p) => {
                &&& post_state == GraphicsWidgetState::Rotating(e.pos)
                &&& post_shift == pre_shift
                &&& t_post == t_pre
                &&& rot == spec_rotate_request(port, t_pre, p, e.pos)
            },
        },
        InputEvent::MouseUp(e) => if e.button == MouseButton::Middle {
            post_state == GraphicsWidgetState::Default && post_shift == pre_shift && t_post
                == t_pre && rot is None
        } else {
            post_state == pre_state && post_shift == pre_shift && t_post == t_pre && rot is None
        },
        InputEvent::Wheel(e) => {
            &&& post_state == pre_state
            &&& post_shift == pre_shift
            &&& t_post == spec_wheel_result(t_pre, e)
            &&& rot is None
        },
        InputEvent::KeyDown(k) => {
            &&& post_state == pre_state
            &&& post_shift == if k == Key::Shift {
                true
            } else {
                pre_shift
            }
            &&& t_post == t_pre
            &&& rot is None
        },
        InputEvent::KeyUp(k) => {
            &&& post_state == pre_state
            &&& post_shift == if k == Key::Shift {
                false
            } else {
                pre_shift
            }
            &&& t_post == t_pre
            &&& rot is None
        },
        InputEvent::Zoom(s) => {
            &&& post_state == pre_state
            &&& post_shift == pre_shift
            &&& t_post == spec_zoom_result(t_pre, s)
            &&& rot is None
        },
        _ => post_state == pre_state && post_shift == pre_shift && t_post == t_pre && rot
            is None,
    }
}

/// The widget around the session: viewport, gesture state and the shift
/// key, plus the coarse drawing state of the engine.
#[derive(Clone, Copy, Debug, PartialEq, Eq, Structural, Hash)]
pub struct GraphicsWidget {
    pub port: FxRect,
    pub state: GraphicsWidgetState,
    pub shift_held: bool,
    pub engine_state: GraphicsEngineState,
}

impl GraphicsWidget {
    /// The viewport is ordered and in range; a gesture anchor is in range.
    pub open spec fn wf(self) -> bool {
        &&& self.port.ordered()
        &&& -COORD_LIMIT <= self.port.x0.raw <= COORD_LIMIT
        &&& -COORD_LIMIT <= self.port.x1.raw <= COORD_LIMIT
        &&& -COORD_LIMIT <= self.port.y0.raw <= COORD_LIMIT
        &&& -COORD_LIMIT <= self.port.y1.raw <= COORD_LIMIT
        &&& match self.state {
            GraphicsWidgetState::Default => true,
            GraphicsWidgetState::Panning(p) => p.in_range(),
            GraphicsWidgetState::Rotating(p) => p.in_range(),
        }
    }

    /// A fresh widget: empty viewport, no gesture, shift up, engine idle.
    pub fn new() -> (r: GraphicsWidget)
        ensures
            r.state == GraphicsWidgetState::Default,
            r.shift_held == false,
            r.engine_state == GraphicsEngineState::Default,
            r.port == (FxRect { x0: Fx { raw: 0 }, y0: Fx { raw: 0 }, x1: Fx { raw: 0 }, y1: Fx { raw: 0 } }),
            r.wf(),
    {
        GraphicsWidget {
            port: FxRect { x0: Fx::zero(), y0: Fx::zero(), x1: Fx::zero(), y1: Fx::zero() },
            state: GraphicsWidgetState::Default,
            shift_held: false,
            engine_state: GraphicsEngineState::Default,
        }
    }

    /// Leave the current engine state and enter the given one.
    pub fn enter_state(&mut self, new_state: GraphicsEngineState)
        ensures
            *final(self) == (GraphicsWidget { engine_state: new_state, ..*old(self) }),
    {
        self.exit_state();
        self.engine_state = new_state;
    }

    /// Leaving either engine state needs no cleanup.
    pub fn exit_state(&self)
        ensures
            true,
    {
        match self.engine_state {
            GraphicsEngineState::Default => (),
            GraphicsEngineState::Drawing => (),
        }
    }

    /// The translation that moves the origin to the viewport's middle.
    pub fn get_offset_to_center_as_affine(&self) -> (r: Affine)
        requires
            self.wf(),
        ensures
            r == affine_translate(spec_port_center(self.port)),
    {
        let c = self.port_center();
        Affine::translate(c)
    }

    /// The middle of the viewport.
    fn port_center(&self) -> (r: FxPoint)
        requires
            self.wf(),
        ensures
            r == spec_port_center(self.port),
            r.in_range(),
            -AFF_LIMIT <= r.x.raw <= AFF_LIMIT,
            -AFF_LIMIT <= r.y.raw <= AFF_LIMIT,
    {
        proof {
            lemma_div_floor_bound(self.port.x1.raw - self.port.x0.raw, 2);
            lemma_div_floor_bound(self.port.y1.raw - self.port.y0.raw, 2);
        }
        let hx: i64 = div_floor_i64(self.port.x1.raw - self.port.x0.raw, 2);
        let hy: i64 = div_floor_i64(self.port.y1.raw - self.port.y0.raw, 2);
        FxPoint { x: Fx::new(hx), y: Fx::new(hy) }
    }

    /// Carry an event's position through the given transform, dropping the
    /// event when the image leaves the coordinate range. Events without a
    /// position pass through unchanged.
    pub fn adjust_event_by_transform(e: &InputEvent, trans: &Affine) -> (r: Option<InputEvent>)
        requires
            trans.in_range(),
            e.pos_ok(),
        ensures
            r == spec_adjust_pos(*trans, *e),
    {
        match e {
            InputEvent::MouseDown(me) => match Self::adjust_point(&me.pos, trans) {
                Some(p) => Some(InputEvent::MouseDown(MouseEvent { pos: p, button: me.button })),
                None => None,
            },
            InputEvent::MouseUp(me) => match Self::adjust_point(&me.pos, trans) {
                Some(p) => Some(InputEvent::MouseUp(MouseEvent { pos: p, button: me.button })),
                None => None,
            },
            InputEvent::MouseMove(me) => match Self::adjust_point(&me.pos, trans) {
                Some(p) => Some(InputEvent::MouseMove(MouseEvent { pos: p, button: me.button })),
                None => None,
            },
            InputEvent::Wheel(we) => match Self::adjust_point(&we.pos, trans) {
                Some(p) => Some(InputEvent::Wheel(WheelEvent { pos: p, delta_y: we.delta_y })),
                None => None,
            },
            other => Some(*other),
        }
    }

    /// One position through the transform, range-checked.
    fn adjust_point(p: &FxPoint, trans: &Affine) -> (r: Option<FxPoint>)
        requires
            trans.in_range(),
            p.in_range(),
        ensures
            r == if spec_apply_pt(*trans, *p).in_range() {
                Some(spec_apply_pt(*trans, *p))
            } else {
                Option::<FxPoint>::None
            },
    {
        let q = trans.apply(p);
        if q.check_range() {
            Some(q)
        } else {
            None
        }
    }
}

/// An event's position carried through a transform, as a value.
pub open spec fn spec_adjust_pos(m: Affine, ev: InputEvent) -> Option<InputEvent> {
    match ev {
        InputEvent::MouseDown(e) => if spec_apply_pt(m, e.pos).in_range() {
            Some(InputEvent::MouseDown(MouseEvent { pos: spec_apply_pt(m, e.pos), button: e.button }))
        } else {
            None
        },
        InputEvent::MouseUp(e) => if spec_apply_pt(m, e.pos).in_range() {
            Some(InputEvent::MouseUp(MouseEvent { pos: spec_apply_pt(m, e.pos), button: e.button }))
        } else {
            None
        },
        InputEvent::MouseMove(e) => if spec_apply_pt(m, e.pos).in_range() {
            Some(InputEvent::MouseMove(MouseEvent { pos: spec_apply_pt(m, e.pos), button: e.button }))
        } else {
            None
        },
        InputEvent::Wheel(e) => if spec_apply_pt(m, e.pos).in_range() {
            Some(InputEvent::Wheel(WheelEvent { pos: spec_apply_pt(m, e.pos), delta_y: e.delta_y }))
        } else {
            None
        },
        _ => Some(ev),
    }
}

impl Default for GraphicsWidget {
    /// A fresh widget, as `new` builds it.
    fn default() -> (r: Self)
        ensures
            r.state == GraphicsWidgetState::Default,
            r.engine_state == GraphicsEngineState::Default,
            r.wf(),
    {
        Self::new()
    }
}

/// The engine's coarse drawing state mirrors the line tool's gesture.
pub open spec fn spec_engine_state(t: Tool) -> GraphicsEngineState {
    match t {
        Tool::FractalLineTool(lt) => if lt.state == ToolState::Drawing {
            GraphicsEngineState::Drawing
        } else {
            GraphicsEngineState::Default
        },
        Tool::SelectionTool(_) => GraphicsEngineState::Default,
    }
}

/// Whether the event carries a position.
pub open spec fn is_positional(ev: InputEvent) -> bool {
    ev is MouseDown || ev is MouseUp || ev is MouseMove || ev is Wheel
}

/// Whether the active tool claims the event for itself.
pub open spec fn spec_tool_handles(t: Tool, ev: InputEvent) -> bool {
    match t {
        Tool::FractalLineTool(lt) => match ev {
            InputEvent::MouseDown(_) => true,
            InputEvent::MouseMove(_) => lt.state == ToolState::Drawing,
            _ => false,
        },
        Tool::SelectionTool(_) => false,
    }
}

/// The event as the tool sees it: its position carried back through the
/// inverse canvas transform. A positional event is dropped when the
/// transform cannot be inverted or the image leaves the coordinate range.
pub open spec fn spec_adjusted_event(t: Affine, ev: InputEvent) -> Option<InputEvent> {
    match inverse_opt(t) {
        Some(inv) => spec_adjust_pos(inv, ev),
        None => if is_positional(ev) {
            None
        } else {
            Some(ev)
        },
    }
}

/// Whether an object's transformed bounding rectangle reaches a viewport.
pub open spec fn visible_pred(t: Affine, vp: FxRect) -> spec_fn(RenderObject) -> bool {
    |o: RenderObject| spec_transform_rect_bbox(t, o.spec_aabb()).overlaps(vp)
}

impl GraphicsWidget {
    /// Take the viewport the host laid the widget out with.
    pub fn layout(&mut self, port: FxRect)
        requires
            port.ordered(),
            -COORD_LIMIT <= port.x0.raw <= COORD_LIMIT,
            -COORD_LIMIT <= port.x1.raw <= COORD_LIMIT,
            -COORD_LIMIT <= port.y0.raw <= COORD_LIMIT,
            -COORD_LIMIT <= port.y1.raw <= COORD_LIMIT,
            old(self).wf(),
        ensures
            *final(self) == (GraphicsWidget { port, ..*old(self) }),
            final(self).wf(),
    {
        self.port = port;
    }

    /// Pan, rotate, zoom and shift handling: claims middle-button
    /// gestures, steps the canvas transform, and raises a rotation request
    /// the host must finish with its own trigonometry.
    pub fn handle_transformation_events(
        &mut self,
        data: &mut GraphicsData,
        event: &InputEvent,
    ) -> (out: (bool, Option<RotateRequest>))
        requires
            old(self).wf(),
            old(data).wf(),
            event.pos_ok(),
        ensures
            final(self).port == old(self).port,
            final(self).engine_state == old(self).engine_state,
            final(self).wf(),
            final(data).objects == old(data).objects,
            final(data).preview == old(data).preview,
            final(data).tool == old(data).tool,
            final(data).wf(),
            out.0 == spec_transform_handles(old(self).state, *event),
            spec_transform_step(
                old(self).state,
                old(self).shift_held,
                old(self).port,
                old(data).transform,
                final(self).state,
                final(self).shift_held,
                final(data).transform,
                *event,
                out.1,
            ),
    {
        match event {
            InputEvent::MouseDown(e) => {
                if e.button == MouseButton::Middle {
                    if self.shift_held {
                        self.state = GraphicsWidgetState::Rotating(e.pos);
                    } else {
                        self.state = GraphicsWidgetState::Panning(e.pos);
                    }
                    (true, None)
                } else {
                    (false, None)
                }
            },
            InputEvent::MouseMove(e) => {
                match self.state {
                    GraphicsWidgetState::Default => (false, None),
                    GraphicsWidgetState::Panning(p) => {
                        let rs = data.get_rot_scale();
                        match rs.try_inverse() {
                            Some(inv) => {
                                let d = FxPoint {
                                    x: Fx::new(e.pos.x.raw - p.x.raw),
                                    y: Fx::new(e.pos.y.raw - p.y.raw),
                                };
                                let v = inv.apply(&d);
                                if -AFF_LIMIT <= v.x.raw && v.x.raw <= AFF_LIMIT && -AFF_LIMIT
                                    <= v.y.raw && v.y.raw <= AFF_LIMIT {
                                    match data.transform.try_compose(&Affine::translate(v)) {
                                        Some(r) => {
                                            data.transform = r;
                                        },
                                        None => {},
                                    }
                                }
                            },
                            None => {},
                        }
                        self.state = GraphicsWidgetState::Panning(e.pos);
                        (true, None)
                    },
                    GraphicsWidgetState::Rotating(p) => {
                        let hub = self.port_center();
                        let rot = match data.transform.try_inverse() {
                            Some(inv) => {
                                let cs = inv.apply(&hub);
                                Some(RotateRequest { hub, from: p, to: e.pos, center_scene: cs })
                            },
                            None => None,
                        };
                        self.state = GraphicsWidgetState::Rotating(e.pos);
                        (false, rot)
                    },
                }
            },
            InputEvent::MouseUp(e) => {
                if e.button == MouseButton::Middle {
                    self.state = GraphicsWidgetState::Default;
                    (true, None)
                } else {
                    (false, None)
                }
            },
            InputEvent::Wheel(e) => {
                if e.delta_y.raw != 0 {
                    let factor = if e.delta_y.raw < 0 {
                        Fx::new(ZOOM_IN_FACTOR)
                    } else {
                        Fx::new(ZOOM_OUT_FACTOR)
                    };
                    match data.transform.try_inverse() {
                        Some(inv) => {
                            let c = inv.apply(&e.pos);
                            if -AFF_LIMIT <= c.x.raw && c.x.raw <= AFF_LIMIT && -AFF_LIMIT
                                <= c.y.raw && c.y.raw <= AFF_LIMIT {
                                data.scale_around_point(c, factor);
                            }
                        },
                        None => {},
                    }
                }
                (false, None)
            },
            InputEvent::KeyDown(k) => {
                if *k == Key::Shift {
                    self.shift_held = true;
                }
                (false, None)
            },
            InputEvent::KeyUp(k) => {
                if *k == Key::Shift {
                    self.shift_held = false;
                }
                (false, None)
            },
            InputEvent::Zoom(sf) => {
                if -AFF_LIMIT <= sf.raw && sf.raw <= AFF_LIMIT {
                    match data.transform.try_compose(&Affine::scale(*sf)) {
                        Some(r) => {
                            data.transform = r;
                        },
                        None => {},
                    }
                }
                (false, None)
            },
            _ => (false, None),
        }
    }

    /// Mirror the line tool's gesture into the engine state.
    fn sync_engine(&mut self, data: &GraphicsData)
        ensures
            *final(self) == (GraphicsWidget {
                engine_state: spec_engine_state(data.tool),
                ..*old(self)
            }),
    {
        let drawing = match &data.tool {
            Tool::FractalLineTool(t) => match t.state {
                ToolState::Drawing => true,
                ToolState::Standby => false,
            },
            Tool::SelectionTool(_) => false,
        };
        if drawing {
            self.enter_state(GraphicsEngineState::Drawing);
        } else {
            self.enter_state(GraphicsEngineState::Default);
        }
    }

    /// One input event, start to finish: the transformation phase may
    /// claim it; otherwise the active tool sees it with its position taken
    /// back into canvas space, the backspace key deletes the selection,
    /// and the preview is refreshed.
    pub fn event(&mut self, data: &mut GraphicsData, event: &InputEvent) -> (out: EventOutput)
        requires
            old(self).wf(),
            old(data).wf(),
            event.pos_ok(),
            old(data).objects.spec_next_order() <= u32::MAX,
        ensures
            final(self).wf(),
            final(data).wf(),
            final(self).port == old(self).port,
            final(self).engine_state == spec_engine_state(final(data).tool),
            spec_transform_step(
                old(self).state,
                old(self).shift_held,
                old(self).port,
                old(data).transform,
                final(self).state,
                final(self).shift_held,
                final(data).transform,
                *event,
                out.rotate,
            ),
            spec_transform_handles(old(self).state, *event) ==> {
                &&& final(data).tool == old(data).tool
                &&& final(data).objects == old(data).objects
                &&& final(data).preview == old(data).preview
                &&& !out.request_focus
                &&& !out.request_paint
            },
            !spec_transform_handles(old(self).state, *event) ==> {
                &&& final(data).preview == final(data).tool.spec_preview()
                &&& out.request_focus == (*event is WindowConnected)
                &&& out.request_paint == (*event is WindowSize)
                &&& is_positional(*event) ==> match spec_adjusted_event(
                    old(data).transform,
                    *event,
                ) {
                    Some(te) => Tool::step(
                        old(data).tool,
                        final(data).tool,
                        old(data).objects.objects@,
                        final(data).objects.objects@,
                        te,
                        spec_tool_handles(old(data).tool, te),
                    ),
                    None => final(data).tool == old(data).tool
                        && final(data).objects.objects@ == old(data).objects.objects@,
                }
                &&& (*event matches InputEvent::KeyDown(k) && k == Key::Backspace) ==> final(data).tool == old(data).tool && final(data).objects.objects@ == old(data).objects.objects@.filter(|o: RenderObject| !o.selected)
                &&& (!is_positional(*event) && !(*event matches InputEvent::KeyDown(k) && k
                    == Key::Backspace)) ==> final(data).tool == old(data).tool && final(data).objects.objects@ == old(data).objects.objects@
            },
    {
        let (handled, rot) = self.handle_transformation_events(data, event);
        if handled {
            self.sync_engine(data);
            return EventOutput { request_focus: false, request_paint: false, rotate: rot };
        }
        let mut request_focus = false;
        let mut request_paint = false;
        let adj: Option<InputEvent> = match data.transform.try_inverse() {
            Some(inv) => Self::adjust_event_by_transform(event, &inv),
            None => match event {
                InputEvent::MouseDown(_) => None,
                InputEvent::MouseUp(_) => None,
                InputEvent::MouseMove(_) => None,
                InputEvent::Wheel(_) => None,
                other => Some(*other),
            },
        };
        let tool_handled = match adj {
            Some(te) => data.tool.event(&te, &mut data.objects),
            None => false,
        };
        if !tool_handled {
            match event {
                InputEvent::WindowConnected => {
                    request_focus = true;
                },
                InputEvent::WindowSize => {
                    request_paint = true;
                },
                InputEvent::KeyDown(k) => {
                    if *k == Key::Backspace {
                        data.objects.remove_selected();
                    }
                },
                _ => {},
            }
        }
        data.preview = data.tool.get_preview();
        self.sync_engine(data);
        EventOutput { request_focus, request_paint, rotate: rot }
    }
}

/// The objects a paint pass must visit: exactly those whose transformed
/// bounding rectangle shares area with the viewport, in draw order.
pub fn visible_objects(data: &GraphicsData, viewport: &FxRect) -> (r: Vec<RenderObject>)
    requires
        data.wf(),
    ensures
        r@ == data.objects.objects@.filter(visible_pred(data.transform, *viewport)),
{
    let ghost orig = data.objects.objects@;
    let ghost pred = visible_pred(data.transform, *viewport);
    let mut out: Vec<RenderObject> = Vec::new();
    let mut i: usize = 0;
    proof {
        reveal(Seq::filter);
        assert(orig.take(0int).filter(pred) =~= Seq::<RenderObject>::empty());
    }
    while i < data.objects.objects.len()
        invariant
            i <= orig.len(),
            data.objects.objects@ == orig,
            data.wf(),
            pred == visible_pred(data.transform, *viewport),
            out@ == orig.take(i as int).filter(pred),
        decreases orig.len() - i,
    {
        let obj = data.objects.objects[i];
        proof {
            reveal(Seq::filter);
            let pre = orig.take(i as int + 1);
            assert(pre.drop_last() =~= orig.take(i as int));
            assert(pre.last() == orig[i as int]);
            crate::render_object::lemma_aabb_in_bounds(obj);
        }
        let bb = obj.aabb();
        let tb = data.transform.transform_rect_bbox(&bb);
        if tb.intersects(viewport) {
            out.push(obj);
            proof {
                assert(pred(obj));
            }
        } else {
            proof {
                assert(!pred(obj));
            }
        }
        i = i + 1;
    }
    proof {
        assert(orig.take(orig.len() as int) =~= orig);
    }
    out
}

} // verus!
