//! The drawing tools and the input events they consume.
//!
//! The active tool is a closed union switched by explicit user action, so
//! dispatch is an exhaustive match and needs no runtime polymorphism. Each
//! tool is a small state machine over pointer events. An in-progress
//! preview is never committed on an incomplete gesture: only a mouse
//! release while drawing inserts into the scene; a tool switch away
//! abandons the gesture.
use vstd::prelude::*;

verus! {

use crate::fixed::{Fx, SCALE};
use crate::geometry::{FxPoint, FxRect, affine_identity};
use crate::noise::FractalNoise;
use crate::fractal_line::{FractalLine, WIDTH_LIMIT, RES_MIN, RES_MAX};
use crate::render_object::{RenderObject, DrawableObj, SelectionRect};
use crate::scene::{SceneStore, next_order_of};
use crate::hit_test::{hit_spec, update_selected};
use crate::rng::random_seed;

/// The lacunarity a fresh line tool starts with: 0.35 in raw steps,
/// rounded down.
pub const DEFAULT_LACUNARITY: i64 = 22937;

/// A pointer button.
#[derive(Clone, Copy, Debug, PartialEq, Eq, Structural, Hash)]
pub enum MouseButton {
    Left,
    Middle,
    Right,
    Other,
}

/// A pointer event, already expressed in scene coordinates.
#[derive(Clone, Copy, Debug, PartialEq, Eq, Structural, Hash)]
pub struct MouseEvent {
    pub pos: FxPoint,
    pub button: MouseButton,
}

/// A scroll event: only the sign of the vertical delta matters.
#[derive(Clone, Copy, Debug, PartialEq, Eq, Structural, Hash)]
pub struct WheelEvent {
    pub pos: FxPoint,
    pub delta_y: Fx,
}

/// The keys the core reacts to.
#[derive(Clone, Copy, Debug, PartialEq, Eq, Structural, Hash)]
pub enum Key {
    Backspace,
    Shift,
    Other,
}

/// A normalized input event from the host.
#[derive(Clone, Copy, Debug, PartialEq, Eq, Structural, Hash)]
pub enum InputEvent {
    MouseDown(MouseEvent),
    MouseUp(MouseEvent),
    MouseMove(MouseEvent),
    Wheel(WheelEvent),
    KeyDown(Key),
    KeyUp(Key),
    Zoom(Fx),
    WindowConnected,
    WindowSize,
}

impl InputEvent {
    /// Every position the event carries lies in the coordinate range.
    pub open spec fn pos_ok(self) -> bool {
        match self {
            InputEvent::MouseDown(e) => e.pos.in_range(),
            InputEvent::MouseUp(e) => e.pos.in_range(),
            InputEvent::MouseMove(e) => e.pos.in_range(),
            InputEvent::Wheel(e) => e.pos.in_range(),
            _ => true,
        }
    }
}

/// Whether a line-drawing gesture is in progress.
#[derive(Clone, Copy, Debug, PartialEq, Eq, Structural, Hash)]
pub enum ToolState {
    Drawing,
    Standby,
}

/// Whether a drag-selection gesture is in progress.
#[derive(Clone, Copy, Debug, PartialEq, Eq, Structural, Hash)]
pub enum SelectionState {
    Selecting,
    Standby,
}

/// The tool that draws fractal lines: press to anchor, drag to aim,
/// release to commit.
#[derive(Clone, Copy, Debug, PartialEq, Eq, Structural, Hash)]
pub struct FractalLineTool {
    pub preview: FractalLine,
    pub state: ToolState,
    pub default_width: Fx,
    pub wavelength: Fx,
    pub default_sample_distance: Fx,
    pub default_offset: Fx,
    pub default_lacunarity: Fx,
    pub default_octaves: i8,
}

/// The two tools keep their configuration across a step.
pub open spec fn same_config(pre: FractalLineTool, post: FractalLineTool) -> bool {
    &&& post.default_width == pre.default_width
    &&& post.wavelength == pre.wavelength
    &&& post.default_sample_distance == pre.default_sample_distance
    &&& post.default_offset == pre.default_offset
    &&& post.default_lacunarity == pre.default_lacunarity
    &&& post.default_octaves == pre.default_octaves
}

/// The committed object a finished line gesture produces.
pub open spec fn committed_line(scene: Seq<RenderObject>, drawn: FractalLine) -> RenderObject {
    RenderObject {
        z: next_order_of(scene) as u32,
        transform: affine_identity(),
        selected: false,
        drawable: DrawableObj::FractalLine(drawn),
    }
}

/// How one input event steps the line tool: the scene changes only on a
/// release while drawing, which commits the preview on top of the scene.
/// The seed drawn at a press is left open — the tool is correct for every
/// seed.
pub open spec fn line_tool_step(
    pre: FractalLineTool,
    post: FractalLineTool,
    sc_pre: Seq<RenderObject>,
    sc_post: Seq<RenderObject>,
    ev: InputEvent,
    handled: bool,
) -> bool {
    match ev {
        InputEvent::MouseDown(e) => {
            &&& handled
            &&& sc_post == sc_pre
            &&& post.state == ToolState::Drawing
            &&& post.preview.start == e.pos
            &&& post.preview.end == e.pos
            &&& post.preview.width == pre.default_width
            &&& post.preview.wavelength == pre.wavelength
            &&& post.preview.sample_distance == pre.default_sample_distance
            &&& post.preview.offset == pre.default_offset
            &&& post.preview.noise.lacunarity == pre.default_lacunarity
            &&& post.preview.noise.octaves == pre.default_octaves
            &&& same_config(pre, post)
        },
        InputEvent::MouseMove(e) => if pre.state == ToolState::Drawing {
            &&& handled
            &&& sc_post == sc_pre
            &&& post == (FractalLineTool {
                preview: (FractalLine { end: e.pos, ..pre.preview }),
                ..pre
            })
        } else {
            !handled && post == pre && sc_post == sc_pre
        },
        InputEvent::MouseUp(e) => if pre.state == ToolState::Drawing {
            let drawn = FractalLine { end: e.pos, ..pre.preview };
            &&& !handled
            &&& post == (FractalLineTool {
                preview: drawn,
                state: ToolState::Standby,
                ..pre
            })
            &&& sc_post == sc_pre.push(committed_line(sc_pre, drawn))
        } else {
            !handled && post == pre && sc_post == sc_pre
        },
        _ => !handled && post == pre && sc_post == sc_pre,
    }
}

impl FractalLineTool {
    /// The configuration fields lie in the ranges the generator is defined
    /// over.
    pub open spec fn config_wf(self) -> bool {
        &&& 0 <= self.default_width.raw <= WIDTH_LIMIT
        &&& RES_MIN <= self.wavelength.raw <= RES_MAX
        &&& RES_MIN <= self.default_sample_distance.raw <= RES_MAX
        &&& -RES_MAX <= self.default_offset.raw <= RES_MAX
        &&& 0 <= self.default_lacunarity.raw < SCALE
        &&& 0 <= self.default_octaves <= 16
    }

    /// While drawing, the preview is a well-formed line.
    pub open spec fn wf(self) -> bool {
        &&& self.config_wf()
        &&& self.state == ToolState::Drawing ==> self.preview.wf()
    }

    /// A standby tool with the stock configuration: width 5, wavelength 5,
    /// sample distance 2, offset 5, lacunarity 0.35, three octaves. The
    /// placeholder preview is never shown or committed before a press
    /// overwrites it.
    pub fn new() -> (r: FractalLineTool)
        ensures
            r.state == ToolState::Standby,
            r.default_width.raw == 5 * SCALE,
            r.wavelength.raw == 5 * SCALE,
            r.default_sample_distance.raw == 2 * SCALE,
            r.default_offset.raw == 5 * SCALE,
            r.default_lacunarity.raw == DEFAULT_LACUNARITY,
            r.default_octaves == 3,
            r.preview.start == FxPoint::spec_zero(),
            r.preview.end == FxPoint::spec_zero(),
            r.wf(),
    {
        FractalLineTool {
            preview: FractalLine {
                start: FxPoint::zero(),
                end: FxPoint::zero(),
                noise: FractalNoise::new(random_seed(), Fx::zero(), 0),
                width: Fx::zero(),
                wavelength: Fx::zero(),
                sample_distance: Fx::zero(),
                offset: Fx::zero(),
            },
            state: ToolState::Standby,
            default_width: Fx::from_units(5),
            wavelength: Fx::from_units(5),
            default_sample_distance: Fx::from_units(2),
            default_offset: Fx::from_units(5),
            default_lacunarity: Fx::new(DEFAULT_LACUNARITY),
            default_octaves: 3,
        }
    }

    /// A press anchors a fresh preview at the cursor, with a newly drawn
    /// noise seed.
    fn on_mouse_down(&mut self, event: MouseEvent) -> (handled: bool)
        requires
            old(self).config_wf(),
            event.pos.in_range(),
        ensures
            handled,
            final(self).state == ToolState::Drawing,
            final(self).preview.start == event.pos,
            final(self).preview.end == event.pos,
            final(self).preview.width == old(self).default_width,
            final(self).preview.wavelength == old(self).wavelength,
            final(self).preview.sample_distance == old(self).default_sample_distance,
            final(self).preview.offset == old(self).default_offset,
            final(self).preview.noise.lacunarity == old(self).default_lacunarity,
            final(self).preview.noise.octaves == old(self).default_octaves,
            same_config(*old(self), *final(self)),
            final(self).wf(),
    {
        self.state = ToolState::Drawing;
        self.preview = FractalLine {
            start: event.pos,
            end: event.pos,
            noise: FractalNoise::new(
                random_seed(),
                self.default_lacunarity,
                self.default_octaves,
            ),
            width: self.default_width,
            wavelength: self.wavelength,
            sample_distance: self.default_sample_distance,
            offset: self.default_offset,
        };
        true
    }

    /// While drawing, a move drags the preview's free end.
    fn on_mouse_move(&mut self, event: MouseEvent) -> (handled: bool)
        requires
            old(self).wf(),
            event.pos.in_range(),
        ensures
            old(self).state == ToolState::Drawing ==> handled && *final(self) == (FractalLineTool {
                preview: (FractalLine { end: event.pos, ..old(self).preview }),
                ..*old(self)
            }),
            old(self).state == ToolState::Standby ==> !handled && *final(self) == *old(self),
            final(self).wf(),
    {
        match self.state {
            ToolState::Drawing => {
                self.preview.end = event.pos;
                true
            },
            ToolState::Standby => false,
        }
    }

    /// A release while drawing commits the finished line on top of the
    /// scene and returns the tool to standby.
    fn on_mouse_up(&mut self, event: MouseEvent, data: &mut SceneStore) -> (handled: bool)
        requires
            old(self).wf(),
            old(data).wf(),
            old(data).spec_next_order() <= u32::MAX,
            event.pos.in_range(),
        ensures
            line_tool_step(
                *old(self),
                *final(self),
                old(data).objects@,
                final(data).objects@,
                InputEvent::MouseUp(event),
                handled,
            ),
            final(self).wf(),
            final(data).wf(),
    {
        match self.state {
            ToolState::Drawing => {
                self.preview.end = event.pos;
                let obj = RenderObject::new(
                    u32::MAX,
                    DrawableObj::FractalLine(self.preview),
                );
                self.state = ToolState::Standby;
                data.insert(obj);
                false
            },
            ToolState::Standby => false,
        }
    }

    /// The object shown while a gesture is in progress.
    pub open spec fn spec_preview(self) -> Option<RenderObject> {
        match self.state {
            ToolState::Drawing => Some(
                RenderObject {
                    z: u32::MAX,
                    transform: affine_identity(),
                    selected: false,
                    drawable: DrawableObj::FractalLine(self.preview),
                },
            ),
            ToolState::Standby => None,
        }
    }

    /// The preview object, while drawing.
    pub fn get_preview(&self) -> (r: Option<RenderObject>)
        ensures
            r == self.spec_preview(),
    {
        match self.state {
            ToolState::Drawing => Some(
                RenderObject::new(u32::MAX, DrawableObj::FractalLine(self.preview)),
            ),
            ToolState::Standby => None,
        }
    }

    /// Becoming the active tool resets the gesture.
    pub fn enable(&mut self)
        ensures
            *final(self) == (FractalLineTool { state: ToolState::Standby, ..*old(self) }),
    {
        self.state = ToolState::Standby;
    }

    /// Being switched away from abandons any gesture in progress: the
    /// preview is discarded, never committed, and the scene is untouched.
    pub fn disable(&mut self)
        ensures
            *final(self) == (FractalLineTool { state: ToolState::Standby, ..*old(self) }),
            old(self).wf() ==> final(self).wf(),
    {
        self.state = ToolState::Standby;
    }

    /// Dispatch one input event.
    pub fn event(&mut self, event: &InputEvent, data: &mut SceneStore) -> (handled: bool)
        requires
            old(self).wf(),
            old(data).wf(),
            old(data).spec_next_order() <= u32::MAX,
            event.pos_ok(),
        ensures
            line_tool_step(
                *old(self),
                *final(self),
                old(data).objects@,
                final(data).objects@,
                *event,
                handled,
            ),
            final(self).wf(),
            final(data).wf(),
    {
        match event {
            InputEvent::MouseDown(e) => self.on_mouse_down(*e),
            InputEvent::MouseUp(e) => self.on_mouse_up(*e, data),
            InputEvent::MouseMove(e) => self.on_mouse_move(*e),
            _ => false,
        }
    }
}

impl Default for FractalLineTool {
    /// The stock configuration, as `new` builds it.
    fn default() -> (r: Self)
        ensures
            r.state == ToolState::Standby,
            r.wf(),
    {
        Self::new()
    }
}

/// How one input event steps the selection tool: a press anchors the drag
/// box, a move while selecting drags its far corner and re-runs the hit
/// test over the whole scene, a release ends the gesture. The tool never
/// handles an event exclusively.
pub open spec fn selection_tool_step(
    pre: SelectionTool,
    post: SelectionTool,
    sc_pre: Seq<RenderObject>,
    sc_post: Seq<RenderObject>,
    ev: InputEvent,
    handled: bool,
) -> bool {
    &&& !handled
    &&& match ev {
        InputEvent::MouseDown(e) => {
            &&& post == (SelectionTool {
                state: SelectionState::Selecting,
                start_coord: e.pos,
                end_coord: e.pos,
            })
            &&& sc_post == sc_pre
        },
        InputEvent::MouseUp(_) => {
            &&& post == (SelectionTool { state: SelectionState::Standby, ..pre })
            &&& sc_post == sc_pre
        },
        InputEvent::MouseMove(e) => if pre.state == SelectionState::Selecting {
            let query = pre.spec_query_with_end(e.pos);
            &&& post == (SelectionTool { end_coord: e.pos, ..pre })
            &&& sc_post.len() == sc_pre.len()
            &&& forall|i: int|
                0 <= i < sc_pre.len() ==> sc_post[i] == (RenderObject {
                    selected: hit_spec(query, sc_pre[i]),
                    ..sc_pre[i]
                })
        } else {
            post == pre && sc_post == sc_pre
        },
        _ => post == pre && sc_post == sc_pre,
    }
}

/// The drag-selection tool.
#[derive(Clone, Copy, Debug, PartialEq, Eq, Structural, Hash)]
pub struct SelectionTool {
    pub start_coord: FxPoint,
    pub end_coord: FxPoint,
    pub state: SelectionState,
}

impl SelectionTool {
    /// Both drag corners lie in the coordinate range.
    pub open spec fn wf(self) -> bool {
        self.start_coord.in_range() && self.end_coord.in_range()
    }

    /// The query rectangle a drag to `p` spans.
    pub open spec fn spec_query_with_end(self, p: FxPoint) -> FxRect {
        FxRect {
            x0: if self.start_coord.x.raw <= p.x.raw {
                self.start_coord.x
            } else {
                p.x
            },
            x1: if self.start_coord.x.raw <= p.x.raw {
                p.x
            } else {
                self.start_coord.x
            },
            y0: if self.start_coord.y.raw <= p.y.raw {
                self.start_coord.y
            } else {
                p.y
            },
            y1: if self.start_coord.y.raw <= p.y.raw {
                p.y
            } else {
                self.start_coord.y
            },
        }
    }

    /// A standby tool with the drag corners at the origin.
    pub fn new() -> (r: SelectionTool)
        ensures
            r.state == SelectionState::Standby,
            r.start_coord == FxPoint::spec_zero(),
            r.end_coord == FxPoint::spec_zero(),
            r.wf(),
    {
        SelectionTool {
            start_coord: FxPoint::zero(),
            end_coord: FxPoint::zero(),
            state: SelectionState::Standby,
        }
    }

    /// Re-run the hit test over the whole scene against the current drag
    /// box.
    fn update_selected_in(&self, data: &mut SceneStore)
        requires
            self.wf(),
            old(data).wf(),
        ensures
            final(data).wf(),
            final(data).objects@.len() == old(data).objects@.len(),
            forall|i: int|
                0 <= i < old(data).objects@.len() ==> final(data).objects@[i] == (RenderObject {
                    selected: hit_spec(
                        self.spec_query_with_end(self.end_coord),
                        old(data).objects@[i],
                    ),
                    ..old(data).objects@[i]
                }),
    {
        let query = FxRect::from_points(self.start_coord, self.end_coord);
        update_selected(data, &query);
    }

    /// The dashed box shown while a drag is in progress.
    pub open spec fn spec_preview(self) -> Option<RenderObject> {
        match self.state {
            SelectionState::Selecting => Some(
                RenderObject {
                    z: u32::MAX,
                    transform: affine_identity(),
                    selected: false,
                    drawable: DrawableObj::SelectionRect(
                        SelectionRect { rect: self.spec_query_with_end(self.end_coord) },
                    ),
                },
            ),
            SelectionState::Standby => None,
        }
    }

    /// The preview object, while selecting.
    pub fn get_preview(&self) -> (r: Option<RenderObject>)
        ensures
            r == self.spec_preview(),
    {
        match self.state {
            SelectionState::Selecting => {
                let rect = FxRect::from_points(self.start_coord, self.end_coord);
                Some(
                    RenderObject::new(
                        u32::MAX,
                        DrawableObj::SelectionRect(SelectionRect::new(rect)),
                    ),
                )
            },
            SelectionState::Standby => None,
        }
    }

    /// Becoming the active tool changes nothing.
    pub fn enable(&mut self)
        ensures
            *final(self) == *old(self),
    {
    }

    /// Being switched away changes nothing.
    pub fn disable(&mut self)
        ensures
            *final(self) == *old(self),
    {
    }

    /// Dispatch one input event.
    pub fn event(&mut self, event: &InputEvent, data: &mut SceneStore) -> (handled: bool)
        requires
            old(self).wf(),
            old(data).wf(),
            event.pos_ok(),
        ensures
            selection_tool_step(
                *old(self),
                *final(self),
                old(data).objects@,
                final(data).objects@,
                *event,
                handled,
            ),
            final(self).wf(),
            final(data).wf(),
    {
        match event {
            InputEvent::MouseDown(e) => {
                self.state = SelectionState::Selecting;
                self.start_coord = e.pos;
                self.end_coord = e.pos;
                false
            },
            InputEvent::MouseUp(_) => {
                self.state = SelectionState::Standby;
                false
            },
            InputEvent::MouseMove(e) => {
                match self.state {
                    SelectionState::Selecting => {
                        self.end_coord = e.pos;
                        self.update_selected_in(data);
                        false
                    },
                    SelectionState::Standby => false,
                }
            },
            _ => false,
        }
    }
}

impl Default for SelectionTool {
    /// A standby tool, as `new` builds it.
    fn default() -> (r: Self)
        ensures
            r.state == SelectionState::Standby,
            r.wf(),
    {
        Self::new()
    }
}

/// The closed union of tools; the session holds the active one.
#[derive(Clone, Copy, Debug, PartialEq, Eq, Structural, Hash)]
pub enum Tool {
    FractalLineTool(FractalLineTool),
    SelectionTool(SelectionTool),
}

impl Tool {
    /// The held tool is well formed.
    pub open spec fn wf(self) -> bool {
        match self {
            Tool::FractalLineTool(t) => t.wf(),
            Tool::SelectionTool(t) => t.wf(),
        }
    }

    /// The preview of the held tool.
    pub open spec fn spec_preview(self) -> Option<RenderObject> {
        match self {
            Tool::FractalLineTool(t) => t.spec_preview(),
            Tool::SelectionTool(t) => t.spec_preview(),
        }
    }

    /// How one input event steps whichever tool is held.
    pub open spec fn step(
        pre: Tool,
        post: Tool,
        sc_pre: Seq<RenderObject>,
        sc_post: Seq<RenderObject>,
        ev: InputEvent,
        handled: bool,
    ) -> bool {
        match pre {
            Tool::FractalLineTool(t) => post matches Tool::FractalLineTool(t2)
                && line_tool_step(t, t2, sc_pre, sc_post, ev, handled),
            Tool::SelectionTool(t) => post matches Tool::SelectionTool(t2)
                && selection_tool_step(t, t2, sc_pre, sc_post, ev, handled),
        }
    }

    /// Dispatch one input event to the held tool.
    pub fn event(&mut self, event: &InputEvent, data: &mut SceneStore) -> (handled: bool)
        requires
            old(self).wf(),
            old(data).wf(),
            old(data).spec_next_order() <= u32::MAX,
            event.pos_ok(),
        ensures
            Tool::step(
                *old(self),
                *final(self),
                old(data).objects@,
                final(data).objects@,
                *event,
                handled,
            ),
            final(self).wf(),
            final(data).wf(),
    {
        match self {
            Tool::FractalLineTool(t) => t.event(event, data),
            Tool::SelectionTool(t) => t.event(event, data),
        }
    }

    /// Make the held tool active.
    pub fn enable(&mut self)
        ensures
            match *old(self) {
                Tool::FractalLineTool(t) => *final(self) == Tool::FractalLineTool(
                    FractalLineTool { state: ToolState::Standby, ..t },
                ),
                Tool::SelectionTool(_) => *final(self) == *old(self),
            },
    {
        match self {
            Tool::FractalLineTool(t) => t.enable(),
            Tool::SelectionTool(t) => t.enable(),
        }
    }

    /// Switch away from the held tool. An incomplete gesture is never
    /// committed: a drawing in progress is discarded with the gesture
    /// state, and the scene is untouched.
    pub fn disable(&mut self)
        ensures
            match *old(self) {
                Tool::FractalLineTool(t) => *final(self) == Tool::FractalLineTool(
                    FractalLineTool { state: ToolState::Standby, ..t },
                ),
                Tool::SelectionTool(_) => *final(self) == *old(self),
            },
            old(self).wf() ==> final(self).wf(),
    {
        match self {
            Tool::FractalLineTool(t) => t.disable(),
            Tool::SelectionTool(t) => t.disable(),
        }
    }

    /// The preview of the held tool.
    pub fn get_preview(&self) -> (r: Option<RenderObject>)
        ensures
            r == self.spec_preview(),
    {
        match self {
            Tool::FractalLineTool(t) => t.get_preview(),
            Tool::SelectionTool(t) => t.get_preview(),
        }
    }
}

} // verus!
