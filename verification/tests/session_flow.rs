use lipuma::fixed::{Fx, SCALE};
use lipuma::geometry::{Affine, FxPoint, FxRect};
use lipuma::scene::SceneStore;
use lipuma::session::{
    GraphicsData,
    GraphicsWidget,
    GraphicsEngineState,
    visible_objects,
    ZOOM_IN_FACTOR,
};
use lipuma::tools::{
    Tool,
    FractalLineTool,
    ToolState,
    InputEvent,
    MouseEvent,
    MouseButton,
    WheelEvent,
    Key,
};

fn pt(x_units: i64, y_units: i64) -> FxPoint {
    FxPoint::new(Fx::from_units(x_units), Fx::from_units(y_units))
}

fn left(pos: FxPoint) -> MouseEvent {
    MouseEvent { pos, button: MouseButton::Left }
}

fn middle(pos: FxPoint) -> MouseEvent {
    MouseEvent { pos, button: MouseButton::Middle }
}

#[test]
fn drawing_a_line_commits_on_release() {
    let mut widget = GraphicsWidget::new();
    let mut data = GraphicsData::new();

    widget.event(&mut data, &InputEvent::MouseDown(left(pt(0, 0))));
    assert_eq!(widget.engine_state, GraphicsEngineState::Drawing);
    assert!(data.preview.is_some());

    widget.event(&mut data, &InputEvent::MouseMove(left(pt(50, 20))));
    widget.event(&mut data, &InputEvent::MouseUp(left(pt(100, 0))));

    assert_eq!(widget.engine_state, GraphicsEngineState::Default);
    assert!(data.preview.is_none());
    assert_eq!(data.objects.len(), 1);
    let committed = data.objects.get(0);
    assert_eq!(committed.z, 0);
    assert!(!committed.is_selected());
    match committed.get_drawable() {
        lipuma::render_object::DrawableObj::FractalLine(l) => {
            assert_eq!(l.start.x.raw, 0);
            assert_eq!(l.end.x.raw, 100 * SCALE);
            assert_eq!(l.end.y.raw, 0);
        },
        lipuma::render_object::DrawableObj::SelectionRect(_) => {
            panic!("the committed object must be the drawn line")
        },
    }
    match &data.tool {
        Tool::FractalLineTool(t) => assert_eq!(t.state, ToolState::Standby),
        Tool::SelectionTool(_) => panic!("the line tool must stay active"),
    }
}

#[test]
fn backspace_deletes_the_selection() {
    let mut widget = GraphicsWidget::new();
    let mut data = GraphicsData::new();

    widget.event(&mut data, &InputEvent::MouseDown(left(pt(0, 0))));
    widget.event(&mut data, &InputEvent::MouseUp(left(pt(100, 0))));
    widget.event(&mut data, &InputEvent::MouseDown(left(pt(0, 200))));
    widget.event(&mut data, &InputEvent::MouseUp(left(pt(100, 200))));
    assert_eq!(data.objects.len(), 2);

    // Switch to the selection tool and drag a box around the first line.
    data.tool.disable();
    data.tool = Tool::SelectionTool(lipuma::tools::SelectionTool::new());
    data.tool.enable();
    widget.event(&mut data, &InputEvent::MouseDown(left(pt(-60, -60))));
    widget.event(&mut data, &InputEvent::MouseMove(left(pt(160, 60))));
    widget.event(&mut data, &InputEvent::MouseUp(left(pt(160, 60))));
    assert!(data.objects.get(0).is_selected());
    assert!(!data.objects.get(1).is_selected());

    widget.event(&mut data, &InputEvent::KeyDown(Key::Backspace));
    assert_eq!(data.objects.len(), 1);
    assert_eq!(data.objects.get(0).z, 1);
}

#[test]
fn middle_drag_pans_the_canvas() {
    let mut widget = GraphicsWidget::new();
    let mut data = GraphicsData::new();

    let out = widget.event(&mut data, &InputEvent::MouseDown(middle(pt(0, 0))));
    assert!(out.rotate.is_none());
    widget.event(&mut data, &InputEvent::MouseMove(middle(pt(30, -10))));
    widget.event(&mut data, &InputEvent::MouseUp(middle(pt(30, -10))));

    // The identity rotation block leaves the delta as the translation.
    assert_eq!(data.transform.e.raw, 30 * SCALE);
    assert_eq!(data.transform.f.raw, -10 * SCALE);
    // Panning does not add objects.
    assert_eq!(data.objects.len(), 0);
}

#[test]
fn shift_middle_drag_raises_a_rotate_request() {
    let mut widget = GraphicsWidget::new();
    let mut data = GraphicsData::new();

    widget.event(&mut data, &InputEvent::KeyDown(Key::Shift));
    widget.event(&mut data, &InputEvent::MouseDown(middle(pt(10, 10))));
    let out = widget.event(&mut data, &InputEvent::MouseMove(middle(pt(20, 10))));
    let req = out.rotate.expect("a rotating drag must ask the host for the angle");
    assert_eq!(req.from.x.raw, 10 * SCALE);
    assert_eq!(req.to.x.raw, 20 * SCALE);
    // The canvas transform itself is untouched until the host answers.
    assert_eq!(data.transform.e.raw, 0);

    // The host answers with cosine and sine; a quarter turn about the
    // origin maps (1, 0) to (0, 1).
    let applied = data.rotate_around_point(req.center_scene, Fx::new(0), Fx::new(SCALE));
    assert!(applied);
    let img = data.transform.apply(&pt(1, 0));
    assert_eq!(img.x.raw, 0);
    assert_eq!(img.y.raw, SCALE);
}

#[test]
fn wheel_zooms_about_the_cursor() {
    let mut widget = GraphicsWidget::new();
    let mut data = GraphicsData::new();
    let wheel = InputEvent::Wheel(WheelEvent { pos: pt(0, 0), delta_y: Fx::new(-SCALE) });
    widget.event(&mut data, &wheel);
    assert_eq!(data.transform.a.raw, ZOOM_IN_FACTOR);
    assert_eq!(data.transform.d.raw, ZOOM_IN_FACTOR);
    assert_eq!(data.transform.e.raw, 0);
}

#[test]
fn window_events_ask_the_host_for_focus_and_paint() {
    let mut widget = GraphicsWidget::new();
    let mut data = GraphicsData::new();
    let out = widget.event(&mut data, &InputEvent::WindowConnected);
    assert!(out.request_focus);
    assert!(!out.request_paint);
    let out2 = widget.event(&mut data, &InputEvent::WindowSize);
    assert!(out2.request_paint);
}

#[test]
fn cancelled_gesture_never_commits() {
    let mut widget = GraphicsWidget::new();
    let mut data = GraphicsData::new();
    widget.event(&mut data, &InputEvent::MouseDown(left(pt(0, 0))));
    widget.event(&mut data, &InputEvent::MouseMove(left(pt(40, 40))));
    // No release: the scene must still be empty, only the preview lives.
    assert_eq!(data.objects.len(), 0);
    assert!(data.preview.is_some());
}

#[test]
fn paint_visits_only_objects_reaching_the_viewport() {
    let mut widget = GraphicsWidget::new();
    let mut data = GraphicsData::new();
    widget.event(&mut data, &InputEvent::MouseDown(left(pt(0, 0))));
    widget.event(&mut data, &InputEvent::MouseUp(left(pt(100, 0))));
    widget.event(&mut data, &InputEvent::MouseDown(left(pt(5000, 5000))));
    widget.event(&mut data, &InputEvent::MouseUp(left(pt(5100, 5000))));

    let viewport = FxRect::from_points(pt(-500, -500), pt(500, 500));
    let visible = visible_objects(&data, &viewport);
    assert_eq!(visible.len(), 1);
    assert_eq!(visible[0].z, 0);

    let everything = FxRect::from_points(pt(-10000, -10000), pt(10000, 10000));
    let all = visible_objects(&data, &everything);
    assert_eq!(all.len(), 2);
}

#[test]
fn tool_switch_discards_a_drawing_in_progress() {
    let mut scene = SceneStore::new();
    let mut tool = Tool::FractalLineTool(FractalLineTool::new());
    tool.event(
        &InputEvent::MouseDown(left(pt(0, 0))),
        &mut scene,
    );
    tool.event(
        &InputEvent::MouseMove(left(pt(30, 30))),
        &mut scene,
    );
    assert_eq!(scene.len(), 0);
    assert!(tool.get_preview().is_some());
    // Switching away is an incomplete gesture: nothing is committed and
    // the preview is gone.
    tool.disable();
    assert_eq!(scene.len(), 0);
    assert!(tool.get_preview().is_none());
}

#[test]
fn offset_to_center_is_half_the_viewport() {
    let mut widget = GraphicsWidget::new();
    widget.layout(FxRect::from_points(pt(0, 0), pt(800, 600)));
    let m = widget.get_offset_to_center_as_affine();
    assert_eq!(m.e.raw, 400 * SCALE);
    assert_eq!(m.f.raw, 300 * SCALE);
}

#[test]
fn translation_and_rot_scale_split_the_transform() {
    let mut widget = GraphicsWidget::new();
    let mut data = GraphicsData::new();
    widget.event(&mut data, &InputEvent::MouseDown(middle(pt(0, 0))));
    widget.event(&mut data, &InputEvent::MouseMove(middle(pt(7, 9))));
    let tr = data.get_translation();
    assert_eq!(tr.e.raw, 7 * SCALE);
    assert_eq!(tr.f.raw, 9 * SCALE);
    // The matrix block of the translation part is the identity.
    assert_eq!(tr.a.raw, SCALE);
    assert_eq!(tr.b.raw, 0);
    assert_eq!(tr.c.raw, 0);
    assert_eq!(tr.d.raw, SCALE);
    let rs = data.get_rot_scale();
    assert_eq!(rs.e.raw, 0);
    assert_eq!(rs.f.raw, 0);
    assert_eq!(rs.a.raw, SCALE);
}

#[test]
fn event_adjustment_drops_positions_out_of_range() {
    // A large translation pushes every cursor position out of range.
    let big = Affine::translate(pt(16000, 16000));
    let shifted = big
        .try_compose(&Affine::translate(pt(16000, 16000)))
        .expect("two translations stay in range");
    let ev = InputEvent::MouseDown(left(pt(100, 100)));
    assert!(GraphicsWidget::adjust_event_by_transform(&ev, &shifted).is_none());
    // A harmless transform keeps the event, with the position moved.
    let small = Affine::translate(pt(1, 0));
    match GraphicsWidget::adjust_event_by_transform(&ev, &small) {
        Some(InputEvent::MouseDown(e)) => assert_eq!(e.pos.x.raw, 101 * SCALE),
        _ => panic!("a small translation must keep the event"),
    }
}
