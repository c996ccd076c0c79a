use lipuma::fixed::Fx;
use lipuma::geometry::{FxPoint, FxRect};
use lipuma::noise::FractalNoise;
use lipuma::fractal_line::FractalLine;
use lipuma::render_object::{RenderObject, DrawableObj};
use lipuma::scene::SceneStore;
use lipuma::hit_test::{hit, update_selected};
use lipuma::tools::{SelectionTool, Tool, InputEvent, MouseEvent, MouseButton, SelectionState};

fn pt(x_units: i64, y_units: i64) -> FxPoint {
    FxPoint::new(Fx::from_units(x_units), Fx::from_units(y_units))
}

fn test_line() -> FractalLine {
    FractalLine {
        start: pt(10, 10),
        end: pt(60, 40),
        noise: FractalNoise::new(77, Fx::new(22937), 3),
        width: Fx::from_units(2),
        wavelength: Fx::from_units(5),
        sample_distance: Fx::from_units(2),
        offset: Fx::zero(),
    }
}

#[test]
fn enclosing_query_selects_a_line() {
    let obj = RenderObject::new(0, DrawableObj::FractalLine(test_line()));
    let bb = obj.aabb();
    let query = FxRect::from_points(
        FxPoint::new(Fx::new(bb.x0.raw - 1000), Fx::new(bb.y0.raw - 1000)),
        FxPoint::new(Fx::new(bb.x1.raw + 1000), Fx::new(bb.y1.raw + 1000)),
    );
    assert!(hit(&query, &obj));
}

#[test]
fn disjoint_query_never_selects() {
    let obj = RenderObject::new(0, DrawableObj::FractalLine(test_line()));
    let query = FxRect::from_points(pt(5000, 5000), pt(6000, 6000));
    assert!(!hit(&query, &obj));
}

#[test]
fn update_selected_sets_and_clears_flags() {
    let mut scene = SceneStore::new();
    scene.insert(RenderObject::new(u32::MAX, DrawableObj::FractalLine(test_line())));
    let far = FractalLine { start: pt(4000, 4000), end: pt(4050, 4000), ..test_line() };
    scene.insert(RenderObject::new(u32::MAX, DrawableObj::FractalLine(far)));

    // A box around the first line selects it and leaves the far one alone.
    let query = FxRect::from_points(pt(-200, -200), pt(300, 300));
    update_selected(&mut scene, &query);
    assert!(scene.get(0).is_selected());
    assert!(!scene.get(1).is_selected());

    // A drag elsewhere deselects it again.
    let elsewhere = FxRect::from_points(pt(1000, 1000), pt(1100, 1100));
    update_selected(&mut scene, &elsewhere);
    assert!(!scene.get(0).is_selected());
    assert!(!scene.get(1).is_selected());
}

#[test]
fn selection_tool_drag_updates_flags_and_preview() {
    let mut scene = SceneStore::new();
    scene.insert(RenderObject::new(u32::MAX, DrawableObj::FractalLine(test_line())));

    let mut tool = SelectionTool::new();
    assert_eq!(tool.state, SelectionState::Standby);
    assert!(tool.get_preview().is_none());

    let down = InputEvent::MouseDown(MouseEvent { pos: pt(-200, -200), button: MouseButton::Left });
    assert!(!tool.event(&down, &mut scene));
    assert_eq!(tool.state, SelectionState::Selecting);

    let mv = InputEvent::MouseMove(MouseEvent { pos: pt(300, 300), button: MouseButton::Left });
    tool.event(&mv, &mut scene);
    assert!(scene.get(0).is_selected());

    let preview = tool.get_preview().expect("a drag shows a selection box");
    assert_eq!(preview.z, u32::MAX);
    match preview.get_drawable() {
        DrawableObj::SelectionRect(r) => {
            assert_eq!(r.rect.x0.raw, -200 * 65536);
            assert_eq!(r.rect.y1.raw, 300 * 65536);
        },
        DrawableObj::FractalLine(_) => panic!("selection preview must be a box"),
    }

    let up = InputEvent::MouseUp(MouseEvent { pos: pt(300, 300), button: MouseButton::Left });
    tool.event(&up, &mut scene);
    assert_eq!(tool.state, SelectionState::Standby);
    assert!(tool.get_preview().is_none());
    // Releasing keeps the selection.
    assert!(scene.get(0).is_selected());
}

#[test]
fn tool_union_dispatches_to_selection_tool() {
    let mut scene = SceneStore::new();
    scene.insert(RenderObject::new(u32::MAX, DrawableObj::FractalLine(test_line())));
    let mut tool = Tool::SelectionTool(SelectionTool::new());
    let down = InputEvent::MouseDown(MouseEvent { pos: pt(-100, -100), button: MouseButton::Left });
    let mv = InputEvent::MouseMove(MouseEvent { pos: pt(200, 200), button: MouseButton::Left });
    tool.event(&down, &mut scene);
    tool.event(&mv, &mut scene);
    assert!(scene.get(0).is_selected());
}

#[test]
fn narrow_box_between_vertices_still_selects() {
    // With lacunarity 0 the field is zero and the path is the straight
    // segment y = 0 with vertices roughly 10 units apart in x. A narrow
    // box over x in [14, 16] contains no vertex, but the segment between
    // the vertices crosses it, so the fine phase must select.
    let straight = FractalLine {
        start: pt(0, 0),
        end: pt(100, 0),
        noise: FractalNoise::new(0, Fx::new(0), 3),
        width: Fx::from_units(5),
        wavelength: Fx::from_units(5),
        sample_distance: Fx::from_units(2),
        offset: Fx::zero(),
    };
    let pts = straight.path_points();
    for p in &pts {
        assert_eq!(p.y.raw, 0);
        // No vertex falls inside the box's x interval.
        assert!(p.x.raw < 14 * 65536 || p.x.raw > 16 * 65536);
    }
    let obj = RenderObject::new(0, DrawableObj::FractalLine(straight));
    let narrow = FxRect::from_points(pt(14, -5), pt(16, 5));
    assert!(hit(&narrow, &obj));
}

#[test]
fn box_beside_the_carrier_line_does_not_select() {
    // The same straight line, but a box above it that overlaps the broad
    // bounding rectangle without touching any vertex or segment.
    let straight = FractalLine {
        start: pt(0, 0),
        end: pt(100, 0),
        noise: FractalNoise::new(0, Fx::new(0), 3),
        width: Fx::from_units(5),
        wavelength: Fx::from_units(5),
        sample_distance: Fx::from_units(2),
        offset: Fx::zero(),
    };
    let obj = RenderObject::new(0, DrawableObj::FractalLine(straight));
    let above = FxRect::from_points(pt(14, 10), pt(16, 20));
    assert!(!hit(&above, &obj));
}
