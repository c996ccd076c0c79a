use lipuma::fixed::{Fx, SCALE};
use lipuma::geometry::FxPoint;
use lipuma::noise::FractalNoise;
use lipuma::fractal_line::FractalLine;

fn fx(raw: i64) -> Fx {
    Fx::new(raw)
}

fn pt(x_units: i64, y_units: i64) -> FxPoint {
    FxPoint::new(Fx::from_units(x_units), Fx::from_units(y_units))
}

fn line(seed: u32, start: FxPoint, end: FxPoint) -> FractalLine {
    FractalLine {
        start,
        end,
        noise: FractalNoise::new(seed, fx(22937), 3),
        width: Fx::from_units(5),
        wavelength: Fx::from_units(5),
        sample_distance: Fx::from_units(2),
        offset: Fx::zero(),
    }
}

#[test]
fn last_vertex_is_exactly_end() {
    let l = line(1234, pt(0, 0), pt(100, 0));
    let pts = l.path_points();
    let last = pts[pts.len() - 1];
    assert_eq!(last.x.raw, 100 * SCALE);
    assert_eq!(last.y.raw, 0);
}

#[test]
fn last_vertex_is_exactly_end_diagonal() {
    let l = line(999, pt(-37, 12), pt(250, -80));
    let pts = l.path_points();
    let last = pts[pts.len() - 1];
    assert_eq!(last.x.raw, 250 * SCALE);
    assert_eq!(last.y.raw, -80 * SCALE);
}

#[test]
fn zero_length_line_is_a_single_point() {
    let l = line(5, pt(5, 5), pt(5, 5));
    let pts = l.path_points();
    assert_eq!(pts.len(), 1);
    assert_eq!(pts[0].x.raw, 5 * SCALE);
    assert_eq!(pts[0].y.raw, 5 * SCALE);
}

#[test]
fn concrete_scenario_sample_count_and_endpoints() {
    // seed 0, lacunarity 0.35, three octaves, (0,0) to (100,0), width 5,
    // wavelength 5, sample distance 2: floor((100 / 5) / 2) = 10 sample
    // steps plus the forced endpoint.
    let l = FractalLine {
        start: pt(0, 0),
        end: pt(100, 0),
        noise: FractalNoise::new(0, fx(22937), 3),
        width: Fx::from_units(5),
        wavelength: Fx::from_units(5),
        sample_distance: Fx::from_units(2),
        offset: Fx::zero(),
    };
    let pts = l.path_points();
    assert_eq!(pts.len(), 11);
    assert_eq!(pts[0].x.raw, 0);
    assert_eq!(pts[0].y.raw, 0);
    let last = pts[pts.len() - 1];
    assert_eq!(last.x.raw, 100 * SCALE);
    assert_eq!(last.y.raw, 0);
}

#[test]
fn first_vertex_is_anchored_at_start() {
    let l = line(31337, pt(7, -3), pt(207, 61));
    let pts = l.path_points();
    assert!(pts.len() > 1);
    assert_eq!(pts[0].x.raw, 7 * SCALE);
    assert_eq!(pts[0].y.raw, -3 * SCALE);
}

#[test]
fn middle_vertices_are_perturbed_for_a_noisy_seed() {
    // With seed 0 and lacunarity 1/2 the field is the constant -0.75, so
    // the middle of the path must leave the straight base line: the
    // envelope is positive away from the endpoints.
    let l = FractalLine {
        start: pt(0, 0),
        end: pt(100, 0),
        noise: FractalNoise::new(0, fx(SCALE / 2), 3),
        width: Fx::from_units(5),
        wavelength: Fx::from_units(5),
        sample_distance: Fx::from_units(2),
        offset: Fx::zero(),
    };
    let pts = l.path_points();
    // At step 5 of 10 the fraction is exactly one half: the envelope is
    // exactly 1, the base point is (50, 0), and the displacement is
    // width * 3 * (-0.75) = -11.25 units along the unit perpendicular.
    let mid = pts[5];
    assert_eq!(mid.x.raw, 50 * SCALE);
    assert_eq!(mid.y.raw, -737280);
}

#[test]
fn bounding_box_is_endpoint_rect_inflated_by_ten_and_a_half_widths() {
    let l = line(0, pt(0, 0), pt(100, 0));
    let bb = l.aabb();
    // width 5 -> inflation (5 * 21) / 2 = 52.5 units = 3440640 raw steps.
    assert_eq!(bb.x0.raw, -3440640);
    assert_eq!(bb.y0.raw, -3440640);
    assert_eq!(bb.x1.raw, 100 * SCALE + 3440640);
    assert_eq!(bb.y1.raw, 3440640);
}

#[test]
fn path_is_deterministic() {
    let l = line(2024, pt(0, 0), pt(64, 48));
    let a = l.path_points();
    let b = l.path_points();
    assert_eq!(a.len(), b.len());
    for i in 0..a.len() {
        assert_eq!(a[i].x.raw, b[i].x.raw);
        assert_eq!(a[i].y.raw, b[i].y.raw);
    }
}

#[test]
fn every_path_vertex_stays_inside_the_bounding_box() {
    let l = line(0xCAFE, pt(-30, 12), pt(170, -44));
    let bb = l.aabb();
    for p in &l.path_points() {
        assert!(bb.x0.raw <= p.x.raw && p.x.raw <= bb.x1.raw);
        assert!(bb.y0.raw <= p.y.raw && p.y.raw <= bb.y1.raw);
    }
}
