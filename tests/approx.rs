use std::cell::Cell;

use fj_math::Point;
use fornjot::approx::{
    approx_half_edge, curve_approx_method, ApproxPoint, CircleOnCurvedSurface, CurveApproxMethod,
    PathKind,
};
use fornjot::boundary::CurveBoundary;
use fornjot::cache::EdgeApproxCache;

#[test]
fn approx_edge() {
    let a = Point::from([1., 2., 3.]);
    let b = Point::from([2., 3., 5.]);
    let c = Point::from([3., 5., 8.]);
    let d = Point::from([5., 8., 13.]);

    let a = (Point::from([0.0]), a);
    let b = (Point::from([0.25]), b);
    let c = (Point::from([0.75]), c);
    let d = (Point::from([1.0]), d);

    // Regular edge
    let mut points = vec![b, c];
    fornjot::approx::approx_edge(Some([a, d]), &mut points);
    assert_eq!(points, vec![a, b, c, d]);

    // Continuous edge
    let mut points = vec![b, c];
    fornjot::approx::approx_edge(None, &mut points);
    assert_eq!(points, vec![b, c, b]);
}

#[test]
fn approx_edge_of_an_empty_continuous_edge_stays_empty() {
    let mut points: Vec<u8> = Vec::new();
    fornjot::approx::approx_edge(None, &mut points);
    assert!(points.is_empty());

    fornjot::approx::approx_edge(Some([1, 2]), &mut points);
    assert_eq!(points, vec![1, 2]);
}

fn key(t: f64) -> u64 {
    t.to_bits()
}

/// Points of a unit circle in the xy-plane, sampled at the given parameters
fn circle_points(ts: &[f64]) -> Vec<ApproxPoint<f64, [f64; 3]>> {
    ts.iter()
        .map(|&t| ApproxPoint::new(t, [t.cos(), t.sin(), 0.]))
        .collect()
}

#[test]
fn half_edge_approx_starts_with_the_exact_vertex() {
    let mut cache = EdgeApproxCache::new();
    let boundary = CurveBoundary::new(key(0.), key(1.));

    let approx = approx_half_edge(
        3,
        [0., 1.],
        7,
        boundary,
        &mut cache,
        |p: [f64; 2]| [p[0], p[1], 0.],
        || circle_points(&[0.25, 0.5, 0.75]),
        |t: f64| [t, 1.],
    );

    assert_eq!(approx.points.len(), 4);
    assert_eq!(approx.points[0], ApproxPoint::new([0., 1.], [0., 1., 0.]));
    assert_eq!(approx.points[1].local_form, [0.25, 1.]);
    assert_eq!(approx.points[1].global_form, [0.25f64.cos(), 0.25f64.sin(), 0.]);
    assert_eq!(approx.points[3].local_form, [0.75, 1.]);
}

#[test]
fn half_edge_approx_of_a_straight_path_is_its_start_vertex() {
    let mut cache = EdgeApproxCache::<f64, [f64; 3]>::new();
    let boundary = CurveBoundary::new(key(0.), key(1.));

    let approx = approx_half_edge(
        1,
        [1., 1.],
        2,
        boundary,
        &mut cache,
        |p: [f64; 2]| [p[0], 0., p[1]],
        Vec::new,
        |t: f64| [1. + t, 1.],
    );

    assert_eq!(approx.points, vec![ApproxPoint::new([1., 1.], [1., 0., 1.])]);
}

#[test]
fn cache_reuses_reversed_curve_approximation() {
    let mut cache = EdgeApproxCache::new();
    let calls = Cell::new(0);
    let forward = CurveBoundary::new(key(0.), key(1.));

    let first = approx_half_edge(
        1,
        [0., 0.],
        5,
        forward,
        &mut cache,
        |p: [f64; 2]| [p[0], p[1], 0.],
        || {
            calls.set(calls.get() + 1);
            circle_points(&[0.2, 0.4, 0.6])
        },
        |t: f64| [t, 0.],
    );
    assert_eq!(calls.get(), 1);

    let second = approx_half_edge(
        2,
        [1., 0.],
        5,
        forward.reverse(),
        &mut cache,
        |p: [f64; 2]| [p[0], p[1], 0.],
        || {
            calls.set(calls.get() + 1);
            Vec::new()
        },
        |t: f64| [t, 0.],
    );
    assert_eq!(calls.get(), 1);

    let mut reversed: Vec<_> = first.points[1..].to_vec();
    reversed.reverse();
    assert_eq!(second.points[1..].to_vec(), reversed);
    assert_eq!(second.points[0], ApproxPoint::new([1., 0.], [1., 0., 0.]));

    let cached = cache.get_curve_approx(5, forward.reverse()).unwrap();
    assert_eq!(cached, {
        let mut points = circle_points(&[0.2, 0.4, 0.6]);
        points.reverse();
        points
    });
}

#[test]
fn cache_prefers_the_exact_boundary() {
    let mut cache = EdgeApproxCache::new();
    let forward = CurveBoundary::new(key(0.), key(1.));

    cache.insert_curve_approx(9, forward, circle_points(&[0.5]));
    cache.insert_curve_approx(9, forward.reverse(), circle_points(&[0.3, 0.7]));

    assert_eq!(cache.get_curve_approx(9, forward), Some(circle_points(&[0.5])));
    assert_eq!(
        cache.get_curve_approx(9, forward.reverse()),
        Some(circle_points(&[0.3, 0.7]))
    );
    assert_eq!(cache.get_curve_approx(8, forward), None);

    cache.insert_curve_approx(9, forward, circle_points(&[0.1]));
    assert_eq!(cache.get_curve_approx(9, forward), Some(circle_points(&[0.1])));
}

#[test]
fn cache_keeps_vertex_positions() {
    let mut cache = EdgeApproxCache::<f64, [f64; 3]>::new();
    assert_eq!(cache.start_position(4), None);
    assert_eq!(cache.insert_start_position_approx(4, [1., 2., 3.]), [1., 2., 3.]);
    assert_eq!(cache.start_position(4), Some([1., 2., 3.]));
    assert_eq!(cache.start_position(5), None);

    let calls = Cell::new(0);
    let approx = approx_half_edge(
        4,
        [9., 9.],
        1,
        CurveBoundary::new(key(0.), key(1.)),
        &mut cache,
        |_: [f64; 2]| {
            calls.set(calls.get() + 1);
            [0., 0., 0.]
        },
        Vec::new,
        |t: f64| [t, 0.],
    );
    assert_eq!(calls.get(), 0);
    assert_eq!(approx.points[0].global_form, [1., 2., 3.]);
}

#[test]
fn boundary_reverse_swaps_and_is_its_own_inverse() {
    let boundary = CurveBoundary::new(1u64, 2u64);
    assert_eq!(boundary.reverse().inner, [2, 1]);
    assert_eq!(boundary.reverse().reverse(), boundary);
}

#[test]
fn curve_approx_method_by_path_kinds() {
    assert_eq!(
        curve_approx_method(PathKind::Circle, PathKind::Circle),
        Err(CircleOnCurvedSurface)
    );
    assert_eq!(
        curve_approx_method(PathKind::Circle, PathKind::Line),
        Ok(CurveApproxMethod::CircleOnPlane)
    );
    assert_eq!(
        curve_approx_method(PathKind::Line, PathKind::Line),
        Ok(CurveApproxMethod::LineAlongSurfaceU)
    );
    assert_eq!(
        curve_approx_method(PathKind::Line, PathKind::Circle),
        Ok(CurveApproxMethod::LineAlongSurfaceU)
    );
}
