use fj_math::Triangle;
use fornjot::boundary::CurveBoundary;
use fornjot::topology::{Cycle, HalfEdge, HalfEdgeGeom, Objects};
use fornjot::validate::{curve_mismatch_candidates, FaceValidationError, Winding};

type Path = ([f64; 2], [f64; 2]);

fn polygon(objects: &mut Objects<Path, f64>, points: &[[f64; 2]], first_vertex: u64) -> Cycle {
    let n = points.len();
    let mut half_edges = Vec::new();
    for i in 0..n {
        let a = points[i];
        let b = points[(i + 1) % n];
        let curve = objects.new_curve();
        let h = objects.insert_half_edge(
            HalfEdge { curve, start_vertex: first_vertex + i as u64 },
            HalfEdgeGeom { path: (a, [b[0] - a[0], b[1] - a[1]]), boundary: CurveBoundary::new(0., 1.) },
            None,
        );
        half_edges.push(h);
    }
    Cycle { half_edges }
}

/// The winding of a triangular cycle, from the positions of its start vertices
fn winding(objects: &Objects<Path, f64>, cycle: &Cycle, positions: &[[f64; 2]]) -> Option<Winding> {
    if cycle.half_edges.is_empty() {
        return None;
    }
    let points: Vec<[f64; 2]> = cycle
        .half_edges
        .iter()
        .map(|&h| positions[objects.half_edge(h).start_vertex as usize])
        .collect();
    let triangle = Triangle::<2>::from_points([points[0], points[1], points[2]]).unwrap();
    Some(match triangle.winding() {
        fj_math::Winding::Ccw => Winding::Ccw,
        fj_math::Winding::Cw => Winding::Cw,
    })
}

#[test]
fn face_invalid_interior_winding() {
    let positions = [[0., 0.], [3., 0.], [0., 3.], [1., 1.], [1., 2.], [2., 1.]];
    let mut objects = Objects::new();
    let exterior = polygon(&mut objects, &positions[0..3], 0);
    let interior = polygon(&mut objects, &positions[3..6], 3);

    let exterior_winding = winding(&objects, &exterior, &positions);
    let valid = vec![winding(&objects, &interior, &positions)];

    let reversed = interior.reverse(&mut objects);
    let invalid = vec![winding(&objects, &reversed, &positions)];

    let mut errors = Vec::new();
    FaceValidationError::check_interior_winding(exterior_winding, &valid, &mut errors);
    assert!(errors.is_empty());

    FaceValidationError::check_interior_winding(exterior_winding, &invalid, &mut errors);
    assert!(matches!(
        errors.as_slice(),
        [FaceValidationError::InvalidInteriorWinding { .. }]
    ));
}

#[test]
fn interior_winding_check_reports_each_offending_interior() {
    let mut errors = vec![];
    FaceValidationError::check_interior_winding(
        Some(Winding::Ccw),
        &vec![Some(Winding::Ccw), Some(Winding::Cw), None, Some(Winding::Ccw)],
        &mut errors,
    );
    assert_eq!(
        errors,
        vec![
            FaceValidationError::InvalidInteriorWinding {
                exterior_winding: Winding::Ccw,
                interior_winding: Winding::Ccw,
                interior: 0,
            },
            FaceValidationError::InvalidInteriorWinding {
                exterior_winding: Winding::Ccw,
                interior_winding: Winding::Ccw,
                interior: 3,
            },
        ]
    );
}

#[test]
fn interior_winding_check_skips_an_exterior_without_half_edges() {
    let mut errors = vec![];
    FaceValidationError::check_interior_winding(None, &vec![Some(Winding::Cw)], &mut errors);
    assert!(errors.is_empty());
    assert_eq!(Winding::Cw.reverse(), Winding::Ccw);
}

#[test]
fn curve_mismatch_pairs_share_a_curve_but_not_the_half_edge() {
    let mut objects: Objects<Path, f64> = Objects::new();
    let geometry = HalfEdgeGeom { path: ([0., 0.], [1., 0.]), boundary: CurveBoundary::new(0., 1.) };
    let h0 = objects.insert_half_edge(HalfEdge { curve: 0, start_vertex: 0 }, geometry, None);
    let h1 = objects.insert_half_edge(HalfEdge { curve: 0, start_vertex: 1 }, geometry, None);
    let h2 = objects.insert_half_edge(HalfEdge { curve: 1, start_vertex: 1 }, geometry, None);

    let edges = vec![(h0, 10), (h1, 11), (h2, 10), (h0, 12)];
    let pairs = curve_mismatch_candidates(&objects, &edges);
    assert_eq!(pairs, vec![(0, 1), (1, 0), (1, 3), (3, 1)]);

    let none = curve_mismatch_candidates(&objects, &vec![(h0, 10), (h2, 11)]);
    assert!(none.is_empty());
}

/// The position in 3D of a point on a half-edge: its line path evaluated at
/// `t`, on the xy-plane (surface 0) or on the xz-plane (surface 1)
fn global_position(path: Path, surface: u64, t: f64) -> [f64; 3] {
    let (o, d) = path;
    let (u, v) = (o[0] + d[0] * t, o[1] + d[1] * t);
    if surface == 0 {
        [u, v, 0.]
    } else {
        [u, 0., v]
    }
}

/// The pairs whose half-edges disagree on the position of their curve
fn mismatches(objects: &Objects<Path, f64>, edges: &Vec<(usize, u64)>) -> Vec<(usize, usize)> {
    let mut found = Vec::new();
    for (i, j) in curve_mismatch_candidates(objects, edges) {
        let (a, surface_a) = edges[i];
        let (b, surface_b) = edges[j];
        let [start, end] = objects.geometry(a).boundary.inner;
        for t in [start, start + (end - start) / 3., start + (end - start) * 2. / 3., end] {
            let pa = global_position(objects.geometry(a).path, surface_a, t);
            let pb = global_position(objects.geometry(b).path, surface_b, t);
            let distance = ((pa[0] - pb[0]).powi(2) + (pa[1] - pb[1]).powi(2) + (pa[2] - pb[2]).powi(2)).sqrt();
            if distance > 1e-12 {
                found.push((a, b));
            }
        }
    }
    found
}

#[test]
fn curve_geometry_mismatch_of_an_independently_reversed_half_edge() {
    // The x-axis, shared by a half-edge on the xy-plane and one on the
    // xz-plane.
    let mut objects: Objects<Path, f64> = Objects::new();
    let axis = HalfEdgeGeom { path: ([0., 0.], [1., 0.]), boundary: CurveBoundary::new(0., 1.) };
    let a = objects.insert_half_edge(HalfEdge { curve: 0, start_vertex: 0 }, axis, None);
    let b = objects.insert_half_edge(HalfEdge { curve: 0, start_vertex: 1 }, axis, None);
    let valid = vec![(a, 0), (b, 1)];
    assert!(mismatches(&objects, &valid).is_empty());

    // The second half-edge, with its path and boundary reversed on their own.
    let reversed = HalfEdgeGeom { path: ([1., 0.], [-1., 0.]), boundary: CurveBoundary::new(1., 0.) };
    let c = objects.insert_half_edge(HalfEdge { curve: 0, start_vertex: 1 }, reversed, None);
    let invalid = vec![(a, 0), (c, 1)];
    assert!(!mismatches(&objects, &invalid).is_empty());
}
