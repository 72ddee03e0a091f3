use fornjot::boundary::CurveBoundary;
use fornjot::reverse_coordinates::reverse_curve_coordinate_systems;
use fornjot::topology::{Cycle, HalfEdge, HalfEdgeGeom, Objects, Region};

/// A path in surface coordinates: a line by origin and direction
type Path = ([f64; 2], [f64; 2]);

fn reverse_path(path: Path) -> Path {
    let (o, d) = path;
    ([o[0] + d[0], o[1] + d[1]], [-d[0], -d[1]])
}

/// A polygon on `surface`, with vertex handles `first_vertex..` and one new
/// curve per edge
fn polygon(
    objects: &mut Objects<Path, f64>,
    points: &[[f64; 2]],
    first_vertex: u64,
    surface: u64,
) -> Cycle {
    let n = points.len();
    let mut half_edges = Vec::new();
    for i in 0..n {
        let a = points[i];
        let b = points[(i + 1) % n];
        let path = (a, [b[0] - a[0], b[1] - a[1]]);
        let curve = objects.new_curve();
        objects.define_curve(curve, surface, path);
        let h = objects.insert_half_edge(
            HalfEdge { curve, start_vertex: first_vertex + i as u64 },
            HalfEdgeGeom { path, boundary: CurveBoundary::new(0., 1.) },
            None,
        );
        half_edges.push(h);
    }
    Cycle { half_edges }
}

fn start_vertices(objects: &Objects<Path, f64>, cycle: &Cycle) -> Vec<u64> {
    cycle.half_edges.iter().map(|&h| objects.half_edge(h).start_vertex).collect()
}

fn curves(objects: &Objects<Path, f64>, cycle: &Cycle) -> Vec<u64> {
    cycle.half_edges.iter().map(|&h| objects.half_edge(h).curve).collect()
}

#[test]
fn cycle_reverse_traces_the_polygon_backwards() {
    let mut objects = Objects::new();
    let cycle = polygon(&mut objects, &[[0., 0.], [3., 0.], [0., 3.]], 10, 0);

    let reversed = cycle.reverse(&mut objects);

    assert_eq!(objects.len(), 6);
    assert_eq!(reversed.half_edges, vec![5, 4, 3]);
    assert_eq!(start_vertices(&objects, &cycle), vec![10, 11, 12]);
    assert_eq!(start_vertices(&objects, &reversed), vec![10, 12, 11]);
    assert_eq!(curves(&objects, &reversed), vec![2, 1, 0]);
    for (k, &h) in reversed.half_edges.iter().enumerate() {
        let reversed_from = cycle.half_edges[2 - k];
        assert_eq!(objects.geometry(h).boundary.inner, [1., 0.]);
        assert_eq!(objects.geometry(h).path, objects.geometry(reversed_from).path);
        assert_eq!(objects.derived_from(h), Some(reversed_from));
    }
}

#[test]
fn cycle_reversed_twice_has_the_same_half_edges() {
    let mut objects = Objects::new();
    let cycle = polygon(&mut objects, &[[0., 0.], [1., 0.], [1., 1.], [0., 1.]], 0, 0);

    let twice = cycle.reverse(&mut objects).reverse(&mut objects);

    assert_eq!(start_vertices(&objects, &twice), start_vertices(&objects, &cycle));
    assert_eq!(curves(&objects, &twice), curves(&objects, &cycle));
    for (a, b) in cycle.half_edges.iter().zip(&twice.half_edges) {
        assert_ne!(a, b);
        assert_eq!(objects.geometry(*a).boundary, objects.geometry(*b).boundary);
    }
}

#[test]
fn region_reverse_reverses_every_cycle() {
    let mut objects = Objects::new();
    let exterior = polygon(&mut objects, &[[0., 0.], [3., 0.], [0., 3.]], 0, 0);
    let interior = polygon(&mut objects, &[[1., 1.], [1., 2.], [2., 1.]], 3, 0);
    let region = Region { exterior, interiors: vec![interior] };

    let reversed = region.reverse(&mut objects);

    assert_eq!(objects.len(), 12);
    assert_eq!(start_vertices(&objects, &reversed.exterior), vec![0, 2, 1]);
    assert_eq!(reversed.interiors.len(), 1);
    assert_eq!(start_vertices(&objects, &reversed.interiors[0]), vec![3, 5, 4]);
}

#[test]
fn reverse_curve_coordinate_systems_of_a_half_edge() {
    let mut objects = Objects::new();
    let cycle = polygon(&mut objects, &[[0., 0.], [2., 0.], [0., 2.]], 0, 4);
    let h = cycle.half_edges[0];

    let r = reverse_curve_coordinate_systems(h, 4, &mut objects, &reverse_path);

    let edge = objects.half_edge(r);
    assert_eq!(edge.start_vertex, 0);
    assert_eq!(edge.curve, 3);
    assert_eq!(objects.geometry(r).path, ([2., 0.], [-2., -0.]));
    assert_eq!(objects.geometry(r).boundary.inner, [1., 0.]);
    assert_eq!(objects.local_path(3, 4), Some(([2., 0.], [-2., -0.])));
    assert_eq!(objects.local_path(0, 4), Some(([0., 0.], [2., 0.])));
    assert_eq!(objects.local_path(3, 5), None);
}

#[test]
fn cycle_reverse_curve_coordinate_systems_keeps_order() {
    let mut objects = Objects::new();
    let cycle = polygon(&mut objects, &[[0., 0.], [2., 0.], [0., 2.]], 0, 4);

    let r = cycle.reverse_curve_coordinate_systems(4, &mut objects, &reverse_path);

    assert_eq!(r.half_edges, vec![3, 4, 5]);
    assert_eq!(start_vertices(&objects, &r), vec![0, 1, 2]);
    assert_eq!(curves(&objects, &r), vec![3, 4, 5]);
    assert_eq!(objects.local_path(4, 4), Some(([0., 2.], [2., -2.])));
}

#[test]
fn add_joined_edges_runs_along_the_given_half_edges() {
    let mut objects = Objects::new();
    let other = polygon(&mut objects, &[[0., 0.], [1., 0.], [1., 1.]], 0, 0);
    let edges: Vec<(usize, HalfEdgeGeom<Path, f64>)> = other
        .half_edges
        .iter()
        .map(|&h| {
            let g = objects.geometry(h);
            (h, HalfEdgeGeom { path: reverse_path(g.path), boundary: g.boundary.reverse() })
        })
        .collect();

    let start = Cycle { half_edges: Vec::new() };
    let joined = start.add_joined_edges(&edges, 1, &mut objects);

    assert_eq!(joined.half_edges, vec![3, 4, 5]);
    assert_eq!(curves(&objects, &joined), vec![1, 2, 0]);
    assert_eq!(start_vertices(&objects, &joined), vec![0, 1, 2]);
    assert_eq!(objects.geometry(3).path, edges[1].1.path);
    assert_eq!(objects.local_path(1, 1), Some(edges[1].1.path));
}

#[test]
fn join_to_takes_curve_and_vertices_of_the_other_cycle() {
    let mut objects = Objects::new();
    let a = polygon(&mut objects, &[[0., 0.], [1., 0.], [1., 1.]], 0, 0);
    let b = polygon(&mut objects, &[[1., 0.], [0., 0.], [0., -1.]], 10, 1);

    let joined = a.join_to(&b, 0..=0, 0..=0, &mut objects);

    assert_eq!(joined.half_edges, vec![6, 7, a.half_edges[2]]);
    // The first half-edge runs on the curve of the other's first half-edge,
    // from where that one ends.
    assert_eq!(objects.half_edge(6), HalfEdge { curve: 3, start_vertex: 11 });
    // The next half-edge starts where the other's first half-edge starts.
    assert_eq!(objects.half_edge(7), HalfEdge { curve: 1, start_vertex: 10 });
    assert_eq!(objects.geometry(6).path, objects.geometry(a.half_edges[0]).path);
    assert_eq!(objects.derived_from(7), Some(a.half_edges[1]));
}

#[test]
fn join_to_wraps_around_the_seam() {
    let mut objects = Objects::new();
    let a = polygon(&mut objects, &[[0., 0.], [1., 0.], [1., 1.]], 0, 0);
    let b = polygon(&mut objects, &[[1., 0.], [0., 0.], [0., -1.]], 10, 1);

    let joined = a.join_to(&b, 2..=2, 5..=5, &mut objects);

    assert_eq!(joined.half_edges, vec![7, a.half_edges[1], 6]);
    assert_eq!(objects.half_edge(6), HalfEdge { curve: 5, start_vertex: 10 });
    assert_eq!(objects.half_edge(7), HalfEdge { curve: 0, start_vertex: 12 });
}

#[test]
fn region_reverse_curve_coordinate_systems_reverses_every_cycle() {
    let mut objects = Objects::new();
    let exterior = polygon(&mut objects, &[[0., 0.], [3., 0.], [0., 3.]], 0, 2);
    let interior = polygon(&mut objects, &[[1., 1.], [1., 2.], [2., 1.]], 3, 2);
    let region = Region { exterior, interiors: vec![interior] };

    let r = region.reverse_curve_coordinate_systems(2, &mut objects, &reverse_path);

    assert_eq!(r.exterior.half_edges, vec![6, 7, 8]);
    assert_eq!(r.interiors[0].half_edges, vec![9, 10, 11]);
    assert_eq!(start_vertices(&objects, &r.interiors[0]), vec![3, 4, 5]);
    assert_eq!(curves(&objects, &r.interiors[0]), vec![9, 10, 11]);
    assert_eq!(objects.local_path(9, 2), Some(([1., 2.], [0., -1.])));
    assert_eq!(objects.geometry(9).boundary.inner, [1., 0.]);
}
