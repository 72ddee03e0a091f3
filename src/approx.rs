//! Points of approximations, and the approximation of edges

use vstd::prelude::*;

use crate::boundary::CurveBoundary;
use crate::cache::EdgeApproxCache;

verus! {

/// A point of an approximation, in local and in global form
///
/// The local form is the point's coordinates in the space of the object that is
/// approximated (on a curve, on a surface), the global form its position in 3D.
#[derive(Clone, Copy, Debug, PartialEq)]
pub struct ApproxPoint<L, G> {
    /// The point in local coordinates
    pub local_form: L,
    /// The point in global coordinates
    pub global_form: G,
}

impl<L, G> ApproxPoint<L, G> {
    /// Construct an approximation point from its two forms
    pub fn new(local_form: L, global_form: G) -> (r: Self)
        ensures
            r.local_form == local_form,
            r.global_form == global_form,
    {
        ApproxPoint { local_form, global_form }
    }
}

/// The points of `s` in reverse order
pub open spec fn reversed<T>(s: Seq<T>) -> Seq<T> {
    Seq::new(s.len(), |i: int| s[s.len() - 1 - i])
}

/// A copy of `v` with its elements in reverse order
pub fn reversed_copy<T: Copy>(v: &Vec<T>) -> (r: Vec<T>)
    ensures
        r@ == reversed(v@),
{
    let mut r: Vec<T> = Vec::new();
    let mut i: usize = v.len();
    while i > 0
        invariant
            i <= v.len(),
            r@.len() == v.len() - i,
            forall|j: int| 0 <= j < r@.len() ==> r@[j] == v@[v.len() - 1 - j],
        decreases i,
    {
        i = i - 1;
        r.push(v[i]);
    }
    assert(r@ =~= reversed(v@));
    r
}

/// A copy of `v`
pub fn copied<T: Copy>(v: &Vec<T>) -> (r: Vec<T>)
    ensures
        r@ == v@,
{
    let mut r: Vec<T> = Vec::new();
    let mut i: usize = 0;
    while i < v.len()
        invariant
            i <= v.len(),
            r@ == v@.subrange(0, i as int),
        decreases v.len() - i,
    {
        r.push(v[i]);
        i = i + 1;
        assert(r@ =~= v@.subrange(0, i as int));
    }
    assert(r@ =~= v@);
    r
}

/// Insert the exact vertices of an edge into the approximation of its curve
///
/// The points of the curve are taken as they are, and the edge's two vertices
/// are put before and after them: the approximation does not rely on the curve
/// to represent the vertices exactly. An edge without vertices connects to
/// itself: its first point is repeated at the end.
pub fn approx_edge<T: Copy>(vertices: Option<[T; 2]>, points: &mut Vec<T>)
    ensures
        match vertices {
            Some(v) => final(points)@ == seq![v[0]] + old(points)@ + seq![v[1]],
            None => final(points)@ == if old(points)@.len() > 0 {
                old(points)@.push(old(points)@[0])
            } else {
                old(points)@
            },
        },
{
    match vertices {
        Some(v) => {
            points.insert(0, v[0]);
            points.push(v[1]);
            assert(points@ =~= seq![v[0]] + old(points)@ + seq![v[1]]);
        },
        None => {
            if points.len() > 0 {
                let first = points[0];
                points.push(first);
            }
        },
    }
}

/// An approximation of a half-edge
///
/// The approximation of a half-edge is its start vertex, followed by the
/// approximation of its curve. The end vertex is left out: approximations of
/// half-edges are joined into approximations of cycles, where the end vertex of
/// one half-edge is the start vertex of the next.
pub struct HalfEdgeApprox<S, G> {
    /// The points that approximate the half-edge
    pub points: Vec<ApproxPoint<S, G>>,
}

/// `points` is a point for the start vertex, followed by the points of the
/// curve approximation `rest`, each mapped from curve to surface coordinates
/// by `surface_of`
pub open spec fn follows_curve<S, C, G, FS: Fn(C) -> S>(
    points: Seq<ApproxPoint<S, G>>,
    rest: Seq<ApproxPoint<C, G>>,
    surface_of: FS,
) -> bool {
    &&& points.len() == rest.len() + 1
    &&& forall|i: int|
        0 <= i < rest.len() ==> {
            &&& #[trigger] points[i + 1].global_form == rest[i].global_form
            &&& surface_of.ensures((rest[i].local_form,), points[i + 1].local_form)
        }
}

/// Approximate a half-edge
///
/// The start vertex is not sampled: its position in surface coordinates is
/// given, and its global position comes from the cache or, on the first visit of
/// the vertex, from `global_of`. The curve approximation over the boundary comes
/// from the cache (under the boundary itself, or reversed under the reversed
/// boundary) or, where the cache has neither, from `approx_curve`, and is then
/// stored under the boundary. Each point of the curve approximation is mapped to
/// surface coordinates by `surface_of`; its global form is kept.
pub fn approx_half_edge<S: Copy, C: Copy, G: Copy, FG, FC, FS>(
    start_vertex: u64,
    start_position_surface: S,
    curve: u64,
    boundary: CurveBoundary<u64>,
    cache: &mut EdgeApproxCache<C, G>,
    global_of: FG,
    approx_curve: FC,
    surface_of: FS,
) -> (r: HalfEdgeApprox<S, G>) where
    FG: FnOnce(S) -> G,
    FC: FnOnce() -> Vec<ApproxPoint<C, G>>,
    FS: Fn(C) -> S,

    requires
        old(cache).wf(),
        global_of.requires((start_position_surface,)),
        approx_curve.requires(()),
        forall|c: C| #[trigger] surface_of.requires((c,)),
    ensures
        final(cache).wf(),
        r.points@.len() >= 1,
        r.points@[0].local_form == start_position_surface,
        old(cache).start_positions().contains_key(start_vertex) ==> {
            &&& r.points@[0].global_form == old(cache).start_positions()[start_vertex]
            &&& final(cache).start_positions() == old(cache).start_positions()
        },
        !old(cache).start_positions().contains_key(start_vertex) ==> {
            &&& global_of.ensures((start_position_surface,), r.points@[0].global_form)
            &&& final(cache).start_positions() == old(cache).start_positions().insert(
                start_vertex,
                r.points@[0].global_form,
            )
        },
        match old(cache).lookup(curve, boundary) {
            Some(rest) => {
                &&& follows_curve(r.points@, rest, surface_of)
                &&& final(cache).curves() == old(cache).curves()
            },
            None => exists|v: Vec<ApproxPoint<C, G>>|
                {
                    &&& #[trigger] approx_curve.ensures((), v)
                    &&& follows_curve(r.points@, v@, surface_of)
                    &&& final(cache).curves() == old(cache).curves().insert((curve, boundary), v@)
                },
        },
{
    let start_position = match cache.start_position(start_vertex) {
        Some(position) => position,
        None => {
            let position_global = global_of(start_position_surface);
            cache.insert_start_position_approx(start_vertex, position_global)
        },
    };
    let first = ApproxPoint::new(start_position_surface, start_position);

    let rest = match cache.get_curve_approx(curve, boundary) {
        Some(approx) => approx,
        None => {
            let approx = approx_curve();
            let stored = copied(&approx);
            cache.insert_curve_approx(curve, boundary, stored);
            approx
        },
    };

    let mut points: Vec<ApproxPoint<S, G>> = Vec::new();
    points.push(first);
    let mut i: usize = 0;
    while i < rest.len()
        invariant
            forall|c: C| #[trigger] surface_of.requires((c,)),
            i <= rest@.len(),
            points@.len() == i + 1,
            points@[0] == first,
            forall|j: int|
                0 <= j < i ==> {
                    &&& #[trigger] points@[j + 1].global_form == rest@[j].global_form
                    &&& surface_of.ensures((rest@[j].local_form,), points@[j + 1].local_form)
                },
        decreases rest@.len() - i,
    {
        let point = rest[i];
        let point_surface = surface_of(point.local_form);
        points.push(ApproxPoint::new(point_surface, point.global_form));
        i = i + 1;
    }
    HalfEdgeApprox { points }
}

/// The kind of a path: a straight line or a circle
#[derive(Clone, Copy, Debug, PartialEq, Eq, Structural)]
pub enum PathKind {
    /// A straight line
    Line,
    /// A circle
    Circle,
}

/// How the approximation of a curve over a boundary is computed
#[derive(Clone, Copy, Debug, PartialEq, Eq, Structural)]
pub enum CurveApproxMethod {
    /// A circle on a flat surface: the circle is sampled over the boundary, so
    /// that no chord deviates from the arc by more than the tolerance
    CircleOnPlane,
    /// A line: the `u` path of the surface is sampled over the range of `u`
    /// that the boundary covers, and each sample is mapped back onto the line.
    /// No point is added where the `u` path is straight.
    LineAlongSurfaceU,
}

/// The approximation of a circle on a curved surface is not supported
#[derive(Clone, Copy, Debug, PartialEq, Eq, Structural)]
pub struct CircleOnCurvedSurface;

/// The method for each pair of the kind of a curve's local path and the kind
/// of the surface's `u` path
pub open spec fn curve_approx_method_spec(local: PathKind, surface_u: PathKind) -> Result<
    CurveApproxMethod,
    CircleOnCurvedSurface,
> {
    match (local, surface_u) {
        (PathKind::Circle, PathKind::Circle) => Err(CircleOnCurvedSurface),
        (PathKind::Circle, PathKind::Line) => Ok(CurveApproxMethod::CircleOnPlane),
        (PathKind::Line, _) => Ok(CurveApproxMethod::LineAlongSurfaceU),
    }
}

/// Choose how to approximate a curve, by the kind of its local path and the
/// kind of the surface's `u` path
///
/// A circle on a curved surface is refused: its mapping to 3D has not been
/// worked out, and no approximation is better than a wrong one.
pub fn curve_approx_method(local: PathKind, surface_u: PathKind) -> (r: Result<
    CurveApproxMethod,
    CircleOnCurvedSurface,
>)
    ensures
        r == curve_approx_method_spec(local, surface_u),
{
    match (local, surface_u) {
        (PathKind::Circle, PathKind::Circle) => Err(CircleOnCurvedSurface),
        (PathKind::Circle, PathKind::Line) => Ok(CurveApproxMethod::CircleOnPlane),
        (PathKind::Line, _) => Ok(CurveApproxMethod::LineAlongSurfaceU),
    }
}

} // verus!
