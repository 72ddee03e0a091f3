//! An arena of half-edges with their geometry, and the cycles and regions
//! built from them
//!
//! Every object is addressed by a handle. A half-edge handle is the index of
//! the half-edge in the arena; curves, vertices and surfaces are addressed by
//! `u64` handles that the caller allocates. Two handles are equal exactly where
//! they address the same object. Objects are never changed: operations that
//! update topology add new half-edges and return new cycles and regions.

use vstd::prelude::*;

use crate::boundary::CurveBoundary;

verus! {

/// A directed reference to a curve, from a start vertex
///
/// The end vertex of a half-edge is the start vertex of the next half-edge in
/// its cycle.
#[derive(Clone, Copy, Debug, PartialEq, Eq)]
pub struct HalfEdge {
    /// The handle of the curve
    pub curve: u64,
    /// The handle of the start vertex
    pub start_vertex: u64,
}

/// The geometry of a half-edge: its path in surface coordinates and the part
/// of the curve that it occupies
#[derive(Clone, Copy, Debug)]
pub struct HalfEdgeGeom<P, B> {
    /// The path of the half-edge, in the coordinates of its surface
    pub path: P,
    /// The boundary on the curve
    pub boundary: CurveBoundary<B>,
}

/// The definition of a curve in the coordinates of a surface
#[derive(Clone, Copy, Debug)]
pub struct LocalCurveGeom<P> {
    /// The handle of the curve
    pub curve: u64,
    /// The handle of the surface
    pub surface: u64,
    /// The path of the curve, in the coordinates of the surface
    pub path: P,
}

/// A half-edge in the arena, with its geometry and the half-edge it was derived
/// from, if any
#[derive(Clone, Copy, Debug)]
pub struct StoredHalfEdge<P, B> {
    /// The half-edge
    pub half_edge: HalfEdge,
    /// Its geometry
    pub geometry: HalfEdgeGeom<P, B>,
    /// The half-edge that this one was derived from
    pub derived_from: Option<usize>,
}

/// A closed sequence of half-edges, by handle
#[derive(Clone, Debug)]
pub struct Cycle {
    /// The handles of the half-edges, in order
    pub half_edges: Vec<usize>,
}

/// An exterior cycle and the interior cycles (holes) of a face
#[derive(Clone, Debug)]
pub struct Region {
    /// The exterior cycle
    pub exterior: Cycle,
    /// The interior cycles
    pub interiors: Vec<Cycle>,
}

/// The arena of half-edges, and the local definitions of curves
pub struct Objects<P, B> {
    half_edges: Vec<StoredHalfEdge<P, B>>,
    curve_geometry: Vec<LocalCurveGeom<P>>,
    next_curve: u64,
}

/// A cycle whose every handle addresses a half-edge of an arena of `n`
pub open spec fn cycle_in(c: Cycle, n: nat) -> bool {
    forall|i: int| 0 <= i < c.half_edges@.len() ==> #[trigger] c.half_edges@[i] < n
}

/// A region whose every cycle is in an arena of `n`
pub open spec fn region_in(r: Region, n: nat) -> bool {
    &&& cycle_in(r.exterior, n)
    &&& forall|i: int| 0 <= i < r.interiors@.len() ==> cycle_in(#[trigger] r.interiors@[i], n)
}

/// The index of the half-edge that follows position `i` in a cycle of `n`
pub open spec fn next_index(i: int, n: int) -> int {
    if i + 1 < n {
        i + 1
    } else {
        0
    }
}

/// The path of the latest definition of `curve` on `surface` among `defs`
pub open spec fn local_path<P>(defs: Seq<LocalCurveGeom<P>>, curve: u64, surface: u64) -> Option<P>
    decreases defs.len(),
{
    if defs.len() == 0 {
        None
    } else if defs.last().curve == curve && defs.last().surface == surface {
        Some(defs.last().path)
    } else {
        local_path(defs.drop_last(), curve, surface)
    }
}

impl<P: Copy, B: Copy> Objects<P, B> {
    /// The half-edges of the arena, indexed by handle
    pub closed spec fn stored(&self) -> Seq<StoredHalfEdge<P, B>> {
        self.half_edges@
    }

    /// The local curve definitions, in the order they were made
    pub closed spec fn curve_definitions(&self) -> Seq<LocalCurveGeom<P>> {
        self.curve_geometry@
    }

    /// The handles of curves allocated so far are those below this one
    pub closed spec fn curve_bound(&self) -> u64 {
        self.next_curve
    }

    /// The half-edge behind handle `h`
    pub open spec fn half_edge_of(&self, h: usize) -> HalfEdge {
        self.stored()[h as int].half_edge
    }

    /// The geometry of the half-edge behind handle `h`
    pub open spec fn geometry_of(&self, h: usize) -> HalfEdgeGeom<P, B> {
        self.stored()[h as int].geometry
    }

    /// `self` holds what `old` held, and perhaps more half-edges and
    /// definitions after it
    pub open spec fn extends(&self, old: &Self) -> bool {
        &&& old.stored().len() <= self.stored().len()
        &&& forall|i: int| 0 <= i < old.stored().len() ==> #[trigger] self.stored()[i] == old.stored()[i]
        &&& old.curve_definitions().is_prefix_of(self.curve_definitions())
        &&& old.curve_bound() <= self.curve_bound()
    }

    /// An empty arena
    pub fn new() -> (r: Self)
        ensures
            r.stored().len() == 0,
            r.curve_definitions().len() == 0,
            r.curve_bound() == 0,
    {
        Objects { half_edges: Vec::new(), curve_geometry: Vec::new(), next_curve: 0 }
    }

    /// Allocate the handle of a new curve
    pub fn new_curve(&mut self) -> (r: u64)
        requires
            old(self).curve_bound() < u64::MAX,
        ensures
            r == old(self).curve_bound(),
            final(self).curve_bound() == old(self).curve_bound() + 1,
            final(self).stored() == old(self).stored(),
            final(self).curve_definitions() == old(self).curve_definitions(),
    {
        let r = self.next_curve;
        self.next_curve = self.next_curve + 1;
        r
    }

    /// The number of half-edges in the arena
    pub fn len(&self) -> (r: usize)
        ensures
            r == self.stored().len(),
    {
        self.half_edges.len()
    }

    /// The half-edge behind a handle
    pub fn half_edge(&self, h: usize) -> (r: HalfEdge)
        requires
            h < self.stored().len(),
        ensures
            r == self.half_edge_of(h),
    {
        self.half_edges[h].half_edge
    }

    /// The geometry of the half-edge behind a handle
    pub fn geometry(&self, h: usize) -> (r: HalfEdgeGeom<P, B>)
        requires
            h < self.stored().len(),
        ensures
            r == self.geometry_of(h),
    {
        self.half_edges[h].geometry
    }

    /// The half-edge that the one behind a handle was derived from
    pub fn derived_from(&self, h: usize) -> (r: Option<usize>)
        requires
            h < self.stored().len(),
        ensures
            r == self.stored()[h as int].derived_from,
    {
        self.half_edges[h].derived_from
    }

    /// Add a half-edge with its geometry, and return its handle
    pub fn insert_half_edge(
        &mut self,
        half_edge: HalfEdge,
        geometry: HalfEdgeGeom<P, B>,
        derived_from: Option<usize>,
    ) -> (r: usize)
        requires
            old(self).stored().len() < usize::MAX,
        ensures
            r == old(self).stored().len(),
            final(self).stored() == old(self).stored().push(
                StoredHalfEdge { half_edge, geometry, derived_from },
            ),
            final(self).curve_definitions() == old(self).curve_definitions(),
            final(self).curve_bound() == old(self).curve_bound(),
    {
        let r = self.half_edges.len();
        self.half_edges.push(StoredHalfEdge { half_edge, geometry, derived_from });
        r
    }

    /// Define the path of a curve in the coordinates of a surface
    pub fn define_curve(&mut self, curve: u64, surface: u64, path: P)
        ensures
            final(self).curve_definitions() == old(self).curve_definitions().push(
                LocalCurveGeom { curve, surface, path },
            ),
            final(self).stored() == old(self).stored(),
            final(self).curve_bound() == old(self).curve_bound(),
    {
        self.curve_geometry.push(LocalCurveGeom { curve, surface, path });
    }

    /// The path of a curve in the coordinates of a surface, as defined last
    pub fn local_path(&self, curve: u64, surface: u64) -> (r: Option<P>)
        ensures
            r == local_path(self.curve_definitions(), curve, surface),
    {
        let mut i: usize = self.curve_geometry.len();
        proof {
            assert(self.curve_geometry@.subrange(0, i as int) =~= self.curve_geometry@);
        }
        while i > 0
            invariant
                i <= self.curve_geometry@.len(),
                local_path(self.curve_geometry@, curve, surface) == local_path(
                    self.curve_geometry@.subrange(0, i as int),
                    curve,
                    surface,
                ),
            decreases i,
        {
            let def = self.curve_geometry[i - 1];
            proof {
                let s = self.curve_geometry@.subrange(0, i as int);
                assert(s.drop_last() =~= self.curve_geometry@.subrange(0, i - 1));
            }
            if def.curve == curve && def.surface == surface {
                return Some(def.path);
            }
            i = i - 1;
        }
        proof {
            assert(self.curve_geometry@.subrange(0, 0).len() == 0);
        }
        None
    }
}

} // verus!
