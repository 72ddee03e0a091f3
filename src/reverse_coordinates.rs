//! Reversal of curve coordinate systems
//!
//! Reversing the coordinate system of a half-edge's curve keeps the points the
//! half-edge traces and the direction it traces them in, but flips the
//! parametrization: the curve is replaced by a new one whose path on the
//! surface runs the other way, and the half-edge's boundary is swapped to
//! match. This is needed before joining regions across a shared curve, whose
//! local coordinate systems must match.

use vstd::prelude::*;

use crate::reverse::{lemma_cycles_size_monotone, lemma_cycles_size_take, cycles_size, region_size};
use crate::topology::{
    cycle_in, local_path, region_in, Cycle, HalfEdge, LocalCurveGeom, Objects, Region,
    StoredHalfEdge,
};

verus! {

/// `stored` and `definition` are what reversing the curve coordinate system of
/// half-edge `h` of `before` on `surface` makes: a new curve `curve`, defined on
/// the surface by the reversed path of the old curve there, and a new half-edge
/// on it, from the same start vertex, with its own path reversed and its
/// boundary swapped
pub open spec fn is_coordinate_reversal<P: Copy, B: Copy, F: Fn(P) -> P>(
    before: Objects<P, B>,
    h: usize,
    surface: u64,
    reverse_path: F,
    stored: StoredHalfEdge<P, B>,
    definition: LocalCurveGeom<P>,
    curve: u64,
) -> bool {
    let old = before.stored()[h as int];
    &&& definition.curve == curve
    &&& definition.surface == surface
    &&& reverse_path.ensures(
        (local_path(before.curve_definitions(), old.half_edge.curve, surface)->Some_0,),
        definition.path,
    )
    &&& stored.half_edge == HalfEdge { curve, start_vertex: old.half_edge.start_vertex }
    &&& reverse_path.ensures((old.geometry.path,), stored.geometry.path)
    &&& stored.geometry.boundary == old.geometry.boundary.reversed()
    &&& stored.derived_from == Some(h)
}

proof fn lemma_local_path_push<P>(defs: Seq<LocalCurveGeom<P>>, d: LocalCurveGeom<P>, curve: u64, surface: u64)
    requires
        d.curve != curve,
    ensures
        local_path(defs.push(d), curve, surface) == local_path(defs, curve, surface),
{
    assert(defs.push(d).drop_last() =~= defs);
}

/// Reverse the curve coordinate system of a half-edge on a surface
///
/// A new curve is made and defined on the surface by the reversed path of the
/// half-edge's curve there; a new half-edge on the new curve, from the same
/// start vertex, gets the half-edge's path reversed and its boundary swapped.
/// It traces the same points in the same direction, in reversed coordinates.
/// `reverse_path` reverses the parametrization of a path.
pub fn reverse_curve_coordinate_systems<P: Copy, B: Copy, F: Fn(P) -> P>(
    h: usize,
    surface: u64,
    objects: &mut Objects<P, B>,
    reverse_path: &F,
) -> (r: usize)
    requires
        h < old(objects).stored().len(),
        local_path(old(objects).curve_definitions(), old(objects).half_edge_of(h).curve, surface) is Some,
        old(objects).stored().len() < usize::MAX,
        old(objects).curve_bound() < u64::MAX,
        forall|p: P| #[trigger] reverse_path.requires((p,)),
    ensures
        r == old(objects).stored().len(),
        final(objects).stored().len() == old(objects).stored().len() + 1,
        final(objects).curve_definitions().len() == old(objects).curve_definitions().len() + 1,
        final(objects).curve_bound() == old(objects).curve_bound() + 1,
        final(objects).stored().drop_last() == old(objects).stored(),
        final(objects).curve_definitions().drop_last() == old(objects).curve_definitions(),
        is_coordinate_reversal(
            *old(objects),
            h,
            surface,
            *reverse_path,
            final(objects).stored().last(),
            final(objects).curve_definitions().last(),
            old(objects).curve_bound(),
        ),
{
    let half_edge = objects.half_edge(h);
    let mut geometry = objects.geometry(h);
    geometry.path = reverse_path(geometry.path);
    geometry.boundary = geometry.boundary.reverse();

    let local = match objects.local_path(half_edge.curve, surface) {
        Some(path) => path,
        None => vstd::pervasive::unreached(),
    };
    let curve = objects.new_curve();
    objects.define_curve(curve, surface, reverse_path(local));

    let r = objects.insert_half_edge(
        HalfEdge { curve, start_vertex: half_edge.start_vertex },
        geometry,
        Some(h),
    );
    proof {
        assert(objects.stored().drop_last() =~= old(objects).stored());
        assert(objects.curve_definitions().drop_last() =~= old(objects).curve_definitions());
    }
    r
}

impl Cycle {
    /// Reverse the curve coordinate systems of all half-edges of the cycle on a
    /// surface; the new half-edges make up the new cycle, in the same order
    pub fn reverse_curve_coordinate_systems<P: Copy, B: Copy, F: Fn(P) -> P>(
        &self,
        surface: u64,
        objects: &mut Objects<P, B>,
        reverse_path: &F,
    ) -> (r: Cycle)
        requires
            cycle_in(*self, old(objects).stored().len()),
            forall|i: int|
                0 <= i < self.half_edges@.len() ==> {
                    let c = old(objects).half_edge_of(#[trigger] self.half_edges@[i]).curve;
                    &&& c < old(objects).curve_bound()
                    &&& local_path(old(objects).curve_definitions(), c, surface) is Some
                },
            old(objects).stored().len() + self.half_edges@.len() <= usize::MAX,
            old(objects).curve_bound() + self.half_edges@.len() <= u64::MAX,
            forall|p: P| #[trigger] reverse_path.requires((p,)),
        ensures
            final(objects).extends(old(objects)),
            final(objects).stored().len() == old(objects).stored().len() + self.half_edges@.len(),
            final(objects).curve_definitions().len() == old(objects).curve_definitions().len()
                + self.half_edges@.len(),
            final(objects).curve_bound() == old(objects).curve_bound() + self.half_edges@.len(),
            r.half_edges@.len() == self.half_edges@.len(),
            forall|i: int|
                0 <= i < self.half_edges@.len() ==> {
                    &&& #[trigger] r.half_edges@[i] == old(objects).stored().len() + i
                    &&& is_coordinate_reversal(
                        *old(objects),
                        self.half_edges@[i],
                        surface,
                        *reverse_path,
                        final(objects).stored()[old(objects).stored().len() + i],
                        final(objects).curve_definitions()[old(objects).curve_definitions().len()
                            + i],
                        (old(objects).curve_bound() + i) as u64,
                    )
                },
    {
        let ghost before = *objects;
        let n = self.half_edges.len();
        let mut edges: Vec<usize> = Vec::new();
        let mut i: usize = 0;
        while i < n
            invariant
                n == self.half_edges@.len(),
                cycle_in(*self, before.stored().len()),
                forall|k: int|
                    0 <= k < n ==> {
                        let c = before.half_edge_of(#[trigger] self.half_edges@[k]).curve;
                        &&& c < before.curve_bound()
                        &&& local_path(before.curve_definitions(), c, surface) is Some
                    },
                before.stored().len() + n <= usize::MAX,
                before.curve_bound() + n <= u64::MAX,
                forall|p: P| #[trigger] reverse_path.requires((p,)),
                i <= n,
                objects.extends(&before),
                objects.stored().len() == before.stored().len() + i,
                objects.curve_definitions().len() == before.curve_definitions().len() + i,
                objects.curve_bound() == before.curve_bound() + i,
                forall|c: u64|
                    c < before.curve_bound() ==> #[trigger] local_path(
                        objects.curve_definitions(),
                        c,
                        surface,
                    ) == local_path(before.curve_definitions(), c, surface),
                edges@.len() == i,
                forall|k: int| 0 <= k < i ==> #[trigger] edges@[k] == before.stored().len() + k,
                forall|k: int|
                    0 <= k < i ==> #[trigger] is_coordinate_reversal(
                        before,
                        self.half_edges@[k],
                        surface,
                        *reverse_path,
                        objects.stored()[before.stored().len() + k],
                        objects.curve_definitions()[before.curve_definitions().len() + k],
                        (before.curve_bound() + k) as u64,
                    ),
            decreases n - i,
        {
            let h = self.half_edges[i];
            let ghost mid = *objects;
            proof {
                assert(h < before.stored().len());
                assert(mid.stored()[h as int] == before.stored()[h as int]);
            }
            let e = reverse_curve_coordinate_systems(h, surface, objects, reverse_path);
            edges.push(e);
            proof {
                let d = objects.curve_definitions().last();
                assert forall|c: u64| c < before.curve_bound() implies #[trigger] local_path(
                    objects.curve_definitions(),
                    c,
                    surface,
                ) == local_path(before.curve_definitions(), c, surface) by {
                    assert(objects.curve_definitions() =~= mid.curve_definitions().push(d));
                    lemma_local_path_push(mid.curve_definitions(), d, c, surface);
                }
                assert(objects.stored() =~= mid.stored().push(objects.stored().last()));
                assert(objects.curve_definitions() =~= mid.curve_definitions().push(d));
                assert forall|k: int| 0 <= k < i implies #[trigger] is_coordinate_reversal(
                    before,
                    self.half_edges@[k],
                    surface,
                    *reverse_path,
                    objects.stored()[before.stored().len() + k],
                    objects.curve_definitions()[before.curve_definitions().len() + k],
                    (before.curve_bound() + k) as u64,
                ) by {
                    assert(objects.stored()[before.stored().len() + k] == mid.stored()[before.stored().len() + k]);
                    assert(objects.curve_definitions()[before.curve_definitions().len() + k]
                        == mid.curve_definitions()[before.curve_definitions().len() + k]);
                }
                assert(is_coordinate_reversal(
                    before,
                    self.half_edges@[i as int],
                    surface,
                    *reverse_path,
                    objects.stored()[before.stored().len() + i],
                    objects.curve_definitions()[before.curve_definitions().len() + i],
                    (before.curve_bound() + i) as u64,
                ));
                assert forall|k: int| 0 <= k < i + 1 implies #[trigger] edges@[k]
                    == before.stored().len() + k by {}
                assert(mid.curve_definitions().is_prefix_of(objects.curve_definitions()));
            }
            i = i + 1;
        }
        Cycle { half_edges: edges }
    }
}

proof fn lemma_local_path_suffix<P>(
    defs: Seq<LocalCurveGeom<P>>,
    suffix: Seq<LocalCurveGeom<P>>,
    curve: u64,
    surface: u64,
)
    requires
        forall|j: int| 0 <= j < suffix.len() ==> #[trigger] suffix[j].curve != curve,
    ensures
        local_path(defs + suffix, curve, surface) == local_path(defs, curve, surface),
    decreases suffix.len(),
{
    if suffix.len() == 0 {
        assert(defs + suffix =~= defs);
    } else {
        let shorter = suffix.drop_last();
        assert((defs + suffix).drop_last() =~= defs + shorter);
        assert((defs + suffix).last() == suffix.last());
        lemma_local_path_suffix(defs, shorter, curve, surface);
    }
}

proof fn lemma_local_path_found<P>(defs: Seq<LocalCurveGeom<P>>, j: int, curve: u64, surface: u64)
    requires
        0 <= j < defs.len(),
        defs[j].curve == curve,
        defs[j].surface == surface,
        forall|k: int| j < k < defs.len() ==> #[trigger] defs[k].curve != curve,
    ensures
        local_path(defs, curve, surface) == Some(defs[j].path),
    decreases defs.len(),
{
    if j < defs.len() - 1 {
        lemma_local_path_found(defs.drop_last(), j, curve, surface);
    }
}

/// Half-edge `e` of `after` is what reversing the curve coordinate system of
/// half-edge `h` of `before` on `surface` made: it starts at the same vertex,
/// runs on a curve made since `before`, whose path on the surface is the
/// reversed path there of the old half-edge's curve, and has the old
/// half-edge's path reversed and its boundary swapped
pub open spec fn is_coordinate_reversed<P: Copy, B: Copy, F: Fn(P) -> P>(
    after: Objects<P, B>,
    before: Objects<P, B>,
    h: usize,
    e: usize,
    surface: u64,
    reverse_path: F,
) -> bool {
    let old = before.stored()[h as int];
    let new = after.stored()[e as int];
    &&& e < after.stored().len()
    &&& new.half_edge.start_vertex == old.half_edge.start_vertex
    &&& before.curve_bound() <= new.half_edge.curve < after.curve_bound()
    &&& reverse_path.ensures((old.geometry.path,), new.geometry.path)
    &&& new.geometry.boundary == old.geometry.boundary.reversed()
    &&& new.derived_from == Some(h)
    &&& local_path(after.curve_definitions(), new.half_edge.curve, surface) is Some
    &&& reverse_path.ensures(
        (local_path(before.curve_definitions(), old.half_edge.curve, surface)->Some_0,),
        local_path(after.curve_definitions(), new.half_edge.curve, surface)->Some_0,
    )
}

/// Cycle `r` of `after` is the curve coordinate reversal of cycle `c` of
/// `before` on `surface`, half-edge by half-edge
pub open spec fn is_cycle_coordinate_reversal<P: Copy, B: Copy, F: Fn(P) -> P>(
    after: Objects<P, B>,
    before: Objects<P, B>,
    c: Cycle,
    r: Cycle,
    surface: u64,
    reverse_path: F,
) -> bool {
    &&& r.half_edges@.len() == c.half_edges@.len()
    &&& forall|i: int|
        0 <= i < c.half_edges@.len() ==> is_coordinate_reversed(
            after,
            before,
            c.half_edges@[i],
            #[trigger] r.half_edges@[i],
            surface,
            reverse_path,
        )
}

/// The definitions that `after` holds beyond `before` are of curves made
/// since `before`
pub open spec fn defines_only_new_curves<P: Copy, B: Copy>(
    after: Objects<P, B>,
    before: Objects<P, B>,
) -> bool {
    forall|j: int|
        before.curve_definitions().len() <= j < after.curve_definitions().len() ==> (
        #[trigger] after.curve_definitions()[j]).curve >= before.curve_bound()
}

proof fn lemma_coordinate_reversal_extends<P: Copy, B: Copy, F: Fn(P) -> P>(
    later: Objects<P, B>,
    after: Objects<P, B>,
    before: Objects<P, B>,
    c: Cycle,
    r: Cycle,
    surface: u64,
    reverse_path: F,
)
    requires
        is_cycle_coordinate_reversal(after, before, c, r, surface, reverse_path),
        later.extends(&after),
        defines_only_new_curves(later, after),
    ensures
        is_cycle_coordinate_reversal(later, before, c, r, surface, reverse_path),
{
    let suffix = later.curve_definitions().subrange(
        after.curve_definitions().len() as int,
        later.curve_definitions().len() as int,
    );
    assert(later.curve_definitions() =~= after.curve_definitions() + suffix);
    assert forall|i: int| 0 <= i < c.half_edges@.len() implies is_coordinate_reversed(
        later,
        before,
        c.half_edges@[i],
        #[trigger] r.half_edges@[i],
        surface,
        reverse_path,
    ) by {
        assert(is_coordinate_reversed(after, before, c.half_edges@[i], r.half_edges@[i], surface, reverse_path));
        let e = r.half_edges@[i];
        let curve = after.stored()[e as int].half_edge.curve;
        assert(later.stored()[e as int] == after.stored()[e as int]);
        assert forall|j: int| 0 <= j < suffix.len() implies #[trigger] suffix[j].curve != curve by {
            assert(suffix[j] == later.curve_definitions()[after.curve_definitions().len() + j]);
        }
        lemma_local_path_suffix(after.curve_definitions(), suffix, curve, surface);
    }
}

proof fn lemma_cycle_coordinate_reversal<P: Copy, B: Copy, F: Fn(P) -> P>(
    after: Objects<P, B>,
    before: Objects<P, B>,
    c: Cycle,
    r: Cycle,
    surface: u64,
    reverse_path: F,
)
    requires
        after.extends(&before),
        after.stored().len() == before.stored().len() + c.half_edges@.len(),
        after.curve_definitions().len() == before.curve_definitions().len() + c.half_edges@.len(),
        after.curve_bound() == before.curve_bound() + c.half_edges@.len(),
        r.half_edges@.len() == c.half_edges@.len(),
        forall|i: int|
            0 <= i < c.half_edges@.len() ==> {
                &&& #[trigger] r.half_edges@[i] == before.stored().len() + i
                &&& is_coordinate_reversal(
                    before,
                    c.half_edges@[i],
                    surface,
                    reverse_path,
                    after.stored()[before.stored().len() + i],
                    after.curve_definitions()[before.curve_definitions().len() + i],
                    (before.curve_bound() + i) as u64,
                )
            },
    ensures
        is_cycle_coordinate_reversal(after, before, c, r, surface, reverse_path),
        defines_only_new_curves(after, before),
{
    let base = before.curve_definitions().len() as int;
    let defs = after.curve_definitions();
    assert forall|i: int| 0 <= i < c.half_edges@.len() implies is_coordinate_reversed(
        after,
        before,
        c.half_edges@[i],
        #[trigger] r.half_edges@[i],
        surface,
        reverse_path,
    ) by {
        assert(r.half_edges@[i] == before.stored().len() + i);
        assert(is_coordinate_reversal(
            before,
            c.half_edges@[i],
            surface,
            reverse_path,
            after.stored()[before.stored().len() + i],
            defs[base + i],
            (before.curve_bound() + i) as u64,
        ));
        let curve = (before.curve_bound() + i) as u64;
        assert forall|k: int| base + i < k < defs.len() implies #[trigger] defs[k].curve != curve by {
            let j = k - base;
            assert(r.half_edges@[j] == before.stored().len() + j);
            assert(is_coordinate_reversal(
                before,
                c.half_edges@[j],
                surface,
                reverse_path,
                after.stored()[before.stored().len() + j],
                defs[base + j],
                (before.curve_bound() + j) as u64,
            ));
        }
        lemma_local_path_found(defs, base + i, curve, surface);
    }
    assert forall|j: int| base <= j < defs.len() implies (#[trigger] defs[j]).curve
        >= before.curve_bound() by {
        let k = j - base;
        assert(r.half_edges@[k] == before.stored().len() + k);
        assert(is_coordinate_reversal(
            before,
            c.half_edges@[k],
            surface,
            reverse_path,
            after.stored()[before.stored().len() + k],
            defs[base + k],
            (before.curve_bound() + k) as u64,
        ));
    }
}

/// Every half-edge of `c` runs on a curve that `objects` has made and that is
/// defined on `surface`
pub open spec fn curves_defined_on<P: Copy, B: Copy>(
    objects: Objects<P, B>,
    c: Cycle,
    surface: u64,
) -> bool {
    forall|i: int|
        0 <= i < c.half_edges@.len() ==> {
            let curve = objects.half_edge_of(#[trigger] c.half_edges@[i]).curve;
            &&& curve < objects.curve_bound()
            &&& local_path(objects.curve_definitions(), curve, surface) is Some
        }
}

proof fn lemma_coordinate_reversal_rebase<P: Copy, B: Copy, F: Fn(P) -> P>(
    after: Objects<P, B>,
    mid: Objects<P, B>,
    before: Objects<P, B>,
    c: Cycle,
    r: Cycle,
    surface: u64,
    reverse_path: F,
)
    requires
        is_cycle_coordinate_reversal(after, mid, c, r, surface, reverse_path),
        mid.extends(&before),
        defines_only_new_curves(mid, before),
        cycle_in(c, before.stored().len()),
        curves_defined_on(before, c, surface),
    ensures
        is_cycle_coordinate_reversal(after, before, c, r, surface, reverse_path),
{
    let suffix = mid.curve_definitions().subrange(
        before.curve_definitions().len() as int,
        mid.curve_definitions().len() as int,
    );
    assert(mid.curve_definitions() =~= before.curve_definitions() + suffix);
    assert forall|i: int| 0 <= i < c.half_edges@.len() implies is_coordinate_reversed(
        after,
        before,
        c.half_edges@[i],
        #[trigger] r.half_edges@[i],
        surface,
        reverse_path,
    ) by {
        assert(is_coordinate_reversed(after, mid, c.half_edges@[i], r.half_edges@[i], surface, reverse_path));
        let h = c.half_edges@[i];
        assert(h < before.stored().len());
        assert(mid.stored()[h as int] == before.stored()[h as int]);
        let curve = before.half_edge_of(h).curve;
        assert(curve < before.curve_bound());
        assert forall|j: int| 0 <= j < suffix.len() implies #[trigger] suffix[j].curve != curve by {
            assert(suffix[j] == mid.curve_definitions()[before.curve_definitions().len() + j]);
        }
        lemma_local_path_suffix(before.curve_definitions(), suffix, curve, surface);
    }
}

impl Region {
    /// Reverse the curve coordinate systems of the exterior and of each
    /// interior cycle of the region on a surface
    pub fn reverse_curve_coordinate_systems<P: Copy, B: Copy, F: Fn(P) -> P>(
        &self,
        surface: u64,
        objects: &mut Objects<P, B>,
        reverse_path: &F,
    ) -> (r: Region)
        requires
            region_in(*self, old(objects).stored().len()),
            curves_defined_on(*old(objects), self.exterior, surface),
            forall|i: int|
                0 <= i < self.interiors@.len() ==> curves_defined_on(
                    *old(objects),
                    #[trigger] self.interiors@[i],
                    surface,
                ),
            old(objects).stored().len() + region_size(*self) <= usize::MAX,
            old(objects).curve_bound() + region_size(*self) <= u64::MAX,
            forall|p: P| #[trigger] reverse_path.requires((p,)),
        ensures
            final(objects).extends(old(objects)),
            defines_only_new_curves(*final(objects), *old(objects)),
            is_cycle_coordinate_reversal(
                *final(objects),
                *old(objects),
                self.exterior,
                r.exterior,
                surface,
                *reverse_path,
            ),
            r.interiors@.len() == self.interiors@.len(),
            forall|i: int|
                0 <= i < self.interiors@.len() ==> is_cycle_coordinate_reversal(
                    *final(objects),
                    *old(objects),
                    #[trigger] self.interiors@[i],
                    r.interiors@[i],
                    surface,
                    *reverse_path,
                ),
    {
        let ghost before = *objects;
        let exterior = self.exterior.reverse_curve_coordinate_systems(surface, objects, reverse_path);
        proof {
            lemma_cycle_coordinate_reversal(*objects, before, self.exterior, exterior, surface, *reverse_path);
        }
        let mut interiors: Vec<Cycle> = Vec::new();
        let mut i: usize = 0;
        while i < self.interiors.len()
            invariant
                region_in(*self, before.stored().len()),
                forall|k: int|
                    0 <= k < self.interiors@.len() ==> curves_defined_on(
                        before,
                        #[trigger] self.interiors@[k],
                        surface,
                    ),
                before.stored().len() + region_size(*self) <= usize::MAX,
                before.curve_bound() + region_size(*self) <= u64::MAX,
                forall|p: P| #[trigger] reverse_path.requires((p,)),
                i <= self.interiors@.len(),
                objects.extends(&before),
                defines_only_new_curves(*objects, before),
                objects.stored().len() == before.stored().len() + self.exterior.half_edges@.len()
                    + cycles_size(self.interiors@.take(i as int)),
                objects.curve_bound() == before.curve_bound() + self.exterior.half_edges@.len()
                    + cycles_size(self.interiors@.take(i as int)),
                is_cycle_coordinate_reversal(
                    *objects,
                    before,
                    self.exterior,
                    exterior,
                    surface,
                    *reverse_path,
                ),
                interiors@.len() == i,
                forall|j: int|
                    0 <= j < i ==> is_cycle_coordinate_reversal(
                        *objects,
                        before,
                        #[trigger] self.interiors@[j],
                        interiors@[j],
                        surface,
                        *reverse_path,
                    ),
            decreases self.interiors@.len() - i,
        {
            let ghost mid = *objects;
            let ghost c = self.interiors@[i as int];
            proof {
                lemma_cycles_size_take(self.interiors@, i as int);
                lemma_cycles_size_monotone(self.interiors@, i as int + 1);
                assert(cycle_in(c, before.stored().len()));
                let suffix = mid.curve_definitions().subrange(
                    before.curve_definitions().len() as int,
                    mid.curve_definitions().len() as int,
                );
                assert(mid.curve_definitions() =~= before.curve_definitions() + suffix);
                assert forall|k: int| 0 <= k < c.half_edges@.len() implies #[trigger] c.half_edges@[k]
                    < mid.stored().len() by {}
                assert forall|k: int| 0 <= k < c.half_edges@.len() implies {
                    let curve = mid.half_edge_of(#[trigger] c.half_edges@[k]).curve;
                    &&& curve < mid.curve_bound()
                    &&& local_path(mid.curve_definitions(), curve, surface) is Some
                } by {
                    let h = c.half_edges@[k];
                    assert(curves_defined_on(before, c, surface));
                    assert(mid.stored()[h as int] == before.stored()[h as int]);
                    let curve = before.half_edge_of(h).curve;
                    assert forall|j: int| 0 <= j < suffix.len() implies #[trigger] suffix[j].curve
                        != curve by {
                        assert(suffix[j] == mid.curve_definitions()[before.curve_definitions().len() + j]);
                    }
                    lemma_local_path_suffix(before.curve_definitions(), suffix, curve, surface);
                }
            }
            let reversed = self.interiors[i].reverse_curve_coordinate_systems(
                surface,
                objects,
                reverse_path,
            );
            proof {
                lemma_cycle_coordinate_reversal(*objects, mid, c, reversed, surface, *reverse_path);
                lemma_coordinate_reversal_rebase(*objects, mid, before, c, reversed, surface, *reverse_path);
                lemma_coordinate_reversal_extends(*objects, mid, before, self.exterior, exterior, surface, *reverse_path);
                assert forall|j: int| 0 <= j < i implies is_cycle_coordinate_reversal(
                    *objects,
                    before,
                    #[trigger] self.interiors@[j],
                    interiors@[j],
                    surface,
                    *reverse_path,
                ) by {
                    lemma_coordinate_reversal_extends(
                        *objects,
                        mid,
                        before,
                        self.interiors@[j],
                        interiors@[j],
                        surface,
                        *reverse_path,
                    );
                }
                assert(defines_only_new_curves(*objects, before)) by {
                    assert forall|j: int|
                        before.curve_definitions().len() <= j < objects.curve_definitions().len() implies (
                        #[trigger] objects.curve_definitions()[j]).curve >= before.curve_bound() by {
                        if j < mid.curve_definitions().len() {
                            assert(objects.curve_definitions()[j] == mid.curve_definitions()[j]);
                        }
                    }
                }
            }
            interiors.push(reversed);
            i = i + 1;
        }
        Region { exterior, interiors }
    }
}

} // verus!
