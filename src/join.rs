//! Joining cycles to other cycles

use vstd::prelude::*;

use core::ops::RangeInclusive;

use crate::topology::{
    cycle_in, next_index, Cycle, HalfEdge, HalfEdgeGeom, LocalCurveGeom, Objects, StoredHalfEdge,
};

verus! {

/// The half-edge that `add_joined_edges` makes for position `i` of `edges`: it
/// runs on the curve of the half-edge at the next position, with that position's
/// geometry, and starts at the start vertex of the half-edge at `i`
pub open spec fn joined_half_edge<P: Copy, B: Copy>(
    objects: Objects<P, B>,
    edges: Seq<(usize, HalfEdgeGeom<P, B>)>,
    i: int,
) -> StoredHalfEdge<P, B> {
    let next = edges[next_index(i, edges.len() as int)];
    StoredHalfEdge {
        half_edge: HalfEdge {
            curve: objects.half_edge_of(next.0).curve,
            start_vertex: objects.half_edge_of(edges[i].0).start_vertex,
        },
        geometry: next.1,
        derived_from: None,
    }
}

/// The curve definition that `add_joined_edges` makes for position `i` of
/// `edges`: the curve of the new half-edge, on `surface`, along its path
pub open spec fn joined_definition<P: Copy, B: Copy>(
    objects: Objects<P, B>,
    edges: Seq<(usize, HalfEdgeGeom<P, B>)>,
    i: int,
    surface: u64,
) -> LocalCurveGeom<P> {
    LocalCurveGeom {
        curve: joined_half_edge(objects, edges, i).half_edge.curve,
        surface,
        path: joined_half_edge(objects, edges, i).geometry.path,
    }
}

/// Relies on `RangeInclusive::start`: the lower bound of a range that has not
/// been iterated to exhaustion.
pub assume_specification<Idx>[ RangeInclusive::<Idx>::start ](r: &RangeInclusive<Idx>) -> (ret: &Idx)
    requires
        !r@.exhausted,
    ensures
        *ret == r@.start,
;

/// Relies on `RangeInclusive::end`: the upper bound of a range that has not
/// been iterated to exhaustion.
pub assume_specification<Idx>[ RangeInclusive::<Idx>::end ](r: &RangeInclusive<Idx>) -> (ret: &Idx)
    requires
        !r@.exhausted,
    ensures
        *ret == r@.end,
;

/// One step of `join_to`: the half-edge at position `index` of the cycle is
/// replaced by one on the curve of the half-edge at position `index_other` of
/// the other cycle, starting where that one ends; the half-edge after it is
/// replaced by one that starts where that one starts. Positions are taken
/// modulo the lengths of the cycles; each new half-edge keeps the geometry of
/// the one it replaces and is added to the arena.
pub open spec fn join_step<P: Copy, B: Copy>(
    cycle: Seq<usize>,
    arena: Seq<StoredHalfEdge<P, B>>,
    other: Seq<usize>,
    index: int,
    index_other: int,
) -> (Seq<usize>, Seq<StoredHalfEdge<P, B>>) {
    let n = cycle.len() as int;
    let m = other.len() as int;
    let edge_other = arena[other[index_other % m] as int].half_edge;
    let next_other = arena[other[(index_other + 1) % m] as int].half_edge;
    let p = index % n;
    let h = cycle[p];
    let first = StoredHalfEdge {
        half_edge: HalfEdge { curve: edge_other.curve, start_vertex: next_other.start_vertex },
        geometry: arena[h as int].geometry,
        derived_from: Some(h),
    };
    let cycle1 = cycle.update(p, arena.len() as usize);
    let arena1 = arena.push(first);
    let q = (index + 1) % n;
    let h2 = cycle1[q];
    let second = StoredHalfEdge {
        half_edge: HalfEdge {
            curve: arena1[h2 as int].half_edge.curve,
            start_vertex: edge_other.start_vertex,
        },
        geometry: arena1[h2 as int].geometry,
        derived_from: Some(h2),
    };
    (cycle1.update(q, arena1.len() as usize), arena1.push(second))
}

/// The first `k` steps of `join_to`, from `start` and `start_other` on
pub open spec fn join_steps<P: Copy, B: Copy>(
    cycle: Seq<usize>,
    arena: Seq<StoredHalfEdge<P, B>>,
    other: Seq<usize>,
    start: int,
    start_other: int,
    k: nat,
) -> (Seq<usize>, Seq<StoredHalfEdge<P, B>>)
    decreases k,
{
    if k == 0 {
        (cycle, arena)
    } else {
        let prev = join_steps(cycle, arena, other, start, start_other, (k - 1) as nat);
        join_step(prev.0, prev.1, other, start + k - 1, start_other + k - 1)
    }
}

impl Cycle {
    /// Add new half-edges to the cycle that are joined to the provided ones
    ///
    /// For each provided half-edge and the one after it (the last one is
    /// followed by the first), a new half-edge is made that runs on the curve of
    /// the second, with the geometry given for the second, and starts at the
    /// start vertex of the first: it runs along the second in the opposite
    /// direction. The curve of each new half-edge is defined on `surface` by the
    /// path of that geometry. The new half-edges are appended to the cycle.
    pub fn add_joined_edges<P: Copy, B: Copy>(
        &self,
        edges: &Vec<(usize, HalfEdgeGeom<P, B>)>,
        surface: u64,
        objects: &mut Objects<P, B>,
    ) -> (r: Cycle)
        requires
            forall|i: int| 0 <= i < edges@.len() ==> #[trigger] edges@[i].0 < old(objects).stored().len(),
            old(objects).stored().len() + edges@.len() <= usize::MAX,
        ensures
            final(objects).extends(old(objects)),
            final(objects).stored().len() == old(objects).stored().len() + edges@.len(),
            r.half_edges@.len() == self.half_edges@.len() + edges@.len(),
            r.half_edges@.subrange(0, self.half_edges@.len() as int) == self.half_edges@,
            forall|i: int|
                0 <= i < edges@.len() ==> {
                    &&& #[trigger] r.half_edges@[self.half_edges@.len() + i]
                        == old(objects).stored().len() + i
                    &&& final(objects).stored()[old(objects).stored().len() + i]
                        == joined_half_edge(*old(objects), edges@, i)
                },
            final(objects).curve_definitions().len() == old(objects).curve_definitions().len()
                + edges@.len(),
            forall|i: int|
                0 <= i < edges@.len() ==> final(objects).curve_definitions()[old(
                    objects,
                ).curve_definitions().len() + i] == #[trigger] joined_definition(*old(objects), edges@, i, surface),
    {
        let ghost before = *objects;
        let n = edges.len();
        let mut half_edges = crate::approx::copied(&self.half_edges);
        let mut i: usize = 0;
        while i < n
            invariant
                n == edges@.len(),
                forall|k: int| 0 <= k < edges@.len() ==> #[trigger] edges@[k].0 < before.stored().len(),
                before.stored().len() + n <= usize::MAX,
                i <= n,
                objects.extends(&before),
                objects.stored().len() == before.stored().len() + i,
                objects.curve_definitions().len() == before.curve_definitions().len() + i,
                half_edges@.len() == self.half_edges@.len() + i,
                half_edges@.subrange(0, self.half_edges@.len() as int) == self.half_edges@,
                forall|k: int|
                    0 <= k < i ==> #[trigger] half_edges@[self.half_edges@.len() + k]
                        == before.stored().len() + k,
                forall|k: int|
                    0 <= k < i ==> objects.stored()[before.stored().len() + k]
                        == #[trigger] joined_half_edge(before, edges@, k),
                forall|k: int|
                    0 <= k < i ==> objects.curve_definitions()[before.curve_definitions().len() + k]
                        == #[trigger] joined_definition(before, edges@, k, surface),
            decreases n - i,
        {
            let prev = edges[i].0;
            let (half_edge, geometry) = if i + 1 < n {
                edges[i + 1]
            } else {
                edges[0]
            };
            proof {
                assert(objects.stored()[prev as int] == before.stored()[prev as int]);
                assert(objects.stored()[half_edge as int] == before.stored()[half_edge as int]);
            }
            let joined = HalfEdge {
                curve: objects.half_edge(half_edge).curve,
                start_vertex: objects.half_edge(prev).start_vertex,
            };
            let ghost mid = *objects;
            let ghost old_half_edges = half_edges@;
            let h = objects.insert_half_edge(joined, geometry, None);
            let ghost mid2 = *objects;
            objects.define_curve(joined.curve, surface, geometry.path);
            half_edges.push(h);
            proof {
                assert(objects.stored()[h as int] == joined_half_edge(before, edges@, i as int));
                assert forall|k: int| 0 <= k < i implies objects.stored()[before.stored().len() + k]
                    == #[trigger] joined_half_edge(before, edges@, k) by {
                    assert(mid.stored()[before.stored().len() + k] == joined_half_edge(
                        before,
                        edges@,
                        k,
                    ));
                }
                assert forall|k: int|
                    0 <= k < i + 1 implies #[trigger] half_edges@[self.half_edges@.len() + k]
                    == before.stored().len() + k by {
                    if k < i {
                        assert(old_half_edges[self.half_edges@.len() + k] == before.stored().len()
                            + k);
                    }
                }
                assert(half_edges@.subrange(0, self.half_edges@.len() as int) =~= old_half_edges.subrange(
                    0,
                    self.half_edges@.len() as int,
                ));
                assert(before.curve_definitions().is_prefix_of(objects.curve_definitions()));
            }
            i = i + 1;
        }
        Cycle { half_edges }
    }

    /// Join the cycle to another at the provided ranges of positions
    ///
    /// Position `range.start() + k` of this cycle is joined to position
    /// `range_other.start() + k` of the other, for each `k` up to the length of
    /// the ranges; positions are taken modulo the lengths of the cycles, so a
    /// range may cross the seam of a cycle. The joined half-edges must be
    /// coincident, and their curves' local coordinate systems must match;
    /// otherwise a validation check will find the result at fault.
    pub fn join_to<P: Copy, B: Copy>(
        &self,
        other: &Cycle,
        range: RangeInclusive<usize>,
        range_other: RangeInclusive<usize>,
        objects: &mut Objects<P, B>,
    ) -> (r: Cycle)
        requires
            !range@.exhausted,
            !range_other@.exhausted,
            range@.start <= range@.end < usize::MAX,
            range_other@.start <= range_other@.end < usize::MAX,
            range@.end - range@.start == range_other@.end - range_other@.start,
            self.half_edges@.len() > 0,
            other.half_edges@.len() > 0,
            cycle_in(*self, old(objects).stored().len()),
            cycle_in(*other, old(objects).stored().len()),
            old(objects).stored().len() + 2 * (range@.end - range@.start + 1) <= usize::MAX,
        ensures
            final(objects).extends(old(objects)),
            final(objects).curve_definitions() == old(objects).curve_definitions(),
            (r.half_edges@, final(objects).stored()) == join_steps(
                self.half_edges@,
                old(objects).stored(),
                other.half_edges@,
                range@.start as int,
                range_other@.start as int,
                (range@.end - range@.start + 1) as nat,
            ),
    {
        let start = *range.start();
        let end = *range.end();
        let start_other = *range_other.start();
        let n = self.half_edges.len();
        let m = other.half_edges.len();
        let ghost before = *objects;
        let mut cycle = crate::approx::copied(&self.half_edges);
        let mut k: usize = 0;
        while k <= end - start
            invariant
                start <= end < usize::MAX,
                start_other + (end - start) < usize::MAX,
                n == self.half_edges@.len(),
                m == other.half_edges@.len(),
                n > 0,
                m > 0,
                cycle_in(*other, before.stored().len()),
                before.stored().len() + 2 * (end - start + 1) <= usize::MAX,
                k <= end - start + 1,
                objects.extends(&before),
                objects.curve_definitions() == before.curve_definitions(),
                objects.stored().len() == before.stored().len() + 2 * k,
                cycle@.len() == n,
                forall|i: int| 0 <= i < n ==> #[trigger] cycle@[i] < objects.stored().len(),
                (cycle@, objects.stored()) == join_steps(
                    self.half_edges@,
                    before.stored(),
                    other.half_edges@,
                    start as int,
                    start_other as int,
                    k as nat,
                ),
            decreases end - start + 1 - k,
        {
            let index = start + k;
            let index_other = start_other + k;
            let ghost arena = objects.stored();
            let ghost prev = cycle@;
            proof {
                let a = (index_other % m) as int;
                let b = ((index_other as int + 1) % (m as int));
                assert(other.half_edges@[a] < before.stored().len());
                assert(other.half_edges@[b] < before.stored().len());
            }
            let edge_other = objects.half_edge(other.half_edges[index_other % m]);
            let next_other = objects.half_edge(other.half_edges[(index_other + 1) % m]);

            let p = index % n;
            let h = cycle[p];
            let first = HalfEdge { curve: edge_other.curve, start_vertex: next_other.start_vertex };
            let geometry = objects.geometry(h);
            let h1 = objects.insert_half_edge(first, geometry, Some(h));
            cycle.set(p, h1);

            let q = (index + 1) % n;
            let h2 = cycle[q];
            let second_edge = objects.half_edge(h2);
            let second = HalfEdge { curve: second_edge.curve, start_vertex: edge_other.start_vertex };
            let geometry2 = objects.geometry(h2);
            let h3 = objects.insert_half_edge(second, geometry2, Some(h2));
            cycle.set(q, h3);
            proof {
                let step = join_step(prev, arena, other.half_edges@, index as int, index_other as int);
                assert(cycle@ =~= step.0);
                assert(objects.stored() =~= step.1);
            }
            k = k + 1;
        }
        Cycle { half_edges: cycle }
    }
}

} // verus!
