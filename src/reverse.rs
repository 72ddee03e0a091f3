//! Reversal of cycles and regions

use vstd::prelude::*;

use crate::approx::reversed_copy;
use crate::boundary::lemma_reverse_involutive;
use crate::topology::{
    cycle_in, next_index, region_in, Cycle, HalfEdge, HalfEdgeGeom, Objects, Region, StoredHalfEdge,
};

verus! {

/// The half-edge that takes the place of position `i` of cycle `c` in the
/// reversal of `c`: it runs on the same curve, over the reversed boundary, and
/// starts where the half-edge at `i` ends, at the start of the next one
pub open spec fn reversed_half_edge<P: Copy, B: Copy>(
    objects: Objects<P, B>,
    c: Cycle,
    i: int,
) -> StoredHalfEdge<P, B> {
    let current = c.half_edges@[i];
    let next = c.half_edges@[next_index(i, c.half_edges@.len() as int)];
    StoredHalfEdge {
        half_edge: HalfEdge {
            curve: objects.half_edge_of(current).curve,
            start_vertex: objects.half_edge_of(next).start_vertex,
        },
        geometry: HalfEdgeGeom {
            path: objects.geometry_of(current).path,
            boundary: objects.geometry_of(current).boundary.reversed(),
        },
        derived_from: Some(current),
    }
}

/// `r` is a reversal of `c`: position `k` of `r` holds the reversed half-edge
/// of position `n - 1 - k` of `c`, as it was in `before`, and lives in `after`
pub open spec fn is_reversal<P: Copy, B: Copy>(
    after: Objects<P, B>,
    before: Objects<P, B>,
    c: Cycle,
    r: Cycle,
) -> bool {
    let n = c.half_edges@.len() as int;
    &&& r.half_edges@.len() == n
    &&& cycle_in(r, after.stored().len())
    &&& forall|k: int|
        0 <= k < n ==> after.stored()[#[trigger] r.half_edges@[k] as int] == reversed_half_edge(
            before,
            c,
            n - 1 - k,
        )
}

/// A reversal stays one as the arena grows.
pub proof fn lemma_reversal_extends<P: Copy, B: Copy>(
    later: Objects<P, B>,
    after: Objects<P, B>,
    before: Objects<P, B>,
    c: Cycle,
    r: Cycle,
)
    requires
        is_reversal(after, before, c, r),
        later.extends(&after),
    ensures
        is_reversal(later, before, c, r),
{
    let n = c.half_edges@.len() as int;
    assert forall|k: int| 0 <= k < n implies later.stored()[#[trigger] r.half_edges@[k] as int]
        == reversed_half_edge(before, c, n - 1 - k) by {
        assert(r.half_edges@[k] < after.stored().len());
    }
}

/// The number of half-edges in a sequence of cycles
pub open spec fn cycles_size(cycles: Seq<Cycle>) -> nat
    decreases cycles.len(),
{
    if cycles.len() == 0 {
        0
    } else {
        cycles_size(cycles.drop_last()) + cycles.last().half_edges@.len()
    }
}

/// The number of half-edges in a region
pub open spec fn region_size(r: Region) -> nat {
    r.exterior.half_edges@.len() + cycles_size(r.interiors@)
}

pub(crate) proof fn lemma_cycles_size_take(cycles: Seq<Cycle>, i: int)
    requires
        0 <= i < cycles.len(),
    ensures
        cycles_size(cycles.take(i + 1)) == cycles_size(cycles.take(i))
            + cycles[i].half_edges@.len(),
{
    assert(cycles.take(i + 1).drop_last() =~= cycles.take(i));
}

pub(crate) proof fn lemma_cycles_size_monotone(cycles: Seq<Cycle>, i: int)
    requires
        0 <= i <= cycles.len(),
    ensures
        cycles_size(cycles.take(i)) <= cycles_size(cycles),
    decreases cycles.len() - i,
{
    if i < cycles.len() {
        lemma_cycles_size_take(cycles, i);
        lemma_cycles_size_monotone(cycles, i + 1);
    } else {
        assert(cycles.take(i) =~= cycles);
    }
}

/// A reversed cycle runs on the curves of the cycle it reverses, in reverse
/// order, over reversed boundaries, and visits that cycle's start vertices in
/// reverse order, beginning with the same one: it traces the same points in the
/// opposite direction.
pub proof fn lemma_reversal_traces_backwards<P: Copy, B: Copy>(
    after: Objects<P, B>,
    before: Objects<P, B>,
    c: Cycle,
    r: Cycle,
)
    requires
        is_reversal(after, before, c, r),
    ensures
        forall|k: int|
            0 <= k < c.half_edges@.len() ==> {
                let n = c.half_edges@.len() as int;
                let e = after.half_edge_of(#[trigger] r.half_edges@[k]);
                let g = after.geometry_of(r.half_edges@[k]);
                &&& e.curve == before.half_edge_of(c.half_edges@[n - 1 - k]).curve
                &&& e.start_vertex == before.half_edge_of(
                    c.half_edges@[if k == 0 {
                        0
                    } else {
                        n - k
                    }],
                ).start_vertex
                &&& g.boundary == before.geometry_of(c.half_edges@[n - 1 - k]).boundary.reversed()
                &&& g.path == before.geometry_of(c.half_edges@[n - 1 - k]).path
            },
{
    assert forall|k: int| 0 <= k < c.half_edges@.len() implies {
        let n = c.half_edges@.len() as int;
        let e = after.half_edge_of(#[trigger] r.half_edges@[k]);
        &&& e.start_vertex == before.half_edge_of(
            c.half_edges@[if k == 0 {
                0
            } else {
                n - k
            }],
        ).start_vertex
    } by {
        let n = c.half_edges@.len() as int;
        assert(after.stored()[r.half_edges@[k] as int] == reversed_half_edge(before, c, n - 1 - k));
    }
}

/// Reversing a cycle twice gives back its half-edges, as new objects: the same
/// curves, start vertices, paths and boundaries, in the same order.
pub proof fn lemma_reverse_twice<P: Copy, B: Copy>(
    first: Objects<P, B>,
    second: Objects<P, B>,
    third: Objects<P, B>,
    c: Cycle,
    once: Cycle,
    twice: Cycle,
)
    requires
        is_reversal(second, first, c, once),
        is_reversal(third, second, once, twice),
    ensures
        twice.half_edges@.len() == c.half_edges@.len(),
        forall|k: int|
            0 <= k < c.half_edges@.len() ==> {
                &&& third.half_edge_of(#[trigger] twice.half_edges@[k]) == first.half_edge_of(
                    c.half_edges@[k],
                )
                &&& third.geometry_of(twice.half_edges@[k]).path == first.geometry_of(
                    c.half_edges@[k],
                ).path
                &&& third.geometry_of(twice.half_edges@[k]).boundary == first.geometry_of(
                    c.half_edges@[k],
                ).boundary
            },
{
    let n = c.half_edges@.len() as int;
    assert forall|k: int| 0 <= k < n implies {
        &&& third.half_edge_of(#[trigger] twice.half_edges@[k]) == first.half_edge_of(
            c.half_edges@[k],
        )
        &&& third.geometry_of(twice.half_edges@[k]).path == first.geometry_of(
            c.half_edges@[k],
        ).path
        &&& third.geometry_of(twice.half_edges@[k]).boundary == first.geometry_of(
            c.half_edges@[k],
        ).boundary
    } by {
        let j = n - 1 - k;
        assert(third.stored()[twice.half_edges@[k] as int] == reversed_half_edge(second, once, j));
        assert(second.stored()[once.half_edges@[j] as int] == reversed_half_edge(first, c, k));
        let nj = next_index(j, n);
        assert(second.stored()[once.half_edges@[nj] as int] == reversed_half_edge(first, c, n - 1 - nj));
        lemma_reverse_involutive(first.geometry_of(c.half_edges@[k]).boundary);
    }
}

impl Cycle {
    /// Reverse the cycle
    ///
    /// For each half-edge and the one after it, a new half-edge is made on the
    /// curve of the first, over its reversed boundary, that starts at the start
    /// vertex of the second. The new half-edges, in reverse order, make up the
    /// reversed cycle, which traces the same points in the opposite direction.
    pub fn reverse<P: Copy, B: Copy>(&self, objects: &mut Objects<P, B>) -> (r: Cycle)
        requires
            cycle_in(*self, old(objects).stored().len()),
            old(objects).stored().len() + self.half_edges@.len() <= usize::MAX,
        ensures
            final(objects).extends(old(objects)),
            final(objects).stored().len() == old(objects).stored().len() + self.half_edges@.len(),
            final(objects).curve_definitions() == old(objects).curve_definitions(),
            is_reversal(*final(objects), *old(objects), *self, r),
    {
        let n = self.half_edges.len();
        let ghost before = *objects;
        let mut edges: Vec<usize> = Vec::new();
        let mut i: usize = 0;
        while i < n
            invariant
                n == self.half_edges@.len(),
                cycle_in(*self, before.stored().len()),
                before.stored().len() + n <= usize::MAX,
                i <= n,
                objects.extends(&before),
                objects.stored().len() == before.stored().len() + i,
                objects.curve_definitions() == before.curve_definitions(),
                edges@.len() == i,
                forall|j: int| 0 <= j < i ==> #[trigger] edges@[j] == before.stored().len() + j,
                forall|j: int|
                    0 <= j < i ==> objects.stored()[before.stored().len() + j]
                        == #[trigger] reversed_half_edge(before, *self, j),
            decreases n - i,
        {
            let current = self.half_edges[i];
            let next = if i + 1 < n {
                self.half_edges[i + 1]
            } else {
                self.half_edges[0]
            };
            let mut geometry = objects.geometry(current);
            geometry.boundary = geometry.boundary.reverse();
            let half_edge = HalfEdge {
                curve: objects.half_edge(current).curve,
                start_vertex: objects.half_edge(next).start_vertex,
            };
            proof {
                let ni = next_index(i as int, n as int);
                assert(self.half_edges@[i as int] < before.stored().len());
                assert(self.half_edges@[ni] < before.stored().len());
                assert(objects.stored()[current as int] == before.stored()[current as int]);
                assert(objects.stored()[next as int] == before.stored()[next as int]);
            }
            let ghost mid = *objects;
            let h = objects.insert_half_edge(half_edge, geometry, Some(current));
            edges.push(h);
            proof {
                assert(objects.stored()[h as int] == reversed_half_edge(before, *self, i as int));
                assert(edges@[i as int] == h);
                assert forall|j: int| 0 <= j < i implies objects.stored()[before.stored().len() + j]
                    == #[trigger] reversed_half_edge(before, *self, j) by {
                    assert(mid.stored()[before.stored().len() + j] == reversed_half_edge(
                        before,
                        *self,
                        j,
                    ));
                }
            }
            i = i + 1;
        }
        let edges = reversed_copy(&edges);
        let r = Cycle { half_edges: edges };
        assert forall|k: int| 0 <= k < n implies objects.stored()[#[trigger] r.half_edges@[k] as int]
            == reversed_half_edge(before, *self, n - 1 - k) by {
            assert(r.half_edges@[k] == edges@[k]);
        }
        r
    }
}

impl Region {
    /// Reverse the region: its exterior cycle and each of its interior cycles
    pub fn reverse<P: Copy, B: Copy>(&self, objects: &mut Objects<P, B>) -> (r: Region)
        requires
            region_in(*self, old(objects).stored().len()),
            old(objects).stored().len() + region_size(*self) <= usize::MAX,
        ensures
            final(objects).extends(old(objects)),
            final(objects).stored().len() == old(objects).stored().len() + region_size(*self),
            final(objects).curve_definitions() == old(objects).curve_definitions(),
            is_reversal(*final(objects), *old(objects), self.exterior, r.exterior),
            r.interiors@.len() == self.interiors@.len(),
            forall|i: int|
                0 <= i < self.interiors@.len() ==> is_reversal(
                    *final(objects),
                    *old(objects),
                    #[trigger] self.interiors@[i],
                    r.interiors@[i],
                ),
    {
        let ghost before = *objects;
        let exterior = self.exterior.reverse(objects);
        let mut interiors: Vec<Cycle> = Vec::new();
        let mut i: usize = 0;
        while i < self.interiors.len()
            invariant
                region_in(*self, before.stored().len()),
                before.stored().len() + region_size(*self) <= usize::MAX,
                i <= self.interiors@.len(),
                objects.extends(&before),
                objects.stored().len() == before.stored().len() + self.exterior.half_edges@.len()
                    + cycles_size(self.interiors@.take(i as int)),
                objects.curve_definitions() == before.curve_definitions(),
                is_reversal(*objects, before, self.exterior, exterior),
                interiors@.len() == i,
                forall|j: int|
                    0 <= j < i ==> is_reversal(
                        *objects,
                        before,
                        #[trigger] self.interiors@[j],
                        interiors@[j],
                    ),
            decreases self.interiors@.len() - i,
        {
            let ghost mid = *objects;
            proof {
                lemma_cycles_size_take(self.interiors@, i as int);
                assert(self.interiors@.take(self.interiors@.len() as int) =~= self.interiors@);
                lemma_cycles_size_monotone(self.interiors@, i as int + 1);
                let c = self.interiors@[i as int];
                assert forall|k: int| 0 <= k < c.half_edges@.len() implies #[trigger] c.half_edges@[k]
                    < objects.stored().len() by {
                    assert(cycle_in(self.interiors@[i as int], before.stored().len()));
                }
            }
            let reversed = self.interiors[i].reverse(objects);
            proof {
                lemma_reversal_extends(*objects, mid, before, self.exterior, exterior);
                assert forall|j: int| 0 <= j < i implies is_reversal(
                    *objects,
                    before,
                    #[trigger] self.interiors@[j],
                    interiors@[j],
                ) by {
                    lemma_reversal_extends(*objects, mid, before, self.interiors@[j], interiors@[j]);
                }
                assert(mid.extends(&before));
                let c = self.interiors@[i as int];
                assert forall|k: int| 0 <= k < c.half_edges@.len() implies #[trigger] before.stored()[
                    c.half_edges@[k] as int] == mid.stored()[c.half_edges@[k] as int] by {
                    assert(cycle_in(self.interiors@[i as int], before.stored().len()));
                }
                assert forall|k: int| 0 <= k < c.half_edges@.len() implies reversed_half_edge(
                    mid,
                    c,
                    k,
                ) == #[trigger] reversed_half_edge(before, c, k) by {
                    assert(cycle_in(self.interiors@[i as int], before.stored().len()));
                    assert(c.half_edges@[k] < before.stored().len());
                    assert(c.half_edges@[next_index(k, c.half_edges@.len() as int)] < before.stored().len());
                }
            }
            interiors.push(reversed);
            i = i + 1;
        }
        proof {
            assert(self.interiors@.take(self.interiors@.len() as int) =~= self.interiors@);
        }
        Region { exterior, interiors }
    }
}

} // verus!
