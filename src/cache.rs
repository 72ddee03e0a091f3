//! The cache that shares approximations between half-edges

use vstd::prelude::*;

use crate::approx::{copied, reversed, reversed_copy, ApproxPoint};
use crate::boundary::{lemma_reverse_involutive, CurveBoundary};

verus! {

/// The key of a curve approximation: the curve's handle and the boundary
///
/// The values of the boundary are keys that identify curve coordinates exactly
/// (the bit pattern of a floating-point coordinate, for example).
pub type CurveKey = (u64, CurveBoundary<u64>);

/// The approximation of a curve over a boundary, as stored in the cache
struct CurveApproxEntry<C, G> {
    curve: u64,
    boundary: CurveBoundary<u64>,
    points: Vec<ApproxPoint<C, G>>,
}

/// Cache for half-edge approximations
///
/// It holds the global positions of start vertices, keyed by the handle of the
/// vertex, and approximations of curves, keyed by the handle of the curve and
/// the boundary. A fresh cache belongs to one approximation pass.
pub struct EdgeApproxCache<C, G> {
    start_position: Vec<(u64, G)>,
    curve_approx: Vec<CurveApproxEntry<C, G>>,
}

impl<C: Copy, G: Copy> EdgeApproxCache<C, G> {
    /// Keys are unique in both tables.
    pub closed spec fn wf(&self) -> bool {
        &&& forall|i: int, j: int|
            0 <= i < j < self.start_position@.len() ==> self.start_position@[i].0
                != self.start_position@[j].0
        &&& forall|i: int, j: int|
            0 <= i < j < self.curve_approx@.len() ==> (self.curve_approx@[i].curve,
            self.curve_approx@[i].boundary) != (self.curve_approx@[j].curve,
            self.curve_approx@[j].boundary)
    }

    /// The cached start positions, by vertex handle
    pub closed spec fn start_positions(&self) -> Map<u64, G> {
        Map::new(
            |v: u64| exists|i: int| 0 <= i < self.start_position@.len() && self.start_position@[i].0 == v,
            |v: u64|
                self.start_position@[choose|i: int|
                    0 <= i < self.start_position@.len() && self.start_position@[i].0 == v].1,
        )
    }

    /// The cached curve approximations, by curve handle and boundary
    pub closed spec fn curves(&self) -> Map<CurveKey, Seq<ApproxPoint<C, G>>> {
        Map::new(
            |k: CurveKey|
                exists|i: int|
                    0 <= i < self.curve_approx@.len() && (self.curve_approx@[i].curve,
                    self.curve_approx@[i].boundary) == k,
            |k: CurveKey|
                self.curve_approx@[choose|i: int|
                    0 <= i < self.curve_approx@.len() && (self.curve_approx@[i].curve,
                    self.curve_approx@[i].boundary) == k].points@,
        )
    }

    /// What a lookup of a curve approximation finds: the approximation stored
    /// under the key itself, else the one stored under the reversed boundary,
    /// in reverse order
    pub open spec fn lookup(&self, curve: u64, boundary: CurveBoundary<u64>) -> Option<
        Seq<ApproxPoint<C, G>>,
    > {
        if self.curves().contains_key((curve, boundary)) {
            Some(self.curves()[(curve, boundary)])
        } else if self.curves().contains_key((curve, boundary.reversed())) {
            Some(reversed(self.curves()[(curve, boundary.reversed())]))
        } else {
            None
        }
    }

    /// Construct an empty cache
    pub fn new() -> (r: Self)
        ensures
            r.wf(),
            r.start_positions() == Map::<u64, G>::empty(),
            r.curves() == Map::<CurveKey, Seq<ApproxPoint<C, G>>>::empty(),
    {
        let r = EdgeApproxCache { start_position: Vec::new(), curve_approx: Vec::new() };
        assert(r.start_positions() =~= Map::<u64, G>::empty());
        assert(r.curves() =~= Map::<CurveKey, Seq<ApproxPoint<C, G>>>::empty());
        r
    }

    /// The cached global position of a vertex, if there is one
    pub fn start_position(&self, vertex: u64) -> (r: Option<G>)
        requires
            self.wf(),
        ensures
            r == (if self.start_positions().contains_key(vertex) {
                Some(self.start_positions()[vertex])
            } else {
                None
            }),
    {
        let mut i: usize = 0;
        while i < self.start_position.len()
            invariant
                self.wf(),
                i <= self.start_position@.len(),
                forall|j: int| 0 <= j < i ==> self.start_position@[j].0 != vertex,
            decreases self.start_position@.len() - i,
        {
            if self.start_position[i].0 == vertex {
                let ghost k = choose|j: int|
                    0 <= j < self.start_position@.len() && self.start_position@[j].0 == vertex;
                assert(self.start_positions().contains_key(vertex));
                assert(k == i as int);
                return Some(self.start_position[i].1);
            }
            i = i + 1;
        }
        assert(!self.start_positions().contains_key(vertex));
        None
    }

    /// Remember the global position of a vertex, and return it
    pub fn insert_start_position_approx(&mut self, vertex: u64, position: G) -> (r: G)
        requires
            old(self).wf(),
        ensures
            final(self).wf(),
            r == position,
            final(self).start_positions() == old(self).start_positions().insert(vertex, position),
            final(self).curves() == old(self).curves(),
    {
        let mut i: usize = 0;
        while i < self.start_position.len()
            invariant
                *self == *old(self),
                old(self).wf(),
                i <= self.start_position@.len(),
                forall|j: int| 0 <= j < i ==> self.start_position@[j].0 != vertex,
            decreases self.start_position@.len() - i,
        {
            if self.start_position[i].0 == vertex {
                self.start_position.set(i, (vertex, position));
                proof {
                    self.lemma_start_positions_set(*old(self), i as int, vertex, position);
                }
                return position;
            }
            i = i + 1;
        }
        self.start_position.push((vertex, position));
        proof {
            self.lemma_start_positions_push(*old(self), vertex, position);
        }
        position
    }

    proof fn lemma_start_positions_set(&self, before: Self, i: int, vertex: u64, position: G)
        requires
            before.wf(),
            0 <= i < before.start_position@.len(),
            before.start_position@[i].0 == vertex,
            self.start_position@ == before.start_position@.update(i, (vertex, position)),
            self.curve_approx@ == before.curve_approx@,
        ensures
            self.wf(),
            self.start_positions() == before.start_positions().insert(vertex, position),
            self.curves() == before.curves(),
    {
        let m = self.start_positions();
        let e = before.start_positions().insert(vertex, position);
        assert forall|v: u64| m.contains_key(v) <==> e.contains_key(v) by {
            if e.contains_key(v) && v != vertex {
                let j = choose|j: int|
                    0 <= j < before.start_position@.len() && before.start_position@[j].0 == v;
                assert(self.start_position@[j].0 == v);
            }
            if v == vertex {
                assert(self.start_position@[i].0 == v);
            }
        }
        assert forall|v: u64| #[trigger] m.contains_key(v) implies m[v] == e[v] by {
            let j = choose|j: int|
                0 <= j < self.start_position@.len() && self.start_position@[j].0 == v;
            if v != vertex {
                let k = choose|k: int|
                    0 <= k < before.start_position@.len() && before.start_position@[k].0 == v;
                assert(before.start_position@[j].0 == v);
            }
        }
        assert(m =~= e);
        assert(self.curves() =~= before.curves());
    }

    proof fn lemma_start_positions_push(&self, before: Self, vertex: u64, position: G)
        requires
            before.wf(),
            forall|j: int| 0 <= j < before.start_position@.len() ==> before.start_position@[j].0 != vertex,
            self.start_position@ == before.start_position@.push((vertex, position)),
            self.curve_approx@ == before.curve_approx@,
        ensures
            self.wf(),
            self.start_positions() == before.start_positions().insert(vertex, position),
            self.curves() == before.curves(),
    {
        let n = before.start_position@.len() as int;
        let m = self.start_positions();
        let e = before.start_positions().insert(vertex, position);
        assert forall|v: u64| m.contains_key(v) <==> e.contains_key(v) by {
            if e.contains_key(v) && v != vertex {
                let j = choose|j: int|
                    0 <= j < before.start_position@.len() && before.start_position@[j].0 == v;
                assert(self.start_position@[j].0 == v);
            }
            if v == vertex {
                assert(self.start_position@[n].0 == v);
            }
        }
        assert forall|v: u64| #[trigger] m.contains_key(v) implies m[v] == e[v] by {
            let j = choose|j: int|
                0 <= j < self.start_position@.len() && self.start_position@[j].0 == v;
            if v != vertex {
                assert(j < n);
                let k = choose|k: int|
                    0 <= k < before.start_position@.len() && before.start_position@[k].0 == v;
                assert(before.start_position@[j].0 == v);
            } else {
                assert(j == n);
            }
        }
        assert(m =~= e);
        assert(self.curves() =~= before.curves());
    }

    fn find_curve(&self, curve: u64, boundary: CurveBoundary<u64>) -> (r: Option<usize>)
        requires
            self.wf(),
        ensures
            match r {
                Some(i) => {
                    &&& i < self.curve_approx@.len()
                    &&& self.curve_approx@[i as int].curve == curve
                    &&& self.curve_approx@[i as int].boundary == boundary
                    &&& self.curves().contains_key((curve, boundary))
                    &&& self.curves()[(curve, boundary)] == self.curve_approx@[i as int].points@
                },
                None => !self.curves().contains_key((curve, boundary)),
            },
    {
        broadcast use vstd::array::group_array_axioms;

        let mut i: usize = 0;
        while i < self.curve_approx.len()
            invariant
                self.wf(),
                i <= self.curve_approx@.len(),
                forall|j: int|
                    0 <= j < i ==> (self.curve_approx@[j].curve, self.curve_approx@[j].boundary)
                        != (curve, boundary),
            decreases self.curve_approx@.len() - i,
        {
            let e = &self.curve_approx[i];
            if e.curve == curve && e.boundary.inner[0] == boundary.inner[0] && e.boundary.inner[1]
                == boundary.inner[1] {
                assert(e.boundary.inner =~= boundary.inner);
                assert(self.curves().contains_key((curve, boundary)));
                let ghost k = choose|j: int|
                    0 <= j < self.curve_approx@.len() && (self.curve_approx@[j].curve,
                    self.curve_approx@[j].boundary) == (curve, boundary);
                assert(k == i as int);
                return Some(i);
            }
            proof {
                if e.boundary == boundary {
                    assert(e.boundary.inner[0] == boundary.inner[0]);
                }
            }
            i = i + 1;
        }
        None
    }

    /// The cached approximation of a curve over a boundary
    ///
    /// Where nothing is stored under the boundary itself but something is
    /// stored under the reversed boundary, that approximation is returned in
    /// reverse order.
    pub fn get_curve_approx(&self, curve: u64, boundary: CurveBoundary<u64>) -> (r: Option<
        Vec<ApproxPoint<C, G>>,
    >)
        requires
            self.wf(),
        ensures
            match r {
                Some(v) => self.lookup(curve, boundary) == Some(v@),
                None => self.lookup(curve, boundary) is None,
            },
    {
        if let Some(i) = self.find_curve(curve, boundary) {
            return Some(copied(&self.curve_approx[i].points));
        }
        let reverse = boundary.reverse();
        if let Some(i) = self.find_curve(curve, reverse) {
            return Some(reversed_copy(&self.curve_approx[i].points));
        }
        None
    }

    /// Store the approximation of a curve over a boundary
    pub fn insert_curve_approx(
        &mut self,
        curve: u64,
        boundary: CurveBoundary<u64>,
        points: Vec<ApproxPoint<C, G>>,
    )
        requires
            old(self).wf(),
        ensures
            final(self).wf(),
            final(self).curves() == old(self).curves().insert((curve, boundary), points@),
            final(self).start_positions() == old(self).start_positions(),
    {
        let ghost p = points@;
        let found = self.find_curve(curve, boundary);
        match found {
            Some(i) => {
                let entry = CurveApproxEntry { curve, boundary, points };
                let ghost before = *self;
                self.curve_approx.set(i, entry);
                proof {
                    self.lemma_curves_set(before, i as int, curve, boundary, p);
                }
            },
            None => {
                let entry = CurveApproxEntry { curve, boundary, points };
                let ghost before = *self;
                self.curve_approx.push(entry);
                proof {
                    self.lemma_curves_push(before, curve, boundary, p);
                }
            },
        }
    }

    proof fn lemma_curves_set(
        &self,
        before: Self,
        i: int,
        curve: u64,
        boundary: CurveBoundary<u64>,
        points: Seq<ApproxPoint<C, G>>,
    )
        requires
            before.wf(),
            0 <= i < before.curve_approx@.len(),
            before.curve_approx@[i].curve == curve,
            before.curve_approx@[i].boundary == boundary,
            self.curve_approx@.len() == before.curve_approx@.len(),
            forall|j: int|
                0 <= j < self.curve_approx@.len() && j != i ==> self.curve_approx@[j]
                    == before.curve_approx@[j],
            self.curve_approx@[i].curve == curve,
            self.curve_approx@[i].boundary == boundary,
            self.curve_approx@[i].points@ == points,
            self.start_position@ == before.start_position@,
        ensures
            self.wf(),
            self.curves() == before.curves().insert((curve, boundary), points),
            self.start_positions() == before.start_positions(),
    {
        let m = self.curves();
        let e = before.curves().insert((curve, boundary), points);
        assert forall|k: CurveKey| m.contains_key(k) <==> e.contains_key(k) by {
            if e.contains_key(k) && k != (curve, boundary) {
                let j = choose|j: int|
                    0 <= j < before.curve_approx@.len() && (before.curve_approx@[j].curve,
                    before.curve_approx@[j].boundary) == k;
                assert((self.curve_approx@[j].curve, self.curve_approx@[j].boundary) == k);
            }
            if k == (curve, boundary) {
                assert((self.curve_approx@[i].curve, self.curve_approx@[i].boundary) == k);
            }
            if m.contains_key(k) {
                let j = choose|j: int|
                    0 <= j < self.curve_approx@.len() && (self.curve_approx@[j].curve,
                    self.curve_approx@[j].boundary) == k;
                if j != i {
                    assert((before.curve_approx@[j].curve, before.curve_approx@[j].boundary) == k);
                }
            }
        }
        assert forall|k: CurveKey| #[trigger] m.contains_key(k) implies m[k] == e[k] by {
            let j = choose|j: int|
                0 <= j < self.curve_approx@.len() && (self.curve_approx@[j].curve,
                self.curve_approx@[j].boundary) == k;
            if k != (curve, boundary) {
                assert(j != i);
                let l = choose|l: int|
                    0 <= l < before.curve_approx@.len() && (before.curve_approx@[l].curve,
                    before.curve_approx@[l].boundary) == k;
                assert((before.curve_approx@[j].curve, before.curve_approx@[j].boundary) == k);
            } else {
                assert(j == i);
            }
        }
        assert(m =~= e);
        assert(self.start_positions() =~= before.start_positions());
    }

    proof fn lemma_curves_push(
        &self,
        before: Self,
        curve: u64,
        boundary: CurveBoundary<u64>,
        points: Seq<ApproxPoint<C, G>>,
    )
        requires
            before.wf(),
            !before.curves().contains_key((curve, boundary)),
            self.curve_approx@.len() == before.curve_approx@.len() + 1,
            forall|j: int|
                0 <= j < before.curve_approx@.len() ==> self.curve_approx@[j]
                    == before.curve_approx@[j],
            self.curve_approx@.last().curve == curve,
            self.curve_approx@.last().boundary == boundary,
            self.curve_approx@.last().points@ == points,
            self.start_position@ == before.start_position@,
        ensures
            self.wf(),
            self.curves() == before.curves().insert((curve, boundary), points),
            self.start_positions() == before.start_positions(),
    {
        let n = before.curve_approx@.len() as int;
        assert forall|j: int| 0 <= j < n implies (before.curve_approx@[j].curve,
            before.curve_approx@[j].boundary) != (curve, boundary) by {
            if (before.curve_approx@[j].curve, before.curve_approx@[j].boundary) == (curve, boundary) {
                assert(before.curves().contains_key((curve, boundary)));
            }
        }
        let m = self.curves();
        let e = before.curves().insert((curve, boundary), points);
        assert forall|k: CurveKey| m.contains_key(k) <==> e.contains_key(k) by {
            if e.contains_key(k) && k != (curve, boundary) {
                let j = choose|j: int|
                    0 <= j < before.curve_approx@.len() && (before.curve_approx@[j].curve,
                    before.curve_approx@[j].boundary) == k;
                assert((self.curve_approx@[j].curve, self.curve_approx@[j].boundary) == k);
            }
            if k == (curve, boundary) {
                assert((self.curve_approx@[n].curve, self.curve_approx@[n].boundary) == k);
            }
            if m.contains_key(k) {
                let j = choose|j: int|
                    0 <= j < self.curve_approx@.len() && (self.curve_approx@[j].curve,
                    self.curve_approx@[j].boundary) == k;
                if j != n {
                    assert((before.curve_approx@[j].curve, before.curve_approx@[j].boundary) == k);
                }
            }
        }
        assert forall|k: CurveKey| #[trigger] m.contains_key(k) implies m[k] == e[k] by {
            let j = choose|j: int|
                0 <= j < self.curve_approx@.len() && (self.curve_approx@[j].curve,
                self.curve_approx@[j].boundary) == k;
            if k != (curve, boundary) {
                assert(j != n);
                let l = choose|l: int|
                    0 <= l < before.curve_approx@.len() && (before.curve_approx@[l].curve,
                    before.curve_approx@[l].boundary) == k;
                assert((before.curve_approx@[j].curve, before.curve_approx@[j].boundary) == k);
            } else {
                assert(j == n);
            }
        }
        assert(m =~= e);
        assert(self.start_positions() =~= before.start_positions());
    }
}

/// A curve approximation that was stored under a boundary is found, in
/// reverse order, under the reversed boundary, unless something is stored
/// under the reversed boundary itself.
pub proof fn lemma_lookup_reversed_after_insert<C: Copy, G: Copy>(
    before: EdgeApproxCache<C, G>,
    after: EdgeApproxCache<C, G>,
    curve: u64,
    boundary: CurveBoundary<u64>,
    points: Seq<ApproxPoint<C, G>>,
)
    requires
        after.curves() == before.curves().insert((curve, boundary), points),
        boundary.start() != boundary.end(),
        !before.curves().contains_key((curve, boundary.reversed())),
    ensures
        after.lookup(curve, boundary.reversed()) == Some(reversed(points)),
        after.lookup(curve, boundary) == Some(points),
{
    broadcast use vstd::array::group_array_axioms;

    lemma_reverse_involutive(boundary);
    assert(boundary.reversed() != boundary) by {
        assert(boundary.reversed().inner[0] == boundary.inner[1]);
    }
}

} // verus!
