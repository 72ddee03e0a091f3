//! Boundaries on curves

use vstd::prelude::*;

verus! {

/// An ordered pair of values on a curve, delimiting the part of the curve that
/// a half-edge occupies
///
/// The order matters: `[a, b]` and `[b, a]` describe the same part of the
/// curve, traversed in opposite directions.
#[derive(Clone, Copy, Debug, PartialEq, Eq, Hash)]
pub struct CurveBoundary<T> {
    /// The start and the end of the boundary
    pub inner: [T; 2],
}

impl<T: Copy> CurveBoundary<T> {
    /// The start of the boundary
    pub open spec fn start(self) -> T {
        self.inner@[0]
    }

    /// The end of the boundary
    pub open spec fn end(self) -> T {
        self.inner@[1]
    }

    /// The boundary with start and end swapped
    pub open spec fn reversed(self) -> Self {
        CurveBoundary { inner: [self.inner@[1], self.inner@[0]] }
    }

    /// Construct a boundary from its start and end
    pub fn new(start: T, end: T) -> (r: Self)
        ensures
            r.start() == start,
            r.end() == end,
    {
        CurveBoundary { inner: [start, end] }
    }

    /// Swap start and end
    pub fn reverse(self) -> (r: Self)
        ensures
            r == self.reversed(),
            r.start() == self.end(),
            r.end() == self.start(),
    {
        CurveBoundary { inner: [self.inner[1], self.inner[0]] }
    }
}

/// Reversing a boundary twice gives the boundary back.
pub proof fn lemma_reverse_involutive<T: Copy>(b: CurveBoundary<T>)
    ensures
        b.reversed().reversed() == b,
{
    broadcast use vstd::array::group_array_axioms;

    assert(b.reversed().reversed().inner =~= b.inner);
}

} // verus!
