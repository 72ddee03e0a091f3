//! Validation checks on faces and shells
//!
//! The checks report findings as values; they change nothing. What they
//! measure (the winding of a cycle, the distance between two points) is
//! supplied by the caller.

use vstd::prelude::*;

use crate::topology::Objects;

verus! {

/// The rotational sense of a cycle in the coordinates of its surface
#[derive(Clone, Copy, Debug, PartialEq, Eq, Structural)]
pub enum Winding {
    /// Counter-clockwise
    Ccw,
    /// Clockwise
    Cw,
}

impl Winding {
    /// The opposite winding
    pub open spec fn opposite(self) -> Winding {
        match self {
            Winding::Ccw => Winding::Cw,
            Winding::Cw => Winding::Ccw,
        }
    }

    /// The opposite winding
    pub fn reverse(self) -> (r: Winding)
        ensures
            r == self.opposite(),
    {
        match self {
            Winding::Ccw => Winding::Cw,
            Winding::Cw => Winding::Ccw,
        }
    }
}

/// A finding of the face validation
#[derive(Clone, Copy, Debug, PartialEq, Eq, Structural)]
pub enum FaceValidationError {
    /// An interior cycle of the face has the winding of the exterior cycle; it
    /// must have the opposite one
    InvalidInteriorWinding {
        /// The winding of the exterior cycle
        exterior_winding: Winding,
        /// The winding of the interior cycle
        interior_winding: Winding,
        /// The position of the interior cycle among the face's interiors
        interior: usize,
    },
}

/// The findings of the interior winding check on the first `n` interiors
///
/// A winding of `None` stands for a cycle without half-edges, whose winding is
/// undefined and which is skipped.
pub open spec fn winding_errors(
    exterior: Winding,
    interiors: Seq<Option<Winding>>,
    n: int,
) -> Seq<FaceValidationError>
    decreases n,
{
    if n <= 0 {
        Seq::empty()
    } else {
        let earlier = winding_errors(exterior, interiors, n - 1);
        if interiors[n - 1] == Some(exterior) {
            earlier.push(
                FaceValidationError::InvalidInteriorWinding {
                    exterior_winding: exterior,
                    interior_winding: exterior,
                    interior: (n - 1) as usize,
                },
            )
        } else {
            earlier
        }
    }
}

/// All findings of the interior winding check
pub open spec fn interior_winding_errors(
    exterior: Option<Winding>,
    interiors: Seq<Option<Winding>>,
) -> Seq<FaceValidationError> {
    match exterior {
        None => Seq::empty(),
        Some(w) => winding_errors(w, interiors, interiors.len() as int),
    }
}

impl FaceValidationError {
    /// Check that each interior cycle of a face winds opposite to the exterior
    ///
    /// The windings are those of the face's exterior and interior cycles, `None`
    /// for a cycle without half-edges. Where the exterior has no winding nothing
    /// is checked; an interior without one is skipped. A finding is added for
    /// each interior whose winding equals the exterior's, in the order of the
    /// interiors.
    pub fn check_interior_winding(
        exterior: Option<Winding>,
        interiors: &Vec<Option<Winding>>,
        errors: &mut Vec<FaceValidationError>,
    )
        ensures
            final(errors)@ == old(errors)@ + interior_winding_errors(exterior, interiors@),
    {
        let exterior_winding = match exterior {
            None => {
                assert(old(errors)@ + Seq::<FaceValidationError>::empty() =~= old(errors)@);
                return ;
            },
            Some(w) => w,
        };
        let mut i: usize = 0;
        while i < interiors.len()
            invariant
                i <= interiors@.len(),
                errors@ == old(errors)@ + winding_errors(exterior_winding, interiors@, i as int),
            decreases interiors@.len() - i,
        {
            match interiors[i] {
                None => {},
                Some(interior_winding) => {
                    if interior_winding == exterior_winding {
                        errors.push(
                            FaceValidationError::InvalidInteriorWinding {
                                exterior_winding,
                                interior_winding,
                                interior: i,
                            },
                        );
                    }
                },
            }
            i = i + 1;
            assert(errors@ =~= old(errors)@ + winding_errors(exterior_winding, interiors@, i as int));
        }
    }
}

/// The pairs of positions `(i, j)` of `edges`, in lexicographic order, whose
/// half-edges refer to the same curve without being the same half-edge; `edges`
/// holds the handles of half-edges with those of their surfaces
pub open spec fn mismatch_candidates<P: Copy, B: Copy>(
    objects: Objects<P, B>,
    edges: Seq<(usize, u64)>,
    n: int,
) -> Seq<(usize, usize)>
    decreases n,
{
    if n <= 0 {
        Seq::empty()
    } else {
        let earlier = mismatch_candidates(objects, edges, n - 1);
        let k = n - 1;
        let i = k / edges.len() as int;
        let j = k % edges.len() as int;
        if edges[i].0 != edges[j].0 && objects.half_edge_of(edges[i].0).curve == objects.half_edge_of(
            edges[j].0,
        ).curve {
            earlier.push((i as usize, j as usize))
        } else {
            earlier
        }
    }
}

/// The pairs of half-edges that the curve geometry check compares
///
/// Every ordered pair of positions in `edges` is visited, row by row; a pair is
/// kept where both half-edges refer to the same curve and are not the same
/// half-edge. For each pair, the caller compares the two half-edges' views of
/// the curve in 3D.
pub fn curve_mismatch_candidates<P: Copy, B: Copy>(
    objects: &Objects<P, B>,
    edges: &Vec<(usize, u64)>,
) -> (r: Vec<(usize, usize)>)
    requires
        forall|i: int| 0 <= i < edges@.len() ==> #[trigger] edges@[i].0 < objects.stored().len(),
        edges@.len() * edges@.len() <= usize::MAX,
    ensures
        r@ == mismatch_candidates(*objects, edges@, (edges@.len() * edges@.len()) as int),
{
    let n = edges.len();
    let mut r: Vec<(usize, usize)> = Vec::new();
    let mut i: usize = 0;
    while i < n
        invariant
            n == edges@.len(),
            n * n <= usize::MAX,
            forall|k: int| 0 <= k < edges@.len() ==> #[trigger] edges@[k].0 < objects.stored().len(),
            i <= n,
            r@ == mismatch_candidates(*objects, edges@, (i * n) as int),
        decreases n - i,
    {
        let mut j: usize = 0;
        while j < n
            invariant
                n == edges@.len(),
                n * n <= usize::MAX,
                forall|k: int| 0 <= k < edges@.len() ==> #[trigger] edges@[k].0 < objects.stored().len(),
                i < n,
                j <= n,
                r@ == mismatch_candidates(*objects, edges@, (i * n + j) as int),
            decreases n - j,
        {
            let (a, _) = edges[i];
            let (b, _) = edges[j];
            proof {
                let k = i * n + j;
                assert(k / (n as int) == i as int && k % (n as int) == j as int) by (nonlinear_arith)
                    requires
                        k == i * n + j,
                        j < n,
                ;
            }
            if a != b && objects.half_edge(a).curve == objects.half_edge(b).curve {
                r.push((i, j));
            }
            j = j + 1;
        }
        proof {
            assert(i * n + n == (i + 1) * n) by (nonlinear_arith);
        }
        i = i + 1;
    }
    r
}

} // verus!
