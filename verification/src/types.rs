//! Rays, materials, hits, the choice of the nearest hit, and the coordinate
//! frame of a placed shape.

use vstd::prelude::*;
use crate::scalar::Scalar;
use crate::vector::{Mat4, Vec3};

verus! {

/// How a surface answers light. Shading reads `color` and `ambient`; the other
/// fields are carried along unread.
#[derive(Clone, Copy, Debug, PartialEq, Eq)]
pub struct Material {
    pub color: Vec3,
    pub ambient: Scalar,
    pub reflection: Scalar,
    pub shininess: Scalar,
    pub specular_coef: Scalar,
}

/// Where a ray meets a surface: the ray parameter, the surface normal there,
/// and the surface's material.
#[derive(Clone, Copy, Debug, PartialEq, Eq)]
pub struct Hit {
    pub t: Scalar,
    pub normal: Vec3,
    pub material: Material,
}

impl Material {
    /// The ambient share lies in `[0, 1]`.
    pub open spec fn well_formed(self) -> bool {
        Scalar::spec_zero().spec_le(self.ambient) && self.ambient.spec_le(Scalar::spec_one())
    }

    /// A surface with a positive ambient share gives light of its own.
    pub open spec fn spec_is_emissive(&self) -> bool {
        self.ambient.spec_is_positive()
    }

    /// Whether the ambient share lies in `[0, 1]`.
    pub fn is_well_formed(&self) -> (r: bool)
        ensures
            r == self.well_formed(),
    {
        Scalar::zero().le(self.ambient) && self.ambient.le(Scalar::one())
    }

    /// Whether the surface gives light of its own: its ambient share is positive.
    #[verifier::when_used_as_spec(spec_is_emissive)]
    pub fn is_emissive(&self) -> (r: bool)
        ensures
            r == self.spec_is_emissive(),
    {
        self.ambient.is_positive()
    }
}

impl Hit {
    /// A hit lies in front of the ray's origin: `t > 0`.
    pub open spec fn valid(self) -> bool {
        self.t.spec_is_positive()
    }

    pub fn new(t: Scalar, normal: Vec3, material: Material) -> (r: Hit)
        ensures
            r == (Hit { t, normal, material }),
    {
        Hit { t, normal, material }
    }

    /// Whether the hit lies in front of the ray's origin.
    pub fn is_valid(&self) -> (r: bool)
        ensures
            r == self.valid(),
    {
        self.t.is_positive()
    }

    /// The hit as seen from the frame around a placed shape. The ray parameter
    /// is the same in both frames and the material stays; only the normal
    /// changes, to the one given.
    pub fn to_global_coordinates(&self, normal: Vec3) -> (r: Hit)
        ensures
            r == (Hit { t: self.t, normal, material: self.material }),
            r.valid() == self.valid(),
    {
        Hit { t: self.t, normal, material: self.material }
    }
}

/// The better of the best hit so far and the next candidate: the candidate
/// wins unless the best so far is strictly nearer.
pub open spec fn nearer(best: Option<Hit>, next: Option<Hit>) -> Option<Hit> {
    match (best, next) {
        (_, None) => best,
        (None, Some(_)) => next,
        (Some(b), Some(n)) => if b.t.spec_lt(n.t) {
            best
        } else {
            next
        },
    }
}

/// The hit that a left-to-right pass over the candidates ends with.
pub open spec fn first_hit(candidates: Seq<Option<Hit>>) -> Option<Hit>
    decreases candidates.len(),
{
    if candidates.len() == 0 {
        None
    } else {
        nearer(first_hit(candidates.drop_last()), candidates.last())
    }
}

/// No candidate's ray parameter is a NaN.
pub open spec fn all_ordered(candidates: Seq<Option<Hit>>) -> bool {
    forall|i: int|
        0 <= i < candidates.len() ==> (#[trigger] candidates[i] matches Some(h)
            ==> !h.t.spec_is_nan())
}

/// What the pass ends with is none exactly when there is no candidate, and
/// otherwise one of the candidates; where no ray parameter is a NaN, none of
/// the candidates is nearer than it.
pub proof fn lemma_first_hit(candidates: Seq<Option<Hit>>)
    ensures
        first_hit(candidates) is None <==> forall|i: int|
            0 <= i < candidates.len() ==> #[trigger] candidates[i] is None,
        first_hit(candidates) is Some ==> exists|i: int|
            0 <= i < candidates.len() && #[trigger] candidates[i] == first_hit(candidates),
        all_ordered(candidates) ==> forall|i: int|
            0 <= i < candidates.len() ==> (#[trigger] candidates[i] matches Some(h)
                ==> first_hit(candidates)->Some_0.t.spec_le(h.t)),
    decreases candidates.len(),
{
    if candidates.len() > 0 {
        let front = candidates.drop_last();
        let last = candidates.len() - 1;
        lemma_first_hit(front);
        assert forall|i: int| 0 <= i < front.len() implies front[i] == candidates[i] by {}
        if first_hit(candidates) is None {
            assert forall|i: int| 0 <= i < candidates.len() implies #[trigger] candidates[i]
                is None by {
                if i < last {
                    assert(front[i] is None);
                }
            }
        }
        if first_hit(candidates) is Some {
            if first_hit(candidates) == candidates[last] {
            } else {
                let i = choose|i: int| 0 <= i < front.len() && #[trigger] front[i] == first_hit(front);
                assert(candidates[i] == first_hit(candidates));
            }
        }
        if forall|i: int| 0 <= i < candidates.len() ==> #[trigger] candidates[i] is None {
            assert forall|i: int| 0 <= i < front.len() implies #[trigger] front[i] is None by {
                assert(candidates[i] is None);
            }
            assert(candidates[last] is None);
        }
        if all_ordered(candidates) {
            assert(all_ordered(front)) by {
                assert forall|i: int| 0 <= i < front.len() implies (#[trigger] front[i] matches Some(
                    h,
                ) ==> !h.t.spec_is_nan()) by {
                    assert(front[i] == candidates[i]);
                }
            }
            let best = first_hit(candidates);
            assert forall|i: int| 0 <= i < candidates.len() implies (#[trigger] candidates[i] matches Some(
                h,
            ) ==> best->Some_0.t.spec_le(h.t)) by {
                if candidates[i] is Some {
                    if i < last {
                        assert(front[i] == candidates[i]);
                        assert(first_hit(front) is Some);
                        let j = choose|j: int| 0 <= j < front.len() && #[trigger] front[j] == first_hit(front);
                        assert(candidates[j] == front[j]);
                    } else {
                        if first_hit(front) is Some {
                            let j = choose|j: int| 0 <= j < front.len() && #[trigger] front[j] == first_hit(front);
                            assert(candidates[j] == front[j]);
                        }
                    }
                }
            }
        }
    }
}

/// A candidate that is strictly nearer than every other candidate is the one
/// the pass ends with, wherever it stands among them.
pub proof fn lemma_strictly_nearest_wins(candidates: Seq<Option<Hit>>, winner: int)
    requires
        0 <= winner < candidates.len(),
        candidates[winner] is Some,
        forall|j: int|
            0 <= j < candidates.len() && j != winner ==> (#[trigger] candidates[j] matches Some(g)
                ==> candidates[winner]->Some_0.t.spec_lt(g.t)),
    ensures
        first_hit(candidates) == candidates[winner],
    decreases candidates.len(),
{
    let front = candidates.drop_last();
    let last = candidates.len() - 1;
    let w = candidates[winner]->Some_0;
    if winner == last {
        lemma_first_hit(front);
        if first_hit(front) is Some {
            let j = choose|j: int| 0 <= j < front.len() && #[trigger] front[j] == first_hit(front);
            assert(candidates[j] == front[j]);
            assert(w.t.spec_lt(first_hit(front)->Some_0.t));
        }
    } else {
        assert(front[winner] == candidates[winner]);
        assert forall|j: int| 0 <= j < front.len() && j != winner implies (#[trigger] front[j] matches Some(
            g,
        ) ==> front[winner]->Some_0.t.spec_lt(g.t)) by {
            assert(front[j] == candidates[j]);
        }
        lemma_strictly_nearest_wins(front, winner);
        assert(candidates[last] matches Some(g) ==> w.t.spec_lt(g.t));
    }
}

/// The better of the best hit so far and the next candidate: the candidate
/// wins unless the best so far is strictly nearer.
pub fn closer(best: Option<Hit>, next: Option<Hit>) -> (r: Option<Hit>)
    ensures
        r == nearer(best, next),
        r == best || r == next,
{
    match (best, next) {
        (_, None) => best,
        (None, Some(_)) => next,
        (Some(b), Some(n)) => if b.t.lt(n.t) {
            best
        } else {
            next
        },
    }
}

/// The nearest of the candidate hits, by one pass from left to right: a
/// candidate replaces the best so far unless the best so far is strictly
/// nearer, so of two equally near hits the later one is returned.
pub fn find_first_hit(candidates: Vec<Option<Hit>>) -> (r: Option<Hit>)
    ensures
        r == first_hit(candidates@),
        r is None <==> forall|i: int| 0 <= i < candidates.len() ==> #[trigger] candidates[i] is None,
        r is Some ==> exists|i: int| 0 <= i < candidates.len() && #[trigger] candidates[i] == r,
        all_ordered(candidates@) ==> forall|i: int|
            0 <= i < candidates.len() ==> (#[trigger] candidates[i] matches Some(h)
                ==> r->Some_0.t.spec_le(h.t)),
{
    let mut best: Option<Hit> = None;
    let mut i: usize = 0;
    while i < candidates.len()
        invariant
            i <= candidates.len(),
            best == first_hit(candidates@.take(i as int)),
        decreases candidates.len() - i,
    {
        let next: Option<Hit> = candidates[i];
        proof {
            assert(candidates@.take(i + 1).drop_last() =~= candidates@.take(i as int));
        }
        best = closer(best, next);
        i = i + 1;
    }
    proof {
        assert(candidates@.take(i as int) =~= candidates@);
        lemma_first_hit(candidates@);
    }
    best
}

/// Why a frame cannot be built.
#[derive(Clone, Copy, Debug, PartialEq, Eq)]
pub enum TransformError {
    /// The matrix has determinant zero, so there is no way back from it.
    Singular,
    /// The matrix, its determinant or its inverse holds an infinity or a NaN.
    NotFinite,
}

/// The frame of a placed shape: the matrix that takes the shape's own
/// coordinates to the surrounding ones, with its inverse, which takes rays the
/// other way and whose transpose turns normals.
#[derive(Clone, Copy, Debug, PartialEq, Eq)]
pub struct Transform {
    matrix: Mat4,
    inverse: Mat4,
}

impl Transform {
    pub closed spec fn spec_matrix(&self) -> Mat4 {
        self.matrix
    }

    pub closed spec fn spec_inverse(&self) -> Mat4 {
        self.inverse
    }

    /// Every frame that `new` hands out has finite entries both ways.
    pub open spec fn well_formed(self) -> bool {
        self.spec_matrix().spec_is_finite() && self.spec_inverse().spec_is_finite()
    }

    /// What `new` answers for a matrix, its determinant and its inverse.
    pub open spec fn checked(matrix: Mat4, determinant: Scalar, inverse: Mat4) -> Option<
        TransformError,
    > {
        if !matrix.spec_is_finite() || !determinant.spec_is_finite() {
            Some(TransformError::NotFinite)
        } else if determinant.same_value(Scalar::spec_zero()) {
            Some(TransformError::Singular)
        } else if !inverse.spec_is_finite() {
            Some(TransformError::NotFinite)
        } else {
            None
        }
    }

    /// The frame of a matrix, given its determinant and its inverse as the
    /// caller computed them. A matrix with determinant zero is refused as
    /// singular; a matrix, determinant or inverse with an infinity or a NaN
    /// is refused as not finite.
    pub fn new(matrix: Mat4, determinant: Scalar, inverse: Mat4) -> (r: Result<
        Transform,
        TransformError,
    >)
        ensures
            match r {
                Ok(t) => Transform::checked(matrix, determinant, inverse) is None
                    && t.spec_matrix() == matrix && t.spec_inverse() == inverse && t.well_formed(),
                Err(e) => Transform::checked(matrix, determinant, inverse) == Some(e),
            },
    {
        if !matrix.is_finite() || !determinant.is_finite() {
            Err(TransformError::NotFinite)
        } else if determinant.to_bits() == 0 || determinant.to_bits() == crate::scalar::SIGN_BIT {
            Err(TransformError::Singular)
        } else if !inverse.is_finite() {
            Err(TransformError::NotFinite)
        } else {
            Ok(Transform { matrix, inverse })
        }
    }

    /// The matrix from the shape's coordinates to the surrounding ones.
    #[verifier::when_used_as_spec(spec_matrix)]
    pub fn matrix(&self) -> (r: Mat4)
        ensures
            r == self.spec_matrix(),
    {
        self.matrix
    }

    /// The matrix from the surrounding coordinates to the shape's own.
    #[verifier::when_used_as_spec(spec_inverse)]
    pub fn inverse(&self) -> (r: Mat4)
        ensures
            r == self.spec_inverse(),
    {
        self.inverse
    }
}

} // verus!
