//! The surfaces of a scene and the decision of where a ray meets them.
//!
//! Meeting a surface takes arithmetic and decisions. The arithmetic (dot
//! products, quotients, roots) rounds, and is the caller's: it measures the ray
//! against the shape and records what it found in a [`Probe`]. The decisions
//! are made here, on that record: whether there is a hit at all, which of
//! several candidate surfaces is met first, and which normal belongs to it.

use vstd::prelude::*;
use crate::scalar::Scalar;
use crate::types::{closer, find_first_hit, first_hit, lemma_first_hit, Hit, Material, Transform};
use crate::vector::{Axis, Vec3};

verus! {

/// A surface, in its own unit-sized frame. Size and place come from wrapping
/// it in a `TransformedShape`.
pub enum Shape {
    /// The cube `[-1, 1]^3`.
    UnitBox { material: Material },
    /// The points at distance `radius` from `center`.
    Sphere { center: Vec3, radius: Scalar, material: Material },
    /// The points `p` with `normal . p = d`.
    Plane { normal: Vec3, d: Scalar, material: Material },
    /// Radius one around the z axis, from `z = 0` to `z = 1`, with both caps.
    Cylinder { material: Material },
    /// Radius one at `z = 0`, narrowing to a point at `z = 1`, with its base.
    Cone { material: Material },
    /// A shape placed in the frame around it.
    TransformedShape { shape: Box<Shape>, transform: Transform },
    /// The unit disk at `z = 0`.
    Disk { material: Material },
}

/// Where a ray crosses one of the two planes that bound a slab.
#[derive(Clone, Copy, Debug, PartialEq, Eq)]
pub struct Crossing {
    /// The ray parameter of the crossing.
    pub t: Scalar,
    /// The coordinate, along the slab's axis, of the ray's point at `t`.
    pub coordinate: Scalar,
}

/// A ray against the slab between the planes at `-1` and `+1` on one axis.
#[derive(Clone, Copy, Debug, PartialEq, Eq)]
pub struct Slab {
    /// The ray direction's component along the axis.
    pub direction: Scalar,
    /// The crossing of the plane at `-1`.
    pub low: Crossing,
    /// The crossing of the plane at `+1`.
    pub high: Crossing,
}

/// A ray against a plane.
#[derive(Clone, Copy, Debug, PartialEq, Eq)]
pub struct PlaneProbe {
    /// The plane's normal times the ray's direction.
    pub cos: Scalar,
    /// The ray parameter at which the ray is on the plane.
    pub t: Scalar,
    /// The plane's normal at unit length.
    pub normal: Vec3,
}

/// A ray against the plane of a cap of radius one.
#[derive(Clone, Copy, Debug, PartialEq, Eq)]
pub struct CapProbe {
    /// The ray parameter at which the ray is on the cap's plane.
    pub t: Scalar,
    /// The squared distance of that point from the axis.
    pub radius_sq: Scalar,
}

/// The two solutions of a quadratic equation in the ray parameter.
#[derive(Clone, Copy, Debug, PartialEq, Eq)]
pub struct Roots {
    pub discriminant: Scalar,
    pub first: Scalar,
    pub second: Scalar,
}

/// One of the two solutions.
#[derive(Clone, Copy, Debug, PartialEq, Eq)]
pub enum Root {
    First,
    Second,
}

/// The ray's point at a solution, and the surface's normal there.
#[derive(Clone, Copy, Debug, PartialEq, Eq)]
pub struct Surface {
    pub point: Vec3,
    pub normal: Vec3,
}

/// A ray against a curved surface given by a quadratic equation.
#[derive(Clone, Copy, Debug, PartialEq, Eq)]
pub struct QuadricProbe {
    pub roots: Roots,
    pub at_first: Surface,
    pub at_second: Surface,
}

/// What the arithmetic found of one ray against one shape.
pub enum Probe {
    UnitBox { x: Slab, y: Slab, z: Slab },
    Sphere { surface: QuadricProbe },
    Plane { plane: PlaneProbe },
    Cylinder { top: CapProbe, bottom: CapProbe, side: QuadricProbe },
    Cone { base: CapProbe, side: QuadricProbe },
    /// The probe of the inner shape with the ray taken to its frame, and the
    /// normal of the inner hit, if there is one, taken to the frame around it.
    TransformedShape { local: Box<Probe>, normal: Vec3 },
    Disk { cap: CapProbe },
}

/// The running greatest entry, or least exit, of a ray through the slabs.
#[derive(Clone, Copy, Debug, PartialEq, Eq)]
pub struct Bound {
    pub t: Scalar,
    /// The axis whose slab gave the bound and the coordinate of the crossing;
    /// none while no slab has.
    pub face: Option<(Axis, Scalar)>,
}

impl Slab {
    /// The crossing by which the ray enters the slab: the plane at `+1` for a
    /// ray that runs down the axis, the plane at `-1` otherwise. Which way the
    /// ray runs is read off the sign bit, so that a direction of `-0.0`, whose
    /// crossings lie at the infinities, has them the right way round.
    pub open spec fn spec_near(self) -> Crossing {
        if self.direction.sign_negative() {
            self.high
        } else {
            self.low
        }
    }

    /// The crossing by which the ray leaves the slab.
    pub open spec fn spec_far(self) -> Crossing {
        if self.direction.sign_negative() {
            self.low
        } else {
            self.high
        }
    }

    /// The crossing by which the ray enters the slab.
    #[verifier::when_used_as_spec(spec_near)]
    pub fn near(self) -> (r: Crossing)
        ensures
            r == self.spec_near(),
    {
        if self.direction.is_sign_negative() {
            self.high
        } else {
            self.low
        }
    }

    /// The crossing by which the ray leaves the slab.
    #[verifier::when_used_as_spec(spec_far)]
    pub fn far(self) -> (r: Crossing)
        ensures
            r == self.spec_far(),
    {
        if self.direction.is_sign_negative() {
            self.low
        } else {
            self.high
        }
    }
}

impl Bound {
    /// The bound before any slab: below every entry that counts.
    pub open spec fn floor() -> Bound {
        Bound { t: Scalar::spec_smallest(), face: None }
    }

    /// The bound before any slab: above every exit that counts.
    pub open spec fn ceiling() -> Bound {
        Bound { t: Scalar::spec_largest(), face: None }
    }

    /// The bound after a further entry: the crossing replaces it only when it
    /// is strictly later.
    pub open spec fn spec_raise(self, axis: Axis, crossing: Crossing) -> Bound {
        if self.t.spec_lt(crossing.t) {
            Bound { t: crossing.t, face: Some((axis, crossing.coordinate)) }
        } else {
            self
        }
    }

    /// The bound after a further exit: the crossing replaces it only when it
    /// is strictly earlier.
    pub open spec fn spec_lower(self, axis: Axis, crossing: Crossing) -> Bound {
        if crossing.t.spec_lt(self.t) {
            Bound { t: crossing.t, face: Some((axis, crossing.coordinate)) }
        } else {
            self
        }
    }

    #[verifier::when_used_as_spec(spec_raise)]
    pub fn raise(self, axis: Axis, crossing: Crossing) -> (r: Bound)
        ensures
            r == self.spec_raise(axis, crossing),
    {
        if self.t.lt(crossing.t) {
            Bound { t: crossing.t, face: Some((axis, crossing.coordinate)) }
        } else {
            self
        }
    }

    #[verifier::when_used_as_spec(spec_lower)]
    pub fn lower(self, axis: Axis, crossing: Crossing) -> (r: Bound)
        ensures
            r == self.spec_lower(axis, crossing),
    {
        if crossing.t.lt(self.t) {
            Bound { t: crossing.t, face: Some((axis, crossing.coordinate)) }
        } else {
            self
        }
    }
}

/// The latest of the three entries, with the first axis that gives it.
pub open spec fn box_entry(x: Slab, y: Slab, z: Slab) -> Bound {
    Bound::floor().spec_raise(Axis::X, x.spec_near()).spec_raise(Axis::Y, y.spec_near()).spec_raise(
        Axis::Z,
        z.spec_near(),
    )
}

/// The earliest of the three exits, with the first axis that gives it.
pub open spec fn box_exit(x: Slab, y: Slab, z: Slab) -> Bound {
    Bound::ceiling().spec_lower(Axis::X, x.spec_far()).spec_lower(Axis::Y, y.spec_far()).spec_lower(
        Axis::Z,
        z.spec_far(),
    )
}

/// Where a ray meets the unit box. The ray is inside all three slabs from
/// its latest entry to its earliest exit, so it meets the box when the entry
/// is not after the exit: at the entry, if that lies ahead, else at the exit,
/// if that does. The normal runs along the axis of the slab that gave the
/// bound, to the side on which the crossing lies.
pub open spec fn box_hit(x: Slab, y: Slab, z: Slab, material: Material) -> Option<Hit> {
    let entry = box_entry(x, y, z);
    let exit = box_exit(x, y, z);
    let chosen = if entry.t.spec_is_positive() {
        entry
    } else {
        exit
    };
    if entry.t.spec_le(exit.t) && chosen.t.spec_is_positive() && chosen.face is Some {
        let (axis, coordinate) = chosen.face->Some_0;
        Some(Hit { t: chosen.t, normal: Vec3::spec_along(axis, coordinate.spec_signum()), material })
    } else {
        None
    }
}

/// The entry is no earlier than any of the three near crossings and no
/// earlier than the floor, and it is one of them: the floor, or the crossing
/// of the axis it names.
pub proof fn lemma_box_entry(x: Slab, y: Slab, z: Slab)
    ensures
        !box_entry(x, y, z).t.spec_lt(x.spec_near().t),
        !box_entry(x, y, z).t.spec_lt(y.spec_near().t),
        !box_entry(x, y, z).t.spec_lt(z.spec_near().t),
        Scalar::spec_smallest().spec_le(box_entry(x, y, z).t),
        match box_entry(x, y, z).face {
            None => box_entry(x, y, z).t == Scalar::spec_smallest(),
            Some((Axis::X, c)) => x.spec_near() == (Crossing { t: box_entry(x, y, z).t, coordinate: c }),
            Some((Axis::Y, c)) => y.spec_near() == (Crossing { t: box_entry(x, y, z).t, coordinate: c }),
            Some((Axis::Z, c)) => z.spec_near() == (Crossing { t: box_entry(x, y, z).t, coordinate: c }),
        },
{
}

/// The exit is no later than any of the three far crossings and no later than
/// the ceiling, and it is one of them: the ceiling, or the crossing of the
/// axis it names.
pub proof fn lemma_box_exit(x: Slab, y: Slab, z: Slab)
    ensures
        !x.spec_far().t.spec_lt(box_exit(x, y, z).t),
        !y.spec_far().t.spec_lt(box_exit(x, y, z).t),
        !z.spec_far().t.spec_lt(box_exit(x, y, z).t),
        box_exit(x, y, z).t.spec_le(Scalar::spec_largest()),
        match box_exit(x, y, z).face {
            None => box_exit(x, y, z).t == Scalar::spec_largest(),
            Some((Axis::X, c)) => x.spec_far() == (Crossing { t: box_exit(x, y, z).t, coordinate: c }),
            Some((Axis::Y, c)) => y.spec_far() == (Crossing { t: box_exit(x, y, z).t, coordinate: c }),
            Some((Axis::Z, c)) => z.spec_far() == (Crossing { t: box_exit(x, y, z).t, coordinate: c }),
        },
{
}

/// A hit of the unit box lies ahead of the ray's origin and inside all three
/// slabs: on no axis does it come before the entry or after the exit. Its
/// ray parameter is that of the latest entry or of the earliest exit.
pub proof fn lemma_box_hit_within_slabs(x: Slab, y: Slab, z: Slab, material: Material)
    ensures
        box_hit(x, y, z, material) matches Some(h) ==> {
            &&& h.valid()
            &&& h.material == material
            &&& h.t == box_entry(x, y, z).t || h.t == box_exit(x, y, z).t
            &&& !h.t.spec_lt(x.spec_near().t) && !x.spec_far().t.spec_lt(h.t)
            &&& !h.t.spec_lt(y.spec_near().t) && !y.spec_far().t.spec_lt(h.t)
            &&& !h.t.spec_lt(z.spec_near().t) && !z.spec_far().t.spec_lt(h.t)
        },
{
    lemma_box_entry(x, y, z);
    lemma_box_exit(x, y, z);
}

/// Where a ray meets the unit box; see [`box_hit`].
pub fn intersect_unit_box(x: Slab, y: Slab, z: Slab, material: &Material) -> (r: Option<Hit>)
    ensures
        r == box_hit(x, y, z, *material),
        r matches Some(h) ==> h.valid(),
{
    let floor = Bound { t: Scalar::smallest(), face: None };
    let ceiling = Bound { t: Scalar::largest(), face: None };
    let entry = floor.raise(Axis::X, x.near()).raise(Axis::Y, y.near()).raise(Axis::Z, z.near());
    let exit = ceiling.lower(Axis::X, x.far()).lower(Axis::Y, y.far()).lower(Axis::Z, z.far());
    if entry.t.le(exit.t) {
        let chosen = if entry.t.is_positive() {
            entry
        } else {
            exit
        };
        if chosen.t.is_positive() {
            match chosen.face {
                Some((axis, coordinate)) => Some(
                    Hit::new(chosen.t, Vec3::along(axis, coordinate.signum()), *material),
                ),
                None => None,
            }
        } else {
            None
        }
    } else {
        None
    }
}

impl PlaneProbe {
    /// Where a ray meets a plane: nowhere when it runs along the plane, the
    /// cosine being within the machine epsilon of zero, and nowhere when the
    /// plane is not ahead of it.
    pub open spec fn hit(self, material: Material) -> Option<Hit> {
        if self.cos.spec_abs().spec_lt(Scalar::spec_epsilon()) || !self.t.spec_is_positive() {
            None
        } else {
            Some(Hit { t: self.t, normal: self.normal, material })
        }
    }
}

/// Where a ray meets a plane; see [`PlaneProbe::hit`].
pub fn intersect_plane(plane: &PlaneProbe, material: &Material) -> (r: Option<Hit>)
    ensures
        r == plane.hit(*material),
        r matches Some(h) ==> h.valid(),
{
    if plane.cos.abs().lt(Scalar::epsilon()) || !plane.t.is_positive() {
        None
    } else {
        Some(Hit::new(plane.t, plane.normal, *material))
    }
}

impl CapProbe {
    /// Where a ray meets a cap of radius one: where it crosses the cap's
    /// plane, if that is ahead and strictly inside the rim.
    pub open spec fn hit(self, normal: Vec3, material: Material) -> Option<Hit> {
        if self.t.spec_is_positive() && self.radius_sq.spec_lt(Scalar::spec_one()) {
            Some(Hit { t: self.t, normal, material })
        } else {
            None
        }
    }
}

/// Where a ray meets a cap of radius one; see [`CapProbe::hit`].
pub fn intersect_cap_with_radius_one(cap: &CapProbe, hit_normal: Vec3, material: &Material) -> (r:
    Option<Hit>)
    ensures
        r == cap.hit(hit_normal, *material),
        r matches Some(h) ==> h.valid(),
{
    if cap.t.is_positive() && cap.radius_sq.lt(Scalar::one()) {
        Some(Hit::new(cap.t, hit_normal, *material))
    } else {
        None
    }
}

impl Roots {
    pub open spec fn spec_get(self, root: Root) -> Scalar {
        match root {
            Root::First => self.first,
            Root::Second => self.second,
        }
    }

    /// The smaller positive solution: none when the discriminant is not at
    /// least zero or neither solution is positive; of two equal positive
    /// solutions the first.
    pub open spec fn smallest_positive(self) -> Option<Root> {
        if !Scalar::spec_zero().spec_le(self.discriminant) {
            None
        } else if self.first.spec_is_positive() {
            if self.second.spec_is_positive() && self.second.spec_lt(self.first) {
                Some(Root::Second)
            } else {
                Some(Root::First)
            }
        } else if self.second.spec_is_positive() {
            Some(Root::Second)
        } else {
            None
        }
    }

    /// The value of one of the two solutions.
    #[verifier::when_used_as_spec(spec_get)]
    pub fn get(self, root: Root) -> (r: Scalar)
        ensures
            r == self.spec_get(root),
    {
        match root {
            Root::First => self.first,
            Root::Second => self.second,
        }
    }
}

/// The smaller positive solution of a quadratic equation, given its
/// discriminant and both solutions.
pub fn solve_quadratic(roots: &Roots) -> (r: Option<Root>)
    ensures
        r == roots.smallest_positive(),
        r is Some <==> Scalar::spec_zero().spec_le(roots.discriminant) && (
        roots.first.spec_is_positive() || roots.second.spec_is_positive()),
        r matches Some(root) ==> {
            &&& roots.spec_get(root).spec_is_positive()
            &&& roots.first.spec_is_positive() ==> roots.spec_get(root).spec_le(roots.first)
            &&& roots.second.spec_is_positive() ==> roots.spec_get(root).spec_le(roots.second)
        },
{
    if !Scalar::zero().le(roots.discriminant) {
        None
    } else if roots.first.is_positive() {
        if roots.second.is_positive() && roots.second.lt(roots.first) {
            Some(Root::Second)
        } else {
            Some(Root::First)
        }
    } else if roots.second.is_positive() {
        Some(Root::Second)
    } else {
        None
    }
}

/// Whether a height lies strictly between the two ends of a side: `0 < z < 1`.
pub open spec fn between_0_1(z: Scalar) -> bool {
    z.spec_is_positive() && z.spec_lt(Scalar::spec_one())
}

/// Whether a point lies strictly between the planes `z = 0` and `z = 1`.
pub fn test_if_hits_between_0_1(point: &Vec3) -> (r: bool)
    ensures
        r == between_0_1(point.z),
{
    point.z.is_positive() && point.z.lt(Scalar::one())
}

impl QuadricProbe {
    pub open spec fn spec_at(self, root: Root) -> Surface {
        match root {
            Root::First => self.at_first,
            Root::Second => self.at_second,
        }
    }

    /// Where a ray meets the whole surface: at the smaller positive solution.
    pub open spec fn hit(self, material: Material) -> Option<Hit> {
        match self.roots.smallest_positive() {
            Some(root) => Some(
                Hit { t: self.roots.spec_get(root), normal: self.spec_at(root).normal, material },
            ),
            None => None,
        }
    }

    /// Where a ray meets the part of the surface between `z = 0` and `z = 1`:
    /// at the smaller positive solution, if the ray's point there lies
    /// strictly between the two planes. The other solution is not tried.
    pub open spec fn side_hit(self, material: Material) -> Option<Hit> {
        match self.roots.smallest_positive() {
            Some(root) => if between_0_1(self.spec_at(root).point.z) {
                Some(
                    Hit {
                        t: self.roots.spec_get(root),
                        normal: self.spec_at(root).normal,
                        material,
                    },
                )
            } else {
                None
            },
            None => None,
        }
    }

    /// The ray's point and the normal at one of the two solutions.
    #[verifier::when_used_as_spec(spec_at)]
    pub fn at(self, root: Root) -> (r: Surface)
        ensures
            r == self.spec_at(root),
    {
        match root {
            Root::First => self.at_first,
            Root::Second => self.at_second,
        }
    }
}

/// Where a ray meets a sphere; see [`QuadricProbe::hit`].
pub fn intersect_sphere(surface: &QuadricProbe, material: &Material) -> (r: Option<Hit>)
    ensures
        r == surface.hit(*material),
        r matches Some(h) ==> h.valid(),
{
    match solve_quadratic(&surface.roots) {
        Some(root) => Some(Hit::new(surface.roots.get(root), surface.at(root).normal, *material)),
        None => None,
    }
}

/// Where a ray meets the side of the unit cylinder between its caps; see
/// [`QuadricProbe::side_hit`].
pub fn intersect_cylinder_infinite(side: &QuadricProbe, material: &Material) -> (r: Option<Hit>)
    ensures
        r == side.side_hit(*material),
        r matches Some(h) ==> h.valid(),
{
    intersect_side(side, material)
}

/// Where a ray meets the side of the unit cone between base and tip; see
/// [`QuadricProbe::side_hit`].
pub fn intersect_cone_infinite(side: &QuadricProbe, material: &Material) -> (r: Option<Hit>)
    ensures
        r == side.side_hit(*material),
        r matches Some(h) ==> h.valid(),
{
    intersect_side(side, material)
}

fn intersect_side(side: &QuadricProbe, material: &Material) -> (r: Option<Hit>)
    ensures
        r == side.side_hit(*material),
        r matches Some(h) ==> h.valid(),
{
    match solve_quadratic(&side.roots) {
        Some(root) => {
            let surface = side.at(root);
            if test_if_hits_between_0_1(&surface.point) {
                Some(Hit::new(side.roots.get(root), surface.normal, *material))
            } else {
                None
            }
        },
        None => None,
    }
}

/// The normal of a cap that faces up the z axis.
pub open spec fn up() -> Vec3 {
    Vec3::spec_along(Axis::Z, Scalar::spec_one())
}

/// The normal of a cap that faces down the z axis.
pub open spec fn down() -> Vec3 {
    Vec3::spec_along(Axis::Z, Scalar::spec_neg_one())
}

/// The candidate hits of a capped cylinder, in the order in which they are
/// compared: top cap, bottom cap, side.
pub open spec fn cylinder_candidates(
    top: CapProbe,
    bottom: CapProbe,
    side: QuadricProbe,
    material: Material,
) -> Seq<Option<Hit>> {
    seq![top.hit(up(), material), bottom.hit(down(), material), side.side_hit(material)]
}

/// The candidate hits of a cone with its base, in the order in which they are
/// compared: base cap, side.
pub open spec fn cone_candidates(base: CapProbe, side: QuadricProbe, material: Material) -> Seq<
    Option<Hit>,
> {
    seq![base.hit(down(), material), side.side_hit(material)]
}

impl Shape {
    /// Whether the shape is one of the unit-sized surfaces rather than a
    /// placed shape.
    pub open spec fn is_primitive(self) -> bool {
        !(self is TransformedShape)
    }

    /// Where the ray that a probe records meets the shape. A probe of
    /// another kind than the shape records no hit.
    pub open spec fn hit(self, probe: Probe) -> Option<Hit>
        decreases self,
    {
        match (self, probe) {
            (Shape::UnitBox { material }, Probe::UnitBox { x, y, z }) => box_hit(x, y, z, material),
            (Shape::Sphere { material, .. }, Probe::Sphere { surface }) => surface.hit(material),
            (Shape::Plane { material, .. }, Probe::Plane { plane }) => plane.hit(material),
            (Shape::Cylinder { material }, Probe::Cylinder { top, bottom, side }) => first_hit(
                cylinder_candidates(top, bottom, side, material),
            ),
            (Shape::Cone { material }, Probe::Cone { base, side }) => first_hit(
                cone_candidates(base, side, material),
            ),
            (Shape::Disk { material }, Probe::Disk { cap }) => cap.hit(down(), material),
            (
                Shape::TransformedShape { shape, transform },
                Probe::TransformedShape { local, normal },
            ) => match shape.hit(*local) {
                Some(h) => Some(Hit { t: h.t, normal, material: h.material }),
                None => None,
            },
            _ => None,
        }
    }

    /// Every hit lies ahead of the ray's origin.
    pub proof fn lemma_hit_is_ahead(self, probe: Probe)
        ensures
            self.hit(probe) matches Some(h) ==> h.valid(),
        decreases self,
    {
        match (self, probe) {
            (Shape::Cylinder { material }, Probe::Cylinder { top, bottom, side }) => {
                let candidates = cylinder_candidates(top, bottom, side, material);
                lemma_first_hit(candidates);
                if first_hit(candidates) is Some {
                    let i = choose|i: int|
                        0 <= i < candidates.len() && #[trigger] candidates[i] == first_hit(candidates);
                    assert(candidates[i] matches Some(h) && h.valid());
                }
            },
            (Shape::Cone { material }, Probe::Cone { base, side }) => {
                let candidates = cone_candidates(base, side, material);
                lemma_first_hit(candidates);
                if first_hit(candidates) is Some {
                    let i = choose|i: int|
                        0 <= i < candidates.len() && #[trigger] candidates[i] == first_hit(candidates);
                    assert(candidates[i] matches Some(h) && h.valid());
                }
            },
            (
                Shape::TransformedShape { shape, transform },
                Probe::TransformedShape { local, normal },
            ) => {
                shape.lemma_hit_is_ahead(*local);
            },
            _ => {},
        }
    }

    /// The candidate hits of a shape that is made of several parts, in the
    /// order in which they are compared. Empty for any other shape and for a
    /// probe of another kind than the shape.
    pub open spec fn parts(self, probe: Probe) -> Seq<Option<Hit>> {
        match (self, probe) {
            (
                Shape::Cylinder { material },
                Probe::Cylinder { top, bottom, side },
            ) => cylinder_candidates(top, bottom, side, material),
            (Shape::Cone { material }, Probe::Cone { base, side }) => cone_candidates(
                base,
                side,
                material,
            ),
            _ => Seq::empty(),
        }
    }

    /// A cylinder or a cone is met at one of its parts, and none of its
    /// parts is met nearer.
    pub proof fn lemma_nearest_part(self, probe: Probe)
        requires
            self is Cylinder || self is Cone,
        ensures
            self.hit(probe) == first_hit(self.parts(probe)),
            self.hit(probe) is None <==> forall|i: int|
                0 <= i < self.parts(probe).len() ==> #[trigger] self.parts(probe)[i] is None,
            self.hit(probe) is Some ==> exists|i: int|
                0 <= i < self.parts(probe).len() && #[trigger] self.parts(probe)[i] == self.hit(
                    probe,
                ),
            forall|i: int|
                0 <= i < self.parts(probe).len() ==> (#[trigger] self.parts(probe)[i] matches Some(h)
                    ==> self.hit(probe)->Some_0.t.spec_le(h.t)),
    {
        let parts = self.parts(probe);
        assert forall|i: int| 0 <= i < parts.len() implies (#[trigger] parts[i] matches Some(h)
            ==> !h.t.spec_is_nan()) by {}
        assert(crate::types::all_ordered(parts));
        lemma_first_hit(parts);
    }

    /// Where the ray that a probe records meets the shape: none, or a hit
    /// ahead of the ray's origin.
    ///
    /// A box is met as [`box_hit`] says, a sphere at the smaller positive
    /// solution, a plane and a disk as [`PlaneProbe::hit`] and
    /// [`CapProbe::hit`] say. A cylinder and a cone are met at the nearest
    /// of their parts. A placed shape is met where the shape in it is met by
    /// the ray in its frame: the ray parameter and the material are those of
    /// that hit, the normal is the probe's.
    pub fn intersect(&self, probe: &Probe) -> (r: Option<Hit>)
        ensures
            r == self.hit(*probe),
            r matches Some(h) ==> h.valid(),
        decreases self,
    {
        proof {
            self.lemma_hit_is_ahead(*probe);
        }
        match (self, probe) {
            (Shape::UnitBox { material }, Probe::UnitBox { x, y, z }) => intersect_unit_box(
                *x,
                *y,
                *z,
                material,
            ),
            (Shape::Sphere { material, .. }, Probe::Sphere { surface }) => intersect_sphere(
                surface,
                material,
            ),
            (Shape::Plane { material, .. }, Probe::Plane { plane }) => intersect_plane(
                plane,
                material,
            ),
            (Shape::Cylinder { material }, Probe::Cylinder { top, bottom, side }) => {
                let mut candidates: Vec<Option<Hit>> = Vec::new();
                candidates.push(
                    intersect_cap_with_radius_one(top, Vec3::along(Axis::Z, Scalar::one()), material),
                );
                candidates.push(
                    intersect_cap_with_radius_one(
                        bottom,
                        Vec3::along(Axis::Z, Scalar::neg_one()),
                        material,
                    ),
                );
                candidates.push(intersect_cylinder_infinite(side, material));
                proof {
                    assert(candidates@ =~= cylinder_candidates(*top, *bottom, *side, *material));
                }
                find_first_hit(candidates)
            },
            (Shape::Cone { material }, Probe::Cone { base, side }) => {
                let mut candidates: Vec<Option<Hit>> = Vec::new();
                candidates.push(
                    intersect_cap_with_radius_one(base, Vec3::along(Axis::Z, Scalar::neg_one()), material),
                );
                candidates.push(intersect_cone_infinite(side, material));
                proof {
                    assert(candidates@ =~= cone_candidates(*base, *side, *material));
                }
                find_first_hit(candidates)
            },
            (Shape::Disk { material }, Probe::Disk { cap }) => intersect_cap_with_radius_one(
                cap,
                Vec3::along(Axis::Z, Scalar::neg_one()),
                material,
            ),
            (
                Shape::TransformedShape { shape, transform },
                Probe::TransformedShape { local, normal },
            ) => match shape.intersect(local) {
                Some(h) => Some(h.to_global_coordinates(*normal)),
                None => None,
            },
            _ => None,
        }
    }
}

/// The hits of one ray on the shapes of a scene, shape by shape: each shape
/// with the probe at its position. Shapes without a probe, and probes without
/// a shape, are left out.
pub open spec fn scene_hits(shapes: Seq<Shape>, probes: Seq<Probe>) -> Seq<Option<Hit>> {
    Seq::new(
        if shapes.len() <= probes.len() {
            shapes.len()
        } else {
            probes.len()
        },
        |i: int| shapes[i].hit(probes[i]),
    )
}

/// A shape inside a frame is met exactly when the shape is met by the ray in
/// its own frame, and at the same ray parameter: placing a shape changes the
/// normal of a hit and nothing else.
pub proof fn lemma_placed_hit(shape: Shape, transform: Transform, local: Probe, normal: Vec3)
    ensures
        ({
            let placed = Shape::TransformedShape { shape: Box::new(shape), transform };
            let probe = Probe::TransformedShape { local: Box::new(local), normal };
            match shape.hit(local) {
                Some(h) => placed.hit(probe) == Some(
                    Hit { t: h.t, normal, material: h.material },
                ),
                None => placed.hit(probe) is None,
            }
        }),
{
}

/// The nearest hit of one ray on the shapes of a scene, given the probe of
/// each shape: none exactly when no shape is hit, otherwise the hit of one of
/// the shapes, ahead of the ray's origin and no farther than the hit of any
/// other shape. Of two equally near hits, that of the later shape.
pub fn nearest_hit(shapes: &Vec<Shape>, probes: &Vec<Probe>) -> (r: Option<Hit>)
    ensures
        r == first_hit(scene_hits(shapes@, probes@)),
        r is None <==> forall|i: int|
            0 <= i < shapes.len() && i < probes.len() ==> (#[trigger] shapes[i].hit(probes[i])) is None,
        r matches Some(h) ==> h.valid() && exists|i: int|
            0 <= i < shapes.len() && i < probes.len() && #[trigger] shapes[i].hit(probes[i]) == r,
        forall|i: int|
            0 <= i < shapes.len() && i < probes.len() ==> (#[trigger] shapes[i].hit(
                probes[i],
            ) matches Some(h) ==> r->Some_0.t.spec_le(h.t)),
{
    let count: usize = if shapes.len() <= probes.len() {
        shapes.len()
    } else {
        probes.len()
    };
    let ghost hits = scene_hits(shapes@, probes@);
    let mut best: Option<Hit> = None;
    let mut i: usize = 0;
    while i < count
        invariant
            i <= count,
            count == hits.len(),
            count <= shapes.len(),
            count <= probes.len(),
            hits == scene_hits(shapes@, probes@),
            best == first_hit(hits.take(i as int)),
        decreases count - i,
    {
        let next = shapes[i].intersect(&probes[i]);
        proof {
            assert(hits.take(i + 1).drop_last() =~= hits.take(i as int));
            assert(hits.take(i + 1).last() == hits[i as int]);
        }
        best = closer(best, next);
        i = i + 1;
    }
    proof {
        assert(hits.take(i as int) =~= hits);
        lemma_first_hit(hits);
        assert forall|i: int| 0 <= i < hits.len() implies (#[trigger] hits[i] matches Some(h)
            ==> h.valid()) by {
            shapes[i].lemma_hit_is_ahead(probes[i]);
        }
        assert(crate::types::all_ordered(hits));
        if best is Some {
            let k = choose|k: int| 0 <= k < hits.len() && #[trigger] hits[k] == best;
            assert(shapes[k].hit(probes[k]) == best);
        }
        assert forall|i: int| 0 <= i < shapes.len() && i < probes.len() implies (
        #[trigger] shapes[i].hit(probes[i]) matches Some(h) ==> best->Some_0.t.spec_le(h.t)) by {
            assert(hits[i] == shapes[i].hit(probes[i]));
        }
        if forall|i: int|
            0 <= i < shapes.len() && i < probes.len() ==> (#[trigger] shapes[i].hit(probes[i])) is None {
            assert forall|i: int| 0 <= i < hits.len() implies #[trigger] hits[i] is None by {
                assert(shapes[i].hit(probes[i]) is None);
            }
        }
        if best is None {
            assert forall|i: int| 0 <= i < shapes.len() && i < probes.len() implies (
            #[trigger] shapes[i].hit(probes[i])) is None by {
                assert(hits[i] is None);
            }
        }
    }
    best
}

} // verus!
