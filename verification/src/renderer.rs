//! The decisions of shading: which lights reach a surface, when a light path
//! ends, and how many samples a frame takes of each pixel.
//!
//! A shading strategy turns a hit into radiance by arithmetic that rounds, and
//! that arithmetic is the caller's. What is decided along the way is decided
//! here.

use vstd::prelude::*;
use crate::scalar::Scalar;
use crate::shape::{nearest_hit, scene_hits, Probe, Shape};
use crate::types::{first_hit, Hit};

verus! {

/// The samples that a frame takes of each pixel when it traces paths.
pub const PATH_SAMPLES: u32 = 10;

/// The surfaces that a light path may scatter from before it is given up.
pub const MAX_BOUNCES: u32 = 5;

/// How a pixel is shaded.
#[derive(Clone, Copy, Debug, PartialEq, Eq)]
pub enum RenderMode {
    /// The normal of the hit as a colour.
    Normals,
    /// Local shading by the angle to the viewer, without shadows.
    Raycast,
    /// Direct light from every light that no shape hides.
    Raytrace,
    /// Light gathered along random paths, sample by sample.
    Pathtracing,
}

impl RenderMode {
    pub open spec fn spec_samples(self) -> u32 {
        match self {
            RenderMode::Pathtracing => PATH_SAMPLES,
            _ => 1,
        }
    }

    pub open spec fn spec_next(self) -> RenderMode {
        match self {
            RenderMode::Raycast => RenderMode::Raytrace,
            RenderMode::Raytrace => RenderMode::Normals,
            RenderMode::Normals => RenderMode::Pathtracing,
            RenderMode::Pathtracing => RenderMode::Raycast,
        }
    }

    /// The samples that one frame takes of each pixel: ten when tracing
    /// paths, one otherwise.
    #[verifier::when_used_as_spec(spec_samples)]
    pub fn samples(self) -> (r: u32)
        ensures
            r == self.spec_samples(),
            r >= 1,
    {
        match self {
            RenderMode::Pathtracing => PATH_SAMPLES,
            _ => 1,
        }
    }

    /// The mode that follows when the viewer asks for the next one:
    /// raycast, raytrace, normals, path tracing, and round again.
    #[verifier::when_used_as_spec(spec_next)]
    pub fn next(self) -> (r: RenderMode)
        ensures
            r == self.spec_next(),
            r != self,
    {
        match self {
            RenderMode::Raycast => RenderMode::Raytrace,
            RenderMode::Raytrace => RenderMode::Normals,
            RenderMode::Normals => RenderMode::Pathtracing,
            RenderMode::Pathtracing => RenderMode::Raycast,
        }
    }

    /// Asking four times for the next mode leads through all four modes and
    /// back to the first.
    pub proof fn lemma_cycle(self)
        ensures
            self.spec_next().spec_next().spec_next().spec_next() == self,
            self.spec_next() != self,
            self.spec_next().spec_next() != self,
            self.spec_next().spec_next().spec_next() != self,
    {
    }
}

pub open spec fn spec_shadow_bias() -> Scalar {
    Scalar { bits: 0x38D1_B717 }
}

pub open spec fn spec_bounce_bias() -> Scalar {
    Scalar { bits: 0x3A83_126F }
}

pub open spec fn spec_bounce_gain() -> Scalar {
    Scalar { bits: 0x4000_0000 }
}

/// `1e-4`: how far a shadow ray starts off the surface, along the normal, and
/// how near to either end of it a shape may be without hiding the light.
#[verifier::when_used_as_spec(spec_shadow_bias)]
pub fn shadow_bias() -> (r: Scalar)
    ensures
        r == spec_shadow_bias(),
        r.spec_is_positive(),
{
    Scalar::from_bits(0x38D1_B717)
}

/// `1e-3`: how far the next ray of a light path starts off the surface, along
/// the normal.
#[verifier::when_used_as_spec(spec_bounce_bias)]
pub fn bounce_bias() -> (r: Scalar)
    ensures
        r == spec_bounce_bias(),
        r.spec_is_positive(),
{
    Scalar::from_bits(0x3A83_126F)
}

/// `2.0`: the factor by which a scattering weighs the light it passes on,
/// beside the surface colour and the cosine.
#[verifier::when_used_as_spec(spec_bounce_gain)]
pub fn bounce_gain() -> (r: Scalar)
    ensures
        r == spec_bounce_gain(),
{
    Scalar::from_bits(0x4000_0000)
}

/// The share of light that a surface takes at a given cosine between its
/// normal and the direction to the light: the cosine, or nothing when the
/// light stands behind the surface.
pub open spec fn lambert_of(cos: Scalar) -> Scalar {
    cos.spec_max(Scalar::spec_zero())
}

/// The cosine between normal and light direction, cut off at zero.
pub fn lambert(cos: Scalar) -> (r: Scalar)
    ensures
        r == lambert_of(cos),
        cos.spec_is_positive() ==> r == cos,
        !cos.spec_is_positive() ==> r.same_value(Scalar::spec_zero()),
{
    cos.max(Scalar::zero())
}

/// Whether a random direction points into the surface, its cosine with the
/// normal being negative, so that it has to be mirrored at the surface.
pub fn faces_inward(cos: Scalar) -> (r: bool)
    ensures
        r == cos.spec_is_negative(),
{
    cos.is_negative()
}

/// Whether a light is hidden, given the nearest hit of the shadow ray and
/// the reach of that ray, which is the distance to the light less the bias:
/// it is hidden when the nearest hit lies strictly between bias and reach.
pub open spec fn occluded(blocker: Option<Hit>, reach: Scalar) -> bool {
    blocker matches Some(h) && spec_shadow_bias().spec_lt(h.t) && h.t.spec_lt(reach)
}

/// Whether a light is hidden; see [`occluded`].
pub fn is_occluded(blocker: &Option<Hit>, reach: Scalar) -> (r: bool)
    ensures
        r == occluded(*blocker, reach),
{
    match blocker {
        Some(h) => shadow_bias().lt(h.t) && h.t.lt(reach),
        None => false,
    }
}

/// The shadow ray from a surface point towards one light, measured against
/// every shape of the scene.
pub struct ShadowProbe {
    /// The probe of each shape, in the order of the shapes.
    pub probes: Vec<Probe>,
    /// The distance from the ray's origin to the light, less the bias.
    pub reach: Scalar,
}

impl ShadowProbe {
    /// Whether the light of this shadow ray reaches the surface.
    pub open spec fn lit(self, shapes: Seq<Shape>) -> bool {
        !occluded(first_hit(scene_hits(shapes, self.probes@)), self.reach)
    }
}

/// What direct lighting takes into account at a surface point.
pub struct DirectLight {
    /// The hit whose material gives the ambient term and tints the lights.
    pub surface: Hit,
    /// For each light, whether it reaches the surface.
    pub lit: Vec<bool>,
}

/// A shape that the shadow ray meets strictly between bias and reach hides
/// the light, provided that the ray meets no shape within the bias of its
/// origin.
pub proof fn lemma_occluder_hides(shapes: Seq<Shape>, shadow: ShadowProbe, occluder: int)
    requires
        0 <= occluder < shapes.len(),
        occluder < shadow.probes@.len(),
        occluded(shapes[occluder].hit(shadow.probes@[occluder]), shadow.reach),
        forall|i: int|
            0 <= i < shapes.len() && i < shadow.probes@.len() ==> (#[trigger] shapes[i].hit(
                shadow.probes@[i],
            ) matches Some(h) ==> spec_shadow_bias().spec_lt(h.t)),
    ensures
        !shadow.lit(shapes),
{
    let hits = scene_hits(shapes, shadow.probes@);
    crate::types::lemma_first_hit(hits);
    assert(hits[occluder] == shapes[occluder].hit(shadow.probes@[occluder]));
    assert(first_hit(hits) is Some);
    let k = choose|k: int| 0 <= k < hits.len() && #[trigger] hits[k] == first_hit(hits);
    assert(hits[k] == shapes[k].hit(shadow.probes@[k]));
    assert forall|i: int| 0 <= i < hits.len() implies (#[trigger] hits[i] matches Some(h)
        ==> !h.t.spec_is_nan()) by {
        assert(hits[i] == shapes[i].hit(shadow.probes@[i]));
    }
    assert(crate::types::all_ordered(hits));
}

/// Direct lighting at the nearest hit of a primary ray: nothing where the ray
/// hit nothing; otherwise the surface that was hit, whatever hides the
/// lights, and for each light whether it reaches the surface, which it does
/// unless the nearest hit of its shadow ray lies strictly between bias and
/// reach.
pub fn raytrace(shapes: &Vec<Shape>, best_hit: Option<Hit>, shadows: &Vec<ShadowProbe>) -> (r:
    Option<DirectLight>)
    ensures
        best_hit is None <==> r is None,
        r matches Some(d) ==> {
            &&& Some(d.surface) == best_hit
            &&& d.lit.len() == shadows.len()
            &&& forall|i: int| 0 <= i < shadows.len() ==> d.lit[i] == (#[trigger] shadows[i]).lit(shapes@)
        },
{
    match best_hit {
        None => None,
        Some(surface) => {
            let mut lit: Vec<bool> = Vec::new();
            let mut i: usize = 0;
            while i < shadows.len()
                invariant
                    i <= shadows.len(),
                    lit.len() == i,
                    forall|j: int| 0 <= j < i ==> lit[j] == (#[trigger] shadows[j]).lit(shapes@),
                decreases shadows.len() - i,
            {
                let blocker = nearest_hit(shapes, &shadows[i].probes);
                lit.push(!is_occluded(&blocker, shadows[i].reach));
                i = i + 1;
            }
            Some(DirectLight { surface, lit })
        },
    }
}

/// What a light path does next.
#[derive(Clone, Copy, Debug, PartialEq, Eq)]
pub enum PathStep {
    /// The surface gives light of its own: the path gathers it and ends.
    Emit,
    /// The surface passes light on: the path goes on along a new ray.
    Scatter,
    /// The path is over.
    End,
}

/// A light path on its way from surface to surface.
#[derive(Clone, Copy, Debug, PartialEq, Eq)]
pub struct Path {
    /// The surfaces that the path has scattered from.
    pub bounces: u32,
    /// The surface that the path is at; none once it is over.
    pub surface: Option<Hit>,
}

impl Path {
    pub open spec fn spec_step(self) -> PathStep {
        match self.surface {
            None => PathStep::End,
            Some(h) => if self.bounces >= MAX_BOUNCES {
                PathStep::End
            } else if h.material.spec_is_emissive() {
                PathStep::Emit
            } else {
                PathStep::Scatter
            },
        }
    }

    pub open spec fn spec_scattered(self, next: Option<Hit>) -> Path {
        if self.spec_step() is Scatter {
            Path { bounces: (self.bounces + 1) as u32, surface: next }
        } else {
            Path { bounces: self.bounces, surface: None }
        }
    }

    /// The path after it has scattered once for each of `nexts`, meeting
    /// them in turn.
    pub open spec fn after(self, nexts: Seq<Option<Hit>>) -> Path
        decreases nexts.len(),
    {
        if nexts.len() == 0 {
            self
        } else {
            self.after(nexts.drop_last()).spec_scattered(nexts.last())
        }
    }

    /// The scatterings that the path may still make.
    pub open spec fn remaining(self) -> int {
        if self.bounces >= MAX_BOUNCES {
            0
        } else {
            MAX_BOUNCES - self.bounces
        }
    }

    /// The path that starts at the nearest hit of a primary ray. Where the
    /// ray hit nothing the path is over before it starts.
    pub fn start(best_hit: Option<Hit>) -> (r: Path)
        ensures
            r == (Path { bounces: 0, surface: best_hit }),
    {
        Path { bounces: 0, surface: best_hit }
    }

    /// What the path does next: it is over when it is at no surface or has
    /// scattered from five; else it gathers the light of a surface that
    /// gives light of its own; else it scatters.
    #[verifier::when_used_as_spec(spec_step)]
    pub fn step(self) -> (r: PathStep)
        ensures
            r == self.spec_step(),
            r is Scatter ==> self.remaining() > 0,
    {
        match self.surface {
            None => PathStep::End,
            Some(h) => if self.bounces >= MAX_BOUNCES {
                PathStep::End
            } else if h.material.is_emissive() {
                PathStep::Emit
            } else {
                PathStep::Scatter
            },
        }
    }

    /// The path after it has scattered and its new ray has hit `next`, or
    /// nothing: it has scattered from one surface more and is at `next`. A
    /// path that was not to scatter is over.
    #[verifier::when_used_as_spec(spec_scattered)]
    pub fn scattered(self, next: Option<Hit>) -> (r: Path)
        ensures
            r == self.spec_scattered(next),
            self.spec_step() is Scatter ==> r.remaining() == self.remaining() - 1,
            !(self.spec_step() is Scatter) ==> r.spec_step() is End,
    {
        match self.step() {
            PathStep::Scatter => Path { bounces: self.bounces + 1, surface: next },
            _ => Path { bounces: self.bounces, surface: None },
        }
    }

    /// The path after it has gathered the light of its surface: over.
    pub fn emitted(self) -> (r: Path)
        ensures
            r == (Path { bounces: self.bounces, surface: None }),
            r.spec_step() is End,
    {
        Path { bounces: self.bounces, surface: None }
    }

    /// However a path goes on, it scatters from five surfaces at most: once
    /// it has scattered as often as it still might, it is over, whatever its
    /// rays have met.
    pub proof fn lemma_bounded(self, nexts: Seq<Option<Hit>>)
        requires
            nexts.len() >= self.remaining(),
        ensures
            self.after(nexts).spec_step() is End,
            self.after(nexts).bounces <= if self.bounces >= MAX_BOUNCES {
                self.bounces
            } else {
                MAX_BOUNCES
            },
    {
        self.lemma_progress(nexts);
    }

    /// After scattering once for each of `nexts`, a path is over or has
    /// scattered from that many surfaces more.
    proof fn lemma_progress(self, nexts: Seq<Option<Hit>>)
        ensures
            self.after(nexts).bounces >= self.bounces,
            self.after(nexts).surface is Some ==> self.after(nexts).bounces == self.bounces
                + nexts.len(),
            self.after(nexts).bounces <= if self.bounces >= MAX_BOUNCES {
                self.bounces
            } else {
                MAX_BOUNCES
            },
        decreases nexts.len(),
    {
        if nexts.len() > 0 {
            self.lemma_progress(nexts.drop_last());
        }
    }

    /// A path that has scattered from five surfaces is over, whatever it is
    /// at, and so is a path that is at no surface.
    pub proof fn lemma_ends(self)
        ensures
            self.remaining() == 0 ==> self.spec_step() is End,
            self.surface is None ==> self.spec_step() is End,
            self.spec_step() is Scatter ==> 0 < self.remaining() <= MAX_BOUNCES,
    {
    }
}

} // verus!
