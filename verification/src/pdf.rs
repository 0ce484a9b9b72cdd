use crate::onb::ONB;
use crate::scalar::Scalar;
use crate::vec3::{Point3, Vec3};
use vstd::prelude::*;

verus! {

/// 1 / (4 pi), the density of the uniform distribution over all directions.
pub const UNIFORM_DENSITY_BITS: u32 = 0x3da2_f983;

/// 0.5
pub const HALF_BITS: u32 = 0x3f00_0000;

/// The distribution that is uniform over all directions.
#[derive(Clone, Copy, Debug)]
pub struct SpherePdf;

/// The distribution over the hemisphere about a normal whose density falls
/// with the cosine of the angle to the normal.
#[derive(Clone, Copy, Debug)]
pub struct CosinePdf {
    pub uvw: ONB,
}

/// The distribution of the directions from `origin` towards a set of
/// objects, the lights.
#[derive(Clone, Copy, Debug)]
pub struct HittablePdf {
    pub origin: Point3,
}

/// A distribution from which a material has a scattered ray drawn.
#[derive(Clone, Copy, Debug)]
pub enum Pdf {
    Sphere(SpherePdf),
    Cosine(CosinePdf),
}

/// The even mixture of the distribution towards the lights and that of a
/// material.
#[derive(Clone, Copy, Debug)]
pub struct MixturePdf {
    pub lights: HittablePdf,
    pub surface: Pdf,
}

impl SpherePdf {
    pub fn new(_w: Vec3) -> (pdf: SpherePdf) {
        SpherePdf
    }

    /// The density, which is the same for every direction.
    pub fn value(&self, _direction: Vec3) -> (density: Scalar)
        ensures
            density.bits == UNIFORM_DENSITY_BITS,
    {
        Scalar::from_bits(UNIFORM_DENSITY_BITS)
    }
}

impl CosinePdf {
    /// The distribution about the third vector of `uvw`.
    pub fn new(uvw: ONB) -> (pdf: CosinePdf)
        ensures
            pdf.uvw == uvw,
    {
        CosinePdf { uvw }
    }

    /// The density of a direction, from the cosine of its angle to the
    /// normal divided by pi: that, where it is positive, else zero.
    pub fn value(&self, cosine_over_pi: Scalar) -> (density: Scalar)
        ensures
            density == cosine_over_pi.max_spec(Scalar { bits: 0 }),
    {
        cosine_over_pi.max(Scalar::zero())
    }
}

impl HittablePdf {
    pub fn new(origin: Point3) -> (pdf: HittablePdf)
        ensures
            pdf.origin == origin,
    {
        HittablePdf { origin }
    }
}

impl MixturePdf {
    pub fn new(lights: HittablePdf, surface: Pdf) -> (pdf: MixturePdf)
        ensures
            pdf.lights == lights,
            pdf.surface == surface,
    {
        MixturePdf { lights, surface }
    }

    /// The term from which a direction is drawn, for a number `coin` drawn
    /// uniformly from 0 to 1: term 0, the lights, where it is below one
    /// half, else term 1, the surface.
    pub fn generate(&self, coin: Scalar) -> (term: usize)
        ensures
            term == if coin.lt_spec(Scalar { bits: HALF_BITS }) {
                0usize
            } else {
                1usize
            },
    {
        if coin.lt(Scalar::from_bits(HALF_BITS)) {
            0
        } else {
            1
        }
    }
}

/// The density of the cosine distribution is never negative and never not a
/// number.
pub proof fn lemma_cosine_density(cosine_over_pi: Scalar)
    ensures
        !cosine_over_pi.max_spec(Scalar { bits: 0 }).nan(),
        (Scalar { bits: 0 }).le_spec(cosine_over_pi.max_spec(Scalar { bits: 0 })),
{
}

} // verus!
