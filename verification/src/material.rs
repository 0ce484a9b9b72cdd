use crate::hittable::HitRecord;
use crate::onb::ONB;
use crate::pdf::{CosinePdf, Pdf, SpherePdf, UNIFORM_DENSITY_BITS};
use crate::ray::Ray;
use crate::scalar::Scalar;
use crate::vec3::{Color, Point3, Vec3};
use vstd::prelude::*;

verus! {

/// What a material makes of a ray that meets it.
#[derive(Clone, Copy, Debug)]
pub struct ScatterRecord {
    /// The colour by which the light that comes along the scattered ray is
    /// weakened.
    pub attenuation: Color,
    /// The distribution from which the scattered ray is drawn, where
    /// `skip_pdf` is false.
    pub pdf: Pdf,
    /// The material scatters into one direction only: `skip_pdf_ray`.
    pub skip_pdf: bool,
    pub skip_pdf_ray: Ray,
}

/// The colour (0, 0, 0).
pub open spec fn black() -> Color {
    Vec3([Scalar { bits: 0 }, Scalar { bits: 0 }, Scalar { bits: 0 }])
}

impl Default for ScatterRecord {
    fn default() -> (srec: ScatterRecord)
        ensures
            srec.attenuation == black(),
            srec.pdf == Pdf::Sphere(SpherePdf),
            srec.skip_pdf,
    {
        ScatterRecord {
            attenuation: Vec3::new(Scalar::zero(), Scalar::zero(), Scalar::zero()),
            pdf: Pdf::Sphere(SpherePdf),
            skip_pdf: true,
            skip_pdf_ray: Ray::default(),
        }
    }
}

/// The material of a surface that neither scatters nor emits.
#[derive(Clone, Copy, Debug)]
pub struct NoneMaterial;

impl NoneMaterial {
    /// Never scatters.
    pub fn scatter(&self, srec: &mut ScatterRecord) -> (b: bool)
        ensures
            !b,
            *final(srec) == *old(srec),
    {
        false
    }

    /// Emits nothing.
    pub fn emitted(&self) -> (c: Color)
        ensures
            c == black(),
    {
        Vec3::new(Scalar::zero(), Scalar::zero(), Scalar::zero())
    }

    pub fn scattering_pdf(&self) -> (density: Scalar)
        ensures
            density.bits == 0,
    {
        Scalar::zero()
    }
}

/// A matt surface.
#[derive(Clone, Copy, Debug)]
pub struct Lambertian;

impl Lambertian {
    /// Scatters always: by the colour of the texture at the point met, into
    /// a direction drawn from the cosine distribution about the normal,
    /// whose basis is `uvw`.
    pub fn scatter(&self, texture_value: Color, uvw: ONB, srec: &mut ScatterRecord) -> (b: bool)
        ensures
            b,
            *final(srec) == (ScatterRecord {
                attenuation: texture_value,
                pdf: Pdf::Cosine(CosinePdf { uvw }),
                skip_pdf: false,
                ..*old(srec)
            }),
    {
        srec.attenuation = texture_value;
        srec.pdf = Pdf::Cosine(CosinePdf::new(uvw));
        srec.skip_pdf = false;
        true
    }

    /// The density with which the surface scatters into a direction, from
    /// the cosine of its angle to the normal and that cosine divided by pi:
    /// zero for a direction below the surface.
    pub fn scattering_pdf(&self, cos_theta: Scalar, cosine_over_pi: Scalar) -> (density: Scalar)
        ensures
            density == if cos_theta.lt_spec(Scalar { bits: 0 }) {
                Scalar { bits: 0 }
            } else {
                cosine_over_pi
            },
    {
        if cos_theta.lt(Scalar::zero()) {
            Scalar::zero()
        } else {
            cosine_over_pi
        }
    }
}

/// A mirror, polished or brushed.
#[derive(Clone, Copy, Debug)]
pub struct Metal {
    albedo: Color,
    fuzz: Scalar,
}

impl Metal {
    pub closed spec fn albedo(self) -> Color {
        self.albedo
    }

    /// By how much the reflected ray is scattered about the direction of
    /// the reflection: at most 1.
    pub closed spec fn fuzz(self) -> Scalar {
        self.fuzz
    }

    /// The metal of colour `albedo`. A `fuzz` that is not below 1 counts as
    /// 1.
    pub fn new(albedo: Color, fuzz: Scalar) -> (metal: Metal)
        ensures
            metal.albedo() == albedo,
            metal.fuzz() == if fuzz.lt_spec(Scalar { bits: 0x3f80_0000 }) {
                fuzz
            } else {
                Scalar { bits: 0x3f80_0000 }
            },
    {
        Metal {
            albedo,
            fuzz: if fuzz.lt(Scalar::one()) {
                fuzz
            } else {
                Scalar::one()
            },
        }
    }

    pub fn fuzziness(&self) -> (f: Scalar)
        ensures
            f == self.fuzz(),
    {
        self.fuzz
    }

    /// Scatters always, into the one direction `reflected`, from the point
    /// met and at the time of the incoming ray.
    pub fn scatter(
        &self,
        p: Point3,
        reflected: Vec3,
        time: Scalar,
        srec: &mut ScatterRecord,
    ) -> (b: bool)
        ensures
            b,
            final(srec).attenuation == self.albedo(),
            final(srec).skip_pdf,
            final(srec).pdf == old(srec).pdf,
            final(srec).skip_pdf_ray.origin_spec() == p,
            final(srec).skip_pdf_ray.direction_spec() == reflected,
            final(srec).skip_pdf_ray.time_spec() == time,
    {
        srec.attenuation = self.albedo;
        srec.skip_pdf = true;
        srec.skip_pdf_ray = Ray::new(p, reflected, time);
        true
    }
}

/// Glass, water: a clear material that bends light.
#[derive(Clone, Copy, Debug)]
pub struct Dielectric {
    refraction_index: Scalar,
}

impl Dielectric {
    pub closed spec fn index(self) -> Scalar {
        self.refraction_index
    }

    pub fn new(refraction_index: Scalar) -> (glass: Dielectric)
        ensures
            glass.index() == refraction_index,
    {
        Dielectric { refraction_index }
    }

    pub fn refraction_index(&self) -> (ri: Scalar)
        ensures
            ri == self.index(),
    {
        self.refraction_index
    }

    /// The ratio of the refractive indices across the surface, for a ray
    /// that meets it from the side given: the reciprocal of the material's
    /// index from outside, the index itself from inside.
    pub fn ratio(&self, front_face: bool, reciprocal: Scalar) -> (ri: Scalar)
        ensures
            ri == if front_face {
                reciprocal
            } else {
                self.index()
            },
    {
        if front_face {
            reciprocal
        } else {
            self.refraction_index
        }
    }

    /// The ray is reflected, not refracted: where no refracted ray exists,
    /// the ratio of the indices times the sine of the angle of incidence,
    /// `ratio_sine`, being above 1; and else with the probability
    /// `reflectance`, that is where it is above `chance`, a number drawn
    /// uniformly from 0 to 1.
    pub fn reflects(ratio_sine: Scalar, reflectance: Scalar, chance: Scalar) -> (b: bool)
        ensures
            b == ((Scalar { bits: 0x3f80_0000 }).lt_spec(ratio_sine) || chance.lt_spec(
                reflectance,
            )),
    {
        let cannot_refract = ratio_sine.gt(Scalar::one());
        cannot_refract || reflectance.gt(chance)
    }

    /// Scatters always and weakens nothing, into the one direction
    /// `direction`.
    pub fn scatter(
        &self,
        p: Point3,
        direction: Vec3,
        time: Scalar,
        srec: &mut ScatterRecord,
    ) -> (b: bool)
        ensures
            b,
            final(srec).attenuation == Vec3(
                [
                    Scalar { bits: 0x3f80_0000 },
                    Scalar { bits: 0x3f80_0000 },
                    Scalar { bits: 0x3f80_0000 },
                ],
            ),
            final(srec).skip_pdf,
            final(srec).pdf == Pdf::Sphere(SpherePdf),
            final(srec).skip_pdf_ray.origin_spec() == p,
            final(srec).skip_pdf_ray.direction_spec() == direction,
            final(srec).skip_pdf_ray.time_spec() == time,
    {
        srec.attenuation = Vec3::new(Scalar::one(), Scalar::one(), Scalar::one());
        srec.skip_pdf = true;
        srec.pdf = Pdf::Sphere(SpherePdf);
        srec.skip_pdf_ray = Ray::new(p, direction, time);
        true
    }
}

/// A surface that gives off light, from its front.
#[derive(Clone, Copy, Debug)]
pub struct DiffuseLight;

impl DiffuseLight {
    /// The light given off towards a ray that met the surface as `rec`
    /// says: the colour of the texture at the point where the ray came from
    /// outside, and none where it came from inside.
    pub fn emitted(&self, rec: &HitRecord, texture_value: Color) -> (c: Color)
        ensures
            c == if rec.front_face {
                texture_value
            } else {
                black()
            },
    {
        if !rec.front_face {
            Vec3::new(Scalar::zero(), Scalar::zero(), Scalar::zero())
        } else {
            texture_value
        }
    }

    /// A light does not scatter.
    pub fn scatter(&self, srec: &mut ScatterRecord) -> (b: bool)
        ensures
            !b,
            *final(srec) == *old(srec),
    {
        false
    }
}

/// A glossy surface: a matt ground under a shiny coat, by the model of
/// Cook and Torrance.
#[derive(Clone, Copy, Debug)]
pub struct Glossy {
    pub albedo: Color,
    /// How rough the coat is: at least 0.001.
    pub roughness: Scalar,
    pub metallic: Scalar,
    /// The share of light that the surface reflects when met head-on.
    pub f0: Color,
}

/// 0.001, the least roughness.
pub const LEAST_ROUGHNESS_BITS: u32 = 0x3a83_126f;

/// The two ways in which a glossy surface scatters.
#[derive(Clone, Copy, Debug)]
pub enum Lobe {
    /// As a mirror does, about the reflected direction.
    Specular,
    /// As a matt surface does.
    Diffuse,
}

impl Glossy {
    /// The glossy material of the colour, roughness and metal content
    /// given, with `f0` worked out from the colour and the metal content. A
    /// roughness below 0.001, or none, counts as 0.001.
    pub fn new(albedo: Color, roughness: Scalar, metallic: Scalar, f0: Color) -> (glossy: Glossy)
        ensures
            glossy == (Glossy {
                albedo,
                roughness: roughness.max_spec(Scalar { bits: LEAST_ROUGHNESS_BITS }),
                metallic,
                f0,
            }),
    {
        Glossy { albedo, roughness: roughness.max(Scalar::from_bits(LEAST_ROUGHNESS_BITS)), metallic, f0 }
    }

    /// The way in which a ray is scattered, for a number `chance` drawn
    /// uniformly from 0 to 1: as by a mirror where it is below the share
    /// `spec_prob` of the coat.
    pub fn lobe(chance: Scalar, spec_prob: Scalar) -> (l: Lobe)
        ensures
            l is Specular <==> chance.lt_spec(spec_prob),
    {
        if chance.lt(spec_prob) {
            Lobe::Specular
        } else {
            Lobe::Diffuse
        }
    }

    /// The scattering by the coat, into the direction `l` whose dot product
    /// with the normal is `l_dot_n`: none where the direction points into
    /// the surface; else into that one direction, weakened by
    /// `attenuation`.
    pub fn scatter_specular(
        l_dot_n: Scalar,
        attenuation: Color,
        p: Point3,
        l: Vec3,
        time: Scalar,
        srec: &mut ScatterRecord,
    ) -> (b: bool)
        ensures
            b == !l_dot_n.le_spec(Scalar { bits: 0 }),
            !b ==> *final(srec) == *old(srec),
            b ==> {
                &&& final(srec).attenuation == attenuation
                &&& final(srec).skip_pdf
                &&& final(srec).pdf == old(srec).pdf
                &&& final(srec).skip_pdf_ray.origin_spec() == p
                &&& final(srec).skip_pdf_ray.direction_spec() == l
                &&& final(srec).skip_pdf_ray.time_spec() == time
            },
    {
        if l_dot_n.le(Scalar::zero()) {
            return false;
        }
        srec.attenuation = attenuation;
        srec.skip_pdf = true;
        srec.skip_pdf_ray = Ray::new(p, l, time);
        true
    }

    /// The scattering by the ground: always, by the cosine distribution
    /// about the normal, whose basis is `uvw`.
    pub fn scatter_diffuse(attenuation: Color, uvw: ONB, srec: &mut ScatterRecord) -> (b: bool)
        ensures
            b,
            *final(srec) == (ScatterRecord {
                attenuation,
                pdf: Pdf::Cosine(CosinePdf { uvw }),
                skip_pdf: false,
                ..*old(srec)
            }),
    {
        srec.attenuation = attenuation;
        srec.pdf = Pdf::Cosine(CosinePdf::new(uvw));
        srec.skip_pdf = false;
        true
    }

    /// The light that the surface passes on from one direction to another:
    /// none where either lies in or below the surface, the dot product of
    /// the normal with the direction to the eye, `n_dot_v`, or with that to
    /// the light, `n_dot_l`, not being above zero; else `brdf`.
    pub fn evaluate_brdf(n_dot_v: Scalar, n_dot_l: Scalar, brdf: Color) -> (c: Color)
        ensures
            c == if n_dot_v.le_spec(Scalar { bits: 0 }) || n_dot_l.le_spec(Scalar { bits: 0 }) {
                black()
            } else {
                brdf
            },
    {
        if n_dot_v.le(Scalar::zero()) || n_dot_l.le(Scalar::zero()) {
            return Vec3::new(Scalar::zero(), Scalar::zero(), Scalar::zero());
        }
        brdf
    }

    /// The density with which the coat scatters into a direction: zero
    /// where `guard`, a dot product that must be above zero for the
    /// direction to count, is not; else `density`. The guard is the dot
    /// product of the half vector with the direction to the eye for the
    /// coat's own density, and the cosine of the scattered direction to the
    /// normal for the density of the whole material.
    pub fn density(guard: Scalar, density: Scalar) -> (d: Scalar)
        ensures
            d == if guard.le_spec(Scalar { bits: 0 }) {
                Scalar { bits: 0 }
            } else {
                density
            },
    {
        if guard.le(Scalar::zero()) {
            Scalar::zero()
        } else {
            density
        }
    }
}

/// The material of a medium that scatters evenly into all directions.
#[derive(Clone, Copy, Debug)]
pub struct Isotropic;

impl Isotropic {
    /// Scatters always: by the colour of the texture, into a direction drawn
    /// from the uniform distribution.
    pub fn scatter(&self, texture_value: Color, srec: &mut ScatterRecord) -> (b: bool)
        ensures
            b,
            *final(srec) == (ScatterRecord {
                attenuation: texture_value,
                pdf: Pdf::Sphere(SpherePdf),
                skip_pdf: false,
                ..*old(srec)
            }),
    {
        srec.attenuation = texture_value;
        srec.pdf = Pdf::Sphere(SpherePdf);
        srec.skip_pdf = false;
        true
    }

    /// 1 / (4 pi) for every direction.
    pub fn scattering_pdf(&self) -> (density: Scalar)
        ensures
            density.bits == UNIFORM_DENSITY_BITS,
    {
        Scalar::from_bits(UNIFORM_DENSITY_BITS)
    }
}

} // verus!
