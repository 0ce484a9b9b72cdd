use crate::hittable::HitRecord;
use crate::material::{black, ScatterRecord};
use crate::pdf::Pdf;
use crate::ray::Ray;
use crate::scalar::Scalar;
use crate::vec3::{Color, Point3, Vec3};
use vstd::prelude::*;
use vstd::std_specs::convert::FromSpecImpl;
use vstd::string::StringExecFns;

verus! {

/// The camera as a scene description states it.
#[derive(Debug)]
pub struct CameraConfig {
    pub aspect_ratio: Scalar,
    pub image_width: usize,
    pub samples_per_pixel: usize,
    pub max_depth: usize,
    pub background: Color,
    pub vfov: Scalar,
    pub look_from: Point3,
    pub look_at: Point3,
    pub vup: Vec3,
    pub defocus_angle: Scalar,
    pub focus_dist: Scalar,
    pub file_path: String,
}

/// The camera: what the description states, and the raster that is worked
/// out from it before rendering.
#[derive(Debug)]
pub struct Camera {
    /// Width of the image over its height.
    pub aspect_ratio: Scalar,
    /// Width of the image in pixels.
    pub image_width: usize,
    /// Number of rays per pixel.
    pub samples_per_pixel: usize,
    /// Greatest number of times a ray is followed from surface to surface.
    pub max_depth: usize,
    /// The colour of what a ray sees that meets nothing.
    pub background: Color,
    /// Vertical angle of view, in degrees.
    pub vfov: Scalar,
    pub look_from: Point3,
    pub look_at: Point3,
    pub vup: Vec3,
    /// Angle of the cone of rays through each pixel, in degrees.
    pub defocus_angle: Scalar,
    /// Distance from the camera to the plane of perfect focus.
    pub focus_dist: Scalar,
    pub file_path: String,
    /// Height of the image in pixels: at least 1 once initialised.
    pub image_height: usize,
    /// The samples of a pixel form a square grid with this many on a side.
    pub sqrt_spp: usize,
}

/// 16 / 9
pub const WIDE_BITS: u32 = 0x3fe3_8e39;

/// 90
pub const RIGHT_ANGLE_BITS: u32 = 0x42b4_0000;

/// 10
pub const TEN_BITS: u32 = 0x4120_0000;

/// -1
pub const MINUS_ONE_BITS: u32 = 0xbf80_0000;

/// The camera that a description gets where it states nothing: a 16 by 9
/// image 400 pixels wide, 10 rays per pixel followed 10 times, a right angle
/// of view from the origin along the negative z axis, sharp at every
/// distance, on a black background.
pub open spec fn default_config(c: CameraConfig) -> bool {
    let zero = Scalar { bits: 0 };
    &&& c.aspect_ratio.bits == WIDE_BITS
    &&& c.image_width == 400
    &&& c.samples_per_pixel == 10
    &&& c.max_depth == 10
    &&& c.background == Vec3([zero, zero, zero])
    &&& c.vfov.bits == RIGHT_ANGLE_BITS
    &&& c.look_from == Vec3([zero, zero, zero])
    &&& c.look_at == Vec3([zero, zero, Scalar { bits: MINUS_ONE_BITS }])
    &&& c.vup == Vec3([zero, Scalar { bits: 0x3f80_0000 }, zero])
    &&& c.defocus_angle.bits == 0
    &&& c.focus_dist.bits == TEN_BITS
    &&& c.file_path@ == "image.ppm"@
}

impl Default for CameraConfig {
    fn default() -> (c: CameraConfig)
        ensures
            default_config(c),
    {
        let zero = Scalar::zero();
        CameraConfig {
            aspect_ratio: Scalar::from_bits(WIDE_BITS),
            image_width: 400,
            samples_per_pixel: 10,
            max_depth: 10,
            background: Vec3::new(zero, zero, zero),
            vfov: Scalar::from_bits(RIGHT_ANGLE_BITS),
            look_from: Vec3::new(zero, zero, zero),
            look_at: Vec3::new(zero, zero, Scalar::from_bits(MINUS_ONE_BITS)),
            vup: Vec3::new(zero, Scalar::one(), zero),
            defocus_angle: zero,
            focus_dist: Scalar::from_bits(TEN_BITS),
            file_path: String::from_str("image.ppm"),
        }
    }
}

impl From<CameraConfig> for Camera {
    fn from(config: CameraConfig) -> (camera: Camera) {
        Camera {
            aspect_ratio: config.aspect_ratio,
            image_width: config.image_width,
            samples_per_pixel: config.samples_per_pixel,
            max_depth: config.max_depth,
            background: config.background,
            vfov: config.vfov,
            look_from: config.look_from,
            look_at: config.look_at,
            vup: config.vup,
            defocus_angle: config.defocus_angle,
            focus_dist: config.focus_dist,
            file_path: config.file_path,
            image_height: 0,
            sqrt_spp: 0,
        }
    }
}

impl FromSpecImpl<CameraConfig> for Camera {
    open spec fn obeys_from_spec() -> bool {
        true
    }

    open spec fn from_spec(config: CameraConfig) -> Camera {
        Camera::of(config)
    }
}

impl Default for Camera {
    fn default() -> (camera: Camera)
        ensures
            default_config(camera.settings()),
            camera.image_height == 0,
            camera.sqrt_spp == 0,
    {
        Camera::from(CameraConfig::default())
    }
}

/// What came of a ray on its way into the scene.
#[derive(Clone, Copy, Debug)]
pub enum PathEvent {
    /// It met nothing.
    Missed,
    /// It met a surface that does not scatter it.
    Absorbed,
    /// It met a surface that scatters it, thus.
    Scattered(ScatterRecord),
}

/// The light that comes along a ray, as a sum yet to be worked out.
/// `emission` stands for the light that the surface met gives off and
/// `incoming(r)` for the light that comes along the ray `r`, which is found
/// in the same way with one bounce less to go.
#[derive(Clone, Copy, Debug)]
pub enum Radiance {
    /// None: no bounce is left.
    Black,
    /// The background colour of the scene.
    Background,
    /// `emission` alone.
    Emitted,
    /// `emission + attenuation * incoming(ray)`.
    Specular { attenuation: Color, ray: Ray },
    /// `emission + attenuation * s * incoming(scattered) / p`, with
    /// `scattered` a ray drawn from the even mixture of the distribution
    /// towards the lights and `pdf`, `p` the density of that mixture for it
    /// and `s` the density with which the material scatters into it.
    Sampled { attenuation: Color, pdf: Pdf },
}

/// What the scene reports of a ray: what came of it, and for a ray that
/// met a surface the record of the hit and the light that the surface gives
/// off towards it.
#[derive(Clone, Copy, Debug)]
pub struct Probe {
    pub event: PathEvent,
    pub rec: HitRecord,
    pub emission: Color,
}

/// A scattered ray drawn from the mixture of the lights' distribution and
/// the material's, with the density of the mixture for it, `pdf_value`, and
/// the density with which the material scatters into it, `scattering_pdf`.
#[derive(Clone, Copy, Debug)]
pub struct Scattering {
    pub ray: Ray,
    pub pdf_value: Scalar,
    pub scattering_pdf: Scalar,
}

/// One surface on the path of a ray through the scene, or the end of the
/// path: the terms of the sum that `radiance` names.
#[derive(Clone, Copy, Debug)]
pub struct Vertex {
    pub radiance: Radiance,
    pub emission: Color,
    pub pdf_value: Scalar,
    pub scattering_pdf: Scalar,
}

impl Radiance {
    /// The sum needs the light along a further ray.
    pub open spec fn goes_on(self) -> bool {
        self is Specular || self is Sampled
    }
}

/// The vertex of a ray that is not scattered by a distribution: its two
/// densities are zero.
pub open spec fn plain_vertex(radiance: Radiance, emission: Color) -> Vertex {
    Vertex { radiance, emission, pdf_value: Scalar { bits: 0 }, scattering_pdf: Scalar { bits: 0 } }
}

/// `path` is a path of a ray with `depth` bounces to go, last vertex first
/// and the ray's own vertex last: what `probe` reported of each ray, and
/// each further ray that of the material or the one that `sample` drew.
pub open spec fn is_path<P, S>(depth: nat, ray: Ray, probe: P, sample: S, path: Seq<Vertex>) -> bool where
    P: Fn(&Ray) -> Probe,
    S: Fn(&Ray, &Probe) -> Scattering,

    decreases depth, 1int,
{
    if depth == 0 {
        path == seq![plain_vertex(Radiance::Black, black())]
    } else {
        exists|found: Probe| #[trigger]
            call_ensures(probe, (&ray,), found) && is_path_from(
                depth,
                ray,
                probe,
                sample,
                path,
                found,
            )
    }
}

/// `path` is a path of a ray with `depth >= 1` bounces to go of which the
/// scene reported `found`.
pub open spec fn is_path_from<P, S>(
    depth: nat,
    ray: Ray,
    probe: P,
    sample: S,
    path: Seq<Vertex>,
    found: Probe,
) -> bool where P: Fn(&Ray) -> Probe, S: Fn(&Ray, &Probe) -> Scattering
    decreases depth, 0int,
{
    if depth == 0 {
        false
    } else {
        match Camera::step(depth as usize, found.event) {
            Radiance::Specular { attenuation, ray: next } => {
                &&& path.len() > 0
                &&& path.last() == plain_vertex(
                    Radiance::Specular { attenuation, ray: next },
                    found.emission,
                )
                &&& is_path((depth - 1) as nat, next, probe, sample, path.drop_last())
            },
            Radiance::Sampled { attenuation, pdf } => exists|drawn: Scattering| #[trigger]
                call_ensures(sample, (&ray, &found), drawn) && {
                    &&& path.len() > 0
                    &&& path.last() == (Vertex {
                        radiance: Radiance::Sampled { attenuation, pdf },
                        emission: found.emission,
                        pdf_value: drawn.pdf_value,
                        scattering_pdf: drawn.scattering_pdf,
                    })
                    &&& is_path((depth - 1) as nat, drawn.ray, probe, sample, path.drop_last())
                },
            ended => path == seq![plain_vertex(ended, found.emission)],
        }
    }
}

impl Camera {
    /// The camera of a description, its raster not yet worked out.
    pub open spec fn of(config: CameraConfig) -> Camera {
        Camera {
            aspect_ratio: config.aspect_ratio,
            image_width: config.image_width,
            samples_per_pixel: config.samples_per_pixel,
            max_depth: config.max_depth,
            background: config.background,
            vfov: config.vfov,
            look_from: config.look_from,
            look_at: config.look_at,
            vup: config.vup,
            defocus_angle: config.defocus_angle,
            focus_dist: config.focus_dist,
            file_path: config.file_path,
            image_height: 0,
            sqrt_spp: 0,
        }
    }

    /// What the description stated of the camera.
    pub open spec fn settings(self) -> CameraConfig {
        CameraConfig {
            aspect_ratio: self.aspect_ratio,
            image_width: self.image_width,
            samples_per_pixel: self.samples_per_pixel,
            max_depth: self.max_depth,
            background: self.background,
            vfov: self.vfov,
            look_from: self.look_from,
            look_at: self.look_at,
            vup: self.vup,
            defocus_angle: self.defocus_angle,
            focus_dist: self.focus_dist,
            file_path: self.file_path,
        }
    }

    /// One step of the path tracer, for a ray with `depth` bounces to go.
    pub open spec fn step(depth: usize, event: PathEvent) -> Radiance {
        if depth == 0 {
            Radiance::Black
        } else {
            match event {
                PathEvent::Missed => Radiance::Background,
                PathEvent::Absorbed => Radiance::Emitted,
                PathEvent::Scattered(srec) => if srec.skip_pdf {
                    Radiance::Specular { attenuation: srec.attenuation, ray: srec.skip_pdf_ray }
                } else {
                    Radiance::Sampled { attenuation: srec.attenuation, pdf: srec.pdf }
                },
            }
        }
    }

    /// A pixel of the image holds what was computed for it, or zero in place
    /// of a component that is not a number.
    pub open spec fn cleaned(component: Scalar) -> Scalar {
        if component.nan() {
            Scalar { bits: 0 }
        } else {
            component
        }
    }

    /// The pixels `(x, y, colour)` all lie inside the image.
    pub open spec fn inside(self, pixels: Seq<(usize, usize, Vec3)>) -> bool {
        forall|k: int|
            0 <= k < pixels.len() ==> (#[trigger] pixels[k]).0 < self.image_width && pixels[k].1
                < self.image_height
    }

    /// What the image shows at the place `(x, y)` in the component `c`: the
    /// cleaned colour of the last of `pixels` that is for that place, and
    /// zero where none is.
    pub open spec fn shown(pixels: Seq<(usize, usize, Vec3)>, x: int, y: int, c: int) -> Scalar
        decreases pixels.len(),
    {
        if pixels.len() == 0 {
            Scalar { bits: 0 }
        } else if pixels.last().0 == x && pixels.last().1 == y {
            Self::cleaned(pixels.last().2.0[c])
        } else {
            Self::shown(pixels.drop_last(), x, y, c)
        }
    }

    /// `image` is the image of `pixels`: row after row from the top, three
    /// components to a pixel.
    pub open spec fn is_image(self, pixels: Seq<(usize, usize, Vec3)>, image: Seq<Scalar>) -> bool {
        &&& image.len() == self.image_width * self.image_height * 3
        &&& forall|x: int, y: int, c: int|
            0 <= x < self.image_width && 0 <= y < self.image_height && 0 <= c < 3
                ==> #[trigger] image[(y * self.image_width + x) * 3 + c] == Self::shown(
                pixels,
                x,
                y,
                c,
            )
    }

    pub fn new() -> (camera: Camera)
        ensures
            default_config(camera.settings()),
            camera.image_height == 0,
            camera.sqrt_spp == 0,
    {
        Camera::default()
    }

    /// Sets the raster: the image has `rows` rows, but at least one, and
    /// each pixel a grid of `sqrt_spp` by `sqrt_spp` samples. `rows` is the
    /// width divided by the aspect ratio, and `sqrt_spp` the root of the
    /// number of samples, both cut to whole numbers.
    pub fn initialize(&mut self, rows: usize, sqrt_spp: usize)
        ensures
            *final(self) == (Camera {
                image_height: if rows == 0 {
                    1
                } else {
                    rows
                },
                sqrt_spp,
                ..*old(self)
            }),
    {
        self.image_height = if rows == 0 {
            1
        } else {
            rows
        };
        self.sqrt_spp = sqrt_spp;
    }

    /// Where a ray through the lens starts: at `disk_sample`, a point drawn
    /// from the lens, for a camera with a lens, and else at the camera's
    /// one point.
    pub fn ray_origin(&self, disk_sample: Point3) -> (origin: Point3)
        ensures
            origin == if (Scalar { bits: 0 }).lt_spec(self.defocus_angle) {
                disk_sample
            } else {
                self.look_from
            },
    {
        if self.defocus_angle.gt(Scalar::zero()) {
            disk_sample
        } else {
            self.look_from
        }
    }

    /// The image to write, from the pixels that were rendered: the flat list
    /// of its components, row after row, with zero in place of a component
    /// that is not a number. Every pixel must lie inside the image.
    pub fn write_image(&self, pixels: &Vec<(usize, usize, Vec3)>) -> (image: Vec<Scalar>)
        requires
            self.inside(pixels@),
            self.image_width * self.image_height * 3 <= usize::MAX,
        ensures
            self.is_image(pixels@, image@),
    {
        let width = self.image_width;
        let height = self.image_height;
        proof {
            lemma_place_bound(width as int, height as int, 0, 0, 0);
        }
        let total = width * height * 3;
        let mut image: Vec<Scalar> = Vec::new();
        let mut n: usize = 0;
        while n < total
            invariant
                n <= total,
                image.len() == n,
                forall|i: int| 0 <= i < n ==> (#[trigger] image[i]).bits == 0,
            decreases total - n,
        {
            image.push(Scalar::zero());
            n = n + 1;
        }
        assert(self.is_image(pixels@.take(0), image@)) by {
            assert forall|x: int, y: int, c: int|
                0 <= x < width && 0 <= y < height && 0 <= c < 3 implies #[trigger] image[(y * width
                + x) * 3 + c] == Self::shown(pixels@.take(0), x, y, c) by {
                lemma_place_bound(width as int, height as int, x, y, c);
            }
        }
        let mut k: usize = 0;
        while k < pixels.len()
            invariant
                k <= pixels.len(),
                width == self.image_width,
                height == self.image_height,
                total == width * height * 3,
                self.inside(pixels@),
                self.is_image(pixels@.take(k as int), image@),
            decreases pixels.len() - k,
        {
            let (x, y, colour) = pixels[k];
            let ghost before = image@;
            proof {
                lemma_place_bound(width as int, height as int, x as int, y as int, 0);
                lemma_place_bound(width as int, height as int, x as int, y as int, 2);
            }
            let at = (y * width + x) * 3;
            let mut c: usize = 0;
            while c < 3
                invariant
                    c <= 3,
                    at == (y * width + x) * 3,
                    at + 2 < image.len(),
                    image.len() == before.len(),
                    colour == pixels[k as int].2,
                    forall|i: int|
                        0 <= i < image.len() ==> #[trigger] image[i] == if at <= i < at + c {
                            Self::cleaned(colour.0[i - at])
                        } else {
                            before[i]
                        },
                decreases 3 - c,
            {
                let component = colour.0[c];
                let held = if component.is_nan() {
                    Scalar::zero()
                } else {
                    component
                };
                image.set(at + c, held);
                c = c + 1;
            }
            k = k + 1;
            proof {
                let now = pixels@.take(k as int);
                assert(now.drop_last() =~= pixels@.take(k as int - 1));
                assert(now.last() == pixels[k as int - 1]);
                assert forall|px: int, py: int, pc: int|
                    0 <= px < width && 0 <= py < height && 0 <= pc < 3 implies #[trigger] image[(py
                    * width + px) * 3 + pc] == Self::shown(now, px, py, pc) by {
                    lemma_place_bound(width as int, height as int, px, py, pc);
                    lemma_place_apart(width as int, px, py, pc, x as int, y as int);
                }
            }
        }
        assert(pixels@.take(k as int) =~= pixels@);
        image
    }

    /// Follows a ray through the scene, from surface to surface, for at most
    /// `depth` bounces, and returns the path, last vertex first. The light
    /// along the ray is the sum that the vertices name, worked out from the
    /// first of them to the last. `probe` finds what a ray meets, and
    /// `sample` draws the scattered ray where the material scatters by a
    /// distribution.
    pub fn trace<P, S>(depth: usize, ray: &Ray, probe: &P, sample: &S) -> (path: Vec<Vertex>) where
        P: Fn(&Ray) -> Probe,
        S: Fn(&Ray, &Probe) -> Scattering,

        requires
            forall|r: Ray| call_requires(*probe, (&r,)),
            forall|r: Ray, found: Probe| call_requires(*sample, (&r, &found)),
        ensures
            is_path(depth as nat, *ray, *probe, *sample, path@),
        decreases depth,
    {
        let zero = Scalar::zero();
        if depth == 0 {
            let mut path: Vec<Vertex> = Vec::new();
            path.push(
                Vertex {
                    radiance: Radiance::Black,
                    emission: Vec3::new(zero, zero, zero),
                    pdf_value: zero,
                    scattering_pdf: zero,
                },
            );
            assert(path@ =~= seq![plain_vertex(Radiance::Black, black())]);
            return path;
        }
        let found = probe(ray);
        let radiance = Self::ray_color(depth, &found.event);
        match radiance {
            Radiance::Specular { attenuation, ray: next } => {
                let mut path = Self::trace(depth - 1, &next, probe, sample);
                let ghost rest = path@;
                path.push(
                    Vertex { radiance, emission: found.emission, pdf_value: zero, scattering_pdf: zero },
                );
                assert(path@.drop_last() =~= rest);
                path
            },
            Radiance::Sampled { attenuation, pdf } => {
                let drawn = sample(ray, &found);
                let mut path = Self::trace(depth - 1, &drawn.ray, probe, sample);
                let ghost rest = path@;
                path.push(
                    Vertex {
                        radiance,
                        emission: found.emission,
                        pdf_value: drawn.pdf_value,
                        scattering_pdf: drawn.scattering_pdf,
                    },
                );
                assert(path@.drop_last() =~= rest);
                path
            },
            _ => {
                let mut path: Vec<Vertex> = Vec::new();
                path.push(
                    Vertex { radiance, emission: found.emission, pdf_value: zero, scattering_pdf: zero },
                );
                assert(path@ =~= seq![plain_vertex(radiance, found.emission)]);
                path
            },
        }
    }

    /// What the light along a ray is made of, for a ray with `depth` bounces
    /// to go and what came of it in the scene. At depth 0 it is black
    /// whatever the scene holds; a ray that meets no surface sees the
    /// background; a surface that does not scatter shows its own light
    /// alone.
    pub fn ray_color(depth: usize, event: &PathEvent) -> (radiance: Radiance)
        ensures
            radiance == Self::step(depth, *event),
    {
        if depth == 0 {
            return Radiance::Black;
        }
        match event {
            PathEvent::Missed => Radiance::Background,
            PathEvent::Absorbed => Radiance::Emitted,
            PathEvent::Scattered(srec) => {
                if srec.skip_pdf {
                    Radiance::Specular { attenuation: srec.attenuation, ray: srec.skip_pdf_ray }
                } else {
                    Radiance::Sampled { attenuation: srec.attenuation, pdf: srec.pdf }
                }
            },
        }
    }
}

/// With no bounce to go the path is the one black vertex, whatever the scene
/// holds.
pub proof fn lemma_depth_zero_is_black<P, S>(ray: Ray, probe: P, sample: S, path: Seq<Vertex>) where
    P: Fn(&Ray) -> Probe,
    S: Fn(&Ray, &Probe) -> Scattering,

    requires
        is_path(0, ray, probe, sample, path),
    ensures
        path == seq![plain_vertex(Radiance::Black, black())],
{
}

/// Where the ray meets a surface that does not scatter, a light, the path is
/// the one vertex that stands for the light the surface gives off, and
/// nothing scattered adds to it; where the ray meets nothing, it is the one
/// vertex for the background.
pub proof fn lemma_unscattered_is_emission<P, S>(
    depth: nat,
    ray: Ray,
    probe: P,
    sample: S,
    path: Seq<Vertex>,
) where P: Fn(&Ray) -> Probe, S: Fn(&Ray, &Probe) -> Scattering
    requires
        1 <= depth <= usize::MAX,
        forall|found: Probe| #[trigger]
            call_ensures(probe, (&ray,), found) ==> !(found.event is Scattered),
        is_path(depth, ray, probe, sample, path),
    ensures
        exists|found: Probe| #[trigger]
            call_ensures(probe, (&ray,), found) && path == seq![
                plain_vertex(
                    if found.event is Missed {
                        Radiance::Background
                    } else {
                        Radiance::Emitted
                    },
                    found.emission,
                ),
            ],
{
    let found = choose|found: Probe| #[trigger]
        call_ensures(probe, (&ray,), found) && is_path_from(depth, ray, probe, sample, path, found);
    assert(call_ensures(probe, (&ray,), found));
}

/// Rendering is repeatable: where what the scene reports of a ray and the
/// ray that is drawn at a surface are settled by the ray, as they are with a
/// generator of random numbers that is seeded, a ray has one path only.
pub proof fn lemma_path_is_determined<P, S>(
    depth: nat,
    ray: Ray,
    probe: P,
    sample: S,
    one: Seq<Vertex>,
    other: Seq<Vertex>,
) where P: Fn(&Ray) -> Probe, S: Fn(&Ray, &Probe) -> Scattering
    requires
        forall|r: Ray, a: Probe, b: Probe|
            call_ensures(probe, (&r,), a) && call_ensures(probe, (&r,), b) ==> a == b,
        forall|r: Ray, found: Probe, a: Scattering, b: Scattering|
            call_ensures(sample, (&r, &found), a) && call_ensures(sample, (&r, &found), b) ==> a == b,
        is_path(depth, ray, probe, sample, one),
        is_path(depth, ray, probe, sample, other),
    ensures
        one == other,
    decreases depth,
{
    if depth > 0 {
        let found = choose|found: Probe| #[trigger]
            call_ensures(probe, (&ray,), found) && is_path_from(
                depth,
                ray,
                probe,
                sample,
                one,
                found,
            );
        let again = choose|found: Probe| #[trigger]
            call_ensures(probe, (&ray,), found) && is_path_from(
                depth,
                ray,
                probe,
                sample,
                other,
                found,
            );
        assert(found == again);
        match Camera::step(depth as usize, found.event) {
            Radiance::Specular { attenuation, ray: next } => {
                lemma_path_is_determined(
                    (depth - 1) as nat,
                    next,
                    probe,
                    sample,
                    one.drop_last(),
                    other.drop_last(),
                );
                assert(one =~= one.drop_last().push(one.last()));
                assert(other =~= other.drop_last().push(other.last()));
            },
            Radiance::Sampled { attenuation, pdf } => {
                let drawn = choose|drawn: Scattering| #[trigger]
                    call_ensures(sample, (&ray, &found), drawn) && {
                        &&& one.len() > 0
                        &&& one.last() == (Vertex {
                            radiance: Radiance::Sampled { attenuation, pdf },
                            emission: found.emission,
                            pdf_value: drawn.pdf_value,
                            scattering_pdf: drawn.scattering_pdf,
                        })
                        &&& is_path((depth - 1) as nat, drawn.ray, probe, sample, one.drop_last())
                    };
                let redrawn = choose|drawn: Scattering| #[trigger]
                    call_ensures(sample, (&ray, &found), drawn) && {
                        &&& other.len() > 0
                        &&& other.last() == (Vertex {
                            radiance: Radiance::Sampled { attenuation, pdf },
                            emission: found.emission,
                            pdf_value: drawn.pdf_value,
                            scattering_pdf: drawn.scattering_pdf,
                        })
                        &&& is_path((depth - 1) as nat, drawn.ray, probe, sample, other.drop_last())
                    };
                assert(drawn == redrawn);
                lemma_path_is_determined(
                    (depth - 1) as nat,
                    drawn.ray,
                    probe,
                    sample,
                    one.drop_last(),
                    other.drop_last(),
                );
                assert(one =~= one.drop_last().push(one.last()));
                assert(other =~= other.drop_last().push(other.last()));
            },
            _ => {},
        }
    }
}

/// A path has at least one vertex and at most one more than the bounces it
/// was given; it ends in a vertex that needs no further ray, and every other
/// vertex needs the one before it.
pub proof fn lemma_path_shape<P, S>(depth: nat, ray: Ray, probe: P, sample: S, path: Seq<Vertex>) where
    P: Fn(&Ray) -> Probe,
    S: Fn(&Ray, &Probe) -> Scattering,

    requires
        depth <= usize::MAX,
        is_path(depth, ray, probe, sample, path),
    ensures
        1 <= path.len() <= depth + 1,
        !path[0].radiance.goes_on(),
        forall|k: int| 1 <= k < path.len() ==> (#[trigger] path[k]).radiance.goes_on(),
    decreases depth,
{
    if depth > 0 {
        let found = choose|found: Probe| #[trigger]
            call_ensures(probe, (&ray,), found) && is_path_from(
                depth,
                ray,
                probe,
                sample,
                path,
                found,
            );
        let rest = path.drop_last();
        match Camera::step(depth as usize, found.event) {
            Radiance::Specular { attenuation, ray: next } => {
                lemma_path_shape((depth - 1) as nat, next, probe, sample, rest);
            },
            Radiance::Sampled { attenuation, pdf } => {
                let drawn = choose|drawn: Scattering| #[trigger]
                    call_ensures(sample, (&ray, &found), drawn) && {
                        &&& path.len() > 0
                        &&& path.last() == (Vertex {
                            radiance: Radiance::Sampled { attenuation, pdf },
                            emission: found.emission,
                            pdf_value: drawn.pdf_value,
                            scattering_pdf: drawn.scattering_pdf,
                        })
                        &&& is_path((depth - 1) as nat, drawn.ray, probe, sample, rest)
                    };
                lemma_path_shape((depth - 1) as nat, drawn.ray, probe, sample, rest);
            },
            _ => {},
        }
        if path.len() > 1 {
            assert forall|k: int| 1 <= k < path.len() implies (#[trigger] path[k]).radiance.goes_on() by {
                if k < path.len() - 1 {
                    assert(path[k] == rest[k]);
                }
            }
            assert(path[0] == rest[0]);
        }
    }
}

/// The place of a component in the image lies inside the image.
proof fn lemma_place_bound(width: int, height: int, x: int, y: int, c: int)
    requires
        0 <= x < width || (x == 0 && width == 0),
        0 <= y < height || (y == 0 && height == 0),
        0 <= c < 3,
    ensures
        0 <= width * height,
        0 <= y * width + x,
        0 <= x < width && 0 <= y < height ==> (y * width + x) * 3 + c < width * height * 3,
{
    assert(0 <= width * height) by (nonlinear_arith)
        requires
            0 <= width,
            0 <= height,
    ;
    assert(0 <= y * width) by (nonlinear_arith)
        requires
            0 <= width,
            0 <= y,
    ;
    if 0 <= x < width && 0 <= y < height {
        assert((y + 1) * width <= height * width) by (nonlinear_arith)
            requires
                y + 1 <= height,
                0 <= width,
        ;
        assert((y + 1) * width == y * width + width) by (nonlinear_arith);
        assert(height * width == width * height) by (nonlinear_arith);
    }
}

/// The components of one place stand apart from those of every other place.
proof fn lemma_place_apart(width: int, px: int, py: int, pc: int, x: int, y: int)
    requires
        0 <= px < width,
        0 <= x < width,
        0 <= py,
        0 <= y,
        0 <= pc < 3,
    ensures
        ({
            let at = (y * width + x) * 3;
            let place = (py * width + px) * 3 + pc;
            (at <= place < at + 3) <==> (px == x && py == y)
        }),
        (px == x && py == y) ==> (py * width + px) * 3 + pc - (y * width + x) * 3 == pc,
{
    if py < y {
        assert((py + 1) * width <= y * width) by (nonlinear_arith)
            requires
                py + 1 <= y,
                0 <= width,
        ;
        assert((py + 1) * width == py * width + width) by (nonlinear_arith);
    }
    if y < py {
        assert((y + 1) * width <= py * width) by (nonlinear_arith)
            requires
                y + 1 <= py,
                0 <= width,
        ;
        assert((y + 1) * width == y * width + width) by (nonlinear_arith);
    }
}

} // verus!
