use ray_tracing::camera::{
    Camera, CameraConfig, PathEvent, Probe, Radiance, Scattering, Vertex,
};
use ray_tracing::hittable::HitRecord;
use ray_tracing::material::ScatterRecord;
use ray_tracing::onb::ONB;
use ray_tracing::pdf::{CosinePdf, Pdf};
use ray_tracing::ray::Ray;
use ray_tracing::scalar::Scalar;
use ray_tracing::vec3::Vec3;

fn s(x: f32) -> Scalar {
    Scalar::from_bits(x.to_bits())
}

fn f(x: Scalar) -> f32 {
    f32::from_bits(x.to_bits())
}

fn v(x: f32, y: f32, z: f32) -> Vec3 {
    Vec3::new(s(x), s(y), s(z))
}

fn a(p: Vec3) -> [f32; 3] {
    [f(p.x()), f(p.y()), f(p.z())]
}

fn ray(x: f32) -> Ray {
    Ray::new(v(x, 0.0, 0.0), v(0.0, 0.0, 1.0), s(0.0))
}

fn basis() -> ONB {
    ONB { axis: [v(1.0, 0.0, 0.0), v(0.0, 1.0, 0.0), v(0.0, 0.0, 1.0)] }
}

fn probe(event: PathEvent, emission: Vec3) -> Probe {
    Probe { event, rec: HitRecord::default(), emission }
}

fn specular(next: f32) -> PathEvent {
    PathEvent::Scattered(ScatterRecord {
        attenuation: v(0.5, 0.5, 0.5),
        skip_pdf: true,
        skip_pdf_ray: ray(next),
        ..ScatterRecord::default()
    })
}

fn diffuse() -> PathEvent {
    PathEvent::Scattered(ScatterRecord {
        attenuation: v(0.25, 0.5, 0.75),
        pdf: Pdf::Cosine(CosinePdf::new(basis())),
        skip_pdf: false,
        ..ScatterRecord::default()
    })
}

fn no_sample(_: &Ray, _: &Probe) -> Scattering {
    panic!("nothing scatters by a distribution here")
}

/// The colour of a path, as the camera works it out from the vertices.
fn colour(path: &[Vertex], background: [f32; 3]) -> [f32; 3] {
    let mut incoming = [0.0f32; 3];
    for vertex in path {
        let e = a(vertex.emission);
        incoming = match vertex.radiance {
            Radiance::Black => [0.0; 3],
            Radiance::Background => background,
            Radiance::Emitted => e,
            Radiance::Specular { attenuation, .. } => {
                let w = a(attenuation);
                [e[0] + w[0] * incoming[0], e[1] + w[1] * incoming[1], e[2] + w[2] * incoming[2]]
            },
            Radiance::Sampled { attenuation, .. } => {
                let w = a(attenuation);
                let sp = f(vertex.scattering_pdf);
                let p = f(vertex.pdf_value);
                [
                    e[0] + w[0] * sp * incoming[0] / p,
                    e[1] + w[1] * sp * incoming[1] / p,
                    e[2] + w[2] * sp * incoming[2] / p,
                ]
            },
        };
    }
    incoming
}

#[test]
fn the_default_camera() {
    let c = Camera::new();
    assert_eq!(f(c.aspect_ratio), 16.0 / 9.0);
    assert_eq!(c.image_width, 400);
    assert_eq!(c.samples_per_pixel, 10);
    assert_eq!(c.max_depth, 10);
    assert_eq!(a(c.background), [0.0, 0.0, 0.0]);
    assert_eq!(f(c.vfov), 90.0);
    assert_eq!(a(c.look_from), [0.0, 0.0, 0.0]);
    assert_eq!(a(c.look_at), [0.0, 0.0, -1.0]);
    assert_eq!(a(c.vup), [0.0, 1.0, 0.0]);
    assert_eq!(f(c.defocus_angle), 0.0);
    assert_eq!(f(c.focus_dist), 10.0);
    assert_eq!(c.file_path, "image.ppm");
    assert_eq!((c.image_height, c.sqrt_spp), (0, 0));
    assert_eq!(CameraConfig::default().file_path, "image.ppm");
}

#[test]
fn a_camera_from_a_description_keeps_what_it_states() {
    let mut config = CameraConfig::default();
    config.image_width = 600;
    config.max_depth = 50;
    config.background = v(0.7, 0.8, 1.0);
    config.file_path = "out.exr".to_string();
    let c = Camera::from(config);
    assert_eq!(c.image_width, 600);
    assert_eq!(c.max_depth, 50);
    assert_eq!(a(c.background), [0.7, 0.8, 1.0]);
    assert_eq!(c.file_path, "out.exr");
    assert_eq!(c.image_height, 0);
}

#[test]
fn an_image_has_at_least_one_row() {
    let mut c = Camera::new();
    c.initialize(0, 3);
    assert_eq!((c.image_height, c.sqrt_spp), (1, 3));
    c.initialize(225, 10);
    assert_eq!((c.image_height, c.sqrt_spp), (225, 10));
    assert_eq!(c.image_width, 400);
}

#[test]
fn a_ray_starts_at_the_lens_only_where_there_is_one() {
    let mut c = Camera::new();
    c.look_from = v(13.0, 2.0, 3.0);
    assert_eq!(a(c.ray_origin(v(1.0, 1.0, 1.0))), [13.0, 2.0, 3.0]);
    c.defocus_angle = s(0.6);
    assert_eq!(a(c.ray_origin(v(1.0, 1.0, 1.0))), [1.0, 1.0, 1.0]);
}

#[test]
fn at_depth_zero_the_light_is_black_whatever_the_scene() {
    for event in [PathEvent::Missed, PathEvent::Absorbed, specular(1.0), diffuse()] {
        assert!(matches!(Camera::ray_color(0, &event), Radiance::Black));
    }
    let asked = std::cell::Cell::new(0);
    let scene = |_: &Ray| {
        asked.set(asked.get() + 1);
        probe(PathEvent::Absorbed, v(4.0, 4.0, 4.0))
    };
    let path = Camera::trace(0, &ray(0.0), &scene, &no_sample);
    assert_eq!(path.len(), 1);
    assert!(matches!(path[0].radiance, Radiance::Black));
    assert_eq!(asked.get(), 0);
    assert_eq!(colour(&path, [0.7, 0.8, 1.0]), [0.0, 0.0, 0.0]);
}

#[test]
fn a_light_met_directly_shows_its_own_light_alone() {
    let scene = |_: &Ray| probe(PathEvent::Absorbed, v(7.0, 6.0, 5.0));
    for depth in [1usize, 2, 50] {
        let path = Camera::trace(depth, &ray(0.0), &scene, &no_sample);
        assert_eq!(path.len(), 1);
        assert!(matches!(path[0].radiance, Radiance::Emitted));
        assert_eq!(colour(&path, [0.7, 0.8, 1.0]), [7.0, 6.0, 5.0]);
    }
}

#[test]
fn a_ray_that_meets_nothing_sees_the_background() {
    let scene = |_: &Ray| probe(PathEvent::Missed, v(0.0, 0.0, 0.0));
    let path = Camera::trace(5, &ray(0.0), &scene, &no_sample);
    assert_eq!(path.len(), 1);
    assert!(matches!(path[0].radiance, Radiance::Background));
    assert_eq!(colour(&path, [0.7, 0.8, 1.0]), [0.7, 0.8, 1.0]);
}

#[test]
fn ray_color_names_the_sum_for_each_event() {
    match Camera::ray_color(3, &specular(9.0)) {
        Radiance::Specular { attenuation, ray } => {
            assert_eq!(a(attenuation), [0.5, 0.5, 0.5]);
            assert_eq!(f(ray.origin().x()), 9.0);
        },
        other => panic!("{:?}", other),
    }
    match Camera::ray_color(3, &diffuse()) {
        Radiance::Sampled { attenuation, pdf } => {
            assert_eq!(a(attenuation), [0.25, 0.5, 0.75]);
            assert!(matches!(pdf, Pdf::Cosine(_)));
        },
        other => panic!("{:?}", other),
    }
    assert!(matches!(Camera::ray_color(1, &PathEvent::Missed), Radiance::Background));
    assert!(matches!(Camera::ray_color(1, &PathEvent::Absorbed), Radiance::Emitted));
}

#[test]
fn a_path_between_mirrors_ends_when_the_bounces_are_used_up() {
    let scene = |r: &Ray| probe(specular(f(r.origin().x()) + 1.0), v(1.0, 0.0, 0.0));
    let path = Camera::trace(4, &ray(0.0), &scene, &no_sample);
    assert_eq!(path.len(), 5);
    assert!(matches!(path[0].radiance, Radiance::Black));
    let starts: Vec<f32> = path[1..]
        .iter()
        .map(|vertex| match vertex.radiance {
            Radiance::Specular { ray, .. } => f(ray.origin().x()),
            other => panic!("{:?}", other),
        })
        .collect();
    assert_eq!(starts, vec![4.0, 3.0, 2.0, 1.0]);
    assert_eq!(colour(&path, [0.0; 3]), [1.0 + 0.5 * (1.0 + 0.5 * (1.0 + 0.5 * 1.0)), 0.0, 0.0]);
}

#[test]
fn a_path_over_a_matt_floor_to_a_light() {
    let scene = |r: &Ray| {
        if f(r.origin().x()) == 0.0 {
            probe(diffuse(), v(0.0, 0.0, 0.0))
        } else {
            probe(PathEvent::Absorbed, v(8.0, 8.0, 8.0))
        }
    };
    let sample = |_: &Ray, found: &Probe| {
        assert!(matches!(found.event, PathEvent::Scattered(_)));
        Scattering { ray: ray(1.0), pdf_value: s(0.5), scattering_pdf: s(0.25) }
    };
    let path = Camera::trace(10, &ray(0.0), &scene, &sample);
    assert_eq!(path.len(), 2);
    assert!(matches!(path[0].radiance, Radiance::Emitted));
    assert!(matches!(path[1].radiance, Radiance::Sampled { .. }));
    assert_eq!((f(path[1].pdf_value), f(path[1].scattering_pdf)), (0.5, 0.25));
    assert_eq!(colour(&path, [0.0; 3]), [0.25 * 0.25 * 8.0 / 0.5, 0.5 * 0.25 * 8.0 / 0.5, 0.75 * 0.25 * 8.0 / 0.5]);
}

#[test]
fn the_image_is_laid_out_row_after_row() {
    let mut c = Camera::new();
    c.image_width = 3;
    c.initialize(2, 1);
    let pixels = vec![
        (2usize, 1usize, v(1.0, 2.0, 3.0)),
        (0, 0, v(4.0, 5.0, 6.0)),
        (1, 0, v(f32::NAN, 0.5, f32::INFINITY)),
        (0, 0, v(7.0, 8.0, 9.0)),
    ];
    let image: Vec<f32> = c.write_image(&pixels).iter().map(|&x| f(x)).collect();
    assert_eq!(
        image,
        vec![
            7.0, 8.0, 9.0, 0.0, 0.5, f32::INFINITY, 0.0, 0.0, 0.0, //
            0.0, 0.0, 0.0, 0.0, 0.0, 0.0, 1.0, 2.0, 3.0,
        ]
    );
}

#[test]
fn an_image_without_pixels_is_black() {
    let mut c = Camera::new();
    c.image_width = 2;
    c.initialize(2, 1);
    assert_eq!(c.write_image(&Vec::new()).iter().map(|&x| f(x)).collect::<Vec<f32>>(), vec![0.0; 12]);
    c.image_width = 0;
    assert!(c.write_image(&Vec::new()).is_empty());
}
