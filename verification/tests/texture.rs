use ray_tracing::color::{intensity, linear_to_gamma};
use ray_tracing::cylinder::{CapCrossing, Crossing, Cylinder, Part};
use ray_tracing::interval::Interval;
use ray_tracing::material::{Glossy, Lobe, ScatterRecord};
use ray_tracing::onb::ONB;
use ray_tracing::pdf::Pdf;
use ray_tracing::scalar::Scalar;
use ray_tracing::texture::{Checkerboard, Perlin, SolidColor};
use ray_tracing::vec3::{in_unit_ball, random_on_hemisphere, Vec3};

fn s(x: f32) -> Scalar {
    Scalar::from_bits(x.to_bits())
}

fn f(x: Scalar) -> f32 {
    f32::from_bits(x.to_bits())
}

fn v(x: f32, y: f32, z: f32) -> Vec3 {
    Vec3::new(s(x), s(y), s(z))
}

fn a(p: Vec3) -> [f32; 3] {
    [f(p.x()), f(p.y()), f(p.z())]
}

fn whole() -> Interval {
    Interval::new(s(0.001), Scalar::infinity())
}

#[test]
fn a_solid_colour_is_the_same_everywhere() {
    assert_eq!(a(SolidColor::new(v(0.2, 0.3, 0.1)).value()), [0.2, 0.3, 0.1]);
    assert_eq!(a(SolidColor::from_rgb(s(0.9), s(0.8), s(0.7)).value()), [0.9, 0.8, 0.7]);
    assert_eq!(a(SolidColor::default().value()), [0.0, 0.0, 0.0]);
}

#[test]
fn the_checkerboard_goes_by_the_sum_of_the_coordinates() {
    assert!(Checkerboard::is_even(0, 0, 0));
    assert!(Checkerboard::is_even(1, 2, 3));
    assert!(!Checkerboard::is_even(1, 2, 4));
    assert!(!Checkerboard::is_even(-1, 0, 0));
    assert!(Checkerboard::is_even(-1, -1, 0));
    assert!(!Checkerboard::is_even(-3, 1, 1));
    let even = v(0.2, 0.3, 0.1);
    let odd = v(0.9, 0.9, 0.9);
    assert_eq!(a(Checkerboard::value(3, -1, 0, even, odd)), [0.2, 0.3, 0.1]);
    assert_eq!(a(Checkerboard::value(3, -1, 1, even, odd)), [0.9, 0.9, 0.9]);
}

fn noise(seed: u64) -> (Perlin, Vec<Vec3>, [Vec<i32>; 3]) {
    let mut state = seed;
    let mut next = move || {
        state = state.wrapping_mul(6364136223846793005).wrapping_add(1442695040888963407);
        (state >> 33) as usize
    };
    let vectors: Vec<Vec3> = (0..256).map(|i| v(i as f32, 0.0, 0.0)).collect();
    let mut targets = Vec::new();
    let mut orders: [Vec<i32>; 3] = [Vec::new(), Vec::new(), Vec::new()];
    for axis in 0..3 {
        let t: Vec<usize> = (0..256).map(|i| next() % (i + 1)).collect();
        let mut p: Vec<i32> = (0..256).collect();
        for i in (1..256).rev() {
            p.swap(i, t[i]);
        }
        orders[axis] = p;
        targets.push(t);
    }
    (Perlin::new(vectors.clone(), &targets[0], &targets[1], &targets[2]), vectors, orders)
}

#[test]
fn the_lattice_is_scrambled_by_the_three_orders() {
    let (perlin, vectors, orders) = noise(99);
    for (i, j, k) in [(0i32, 0i32, 0i32), (5, 250, 255), (-1, -300, 1000), (i32::MIN, 7, -256)] {
        let c = perlin.lattice(i, j, k);
        for di in 0..2 {
            for dj in 0..2 {
                for dk in 0..2 {
                    let x = orders[0][((i + di as i32) & 255) as usize];
                    let y = orders[1][((j + dj as i32) & 255) as usize];
                    let z = orders[2][((k + dk as i32) & 255) as usize];
                    assert_eq!(a(c[di][dj][dk]), a(vectors[(x ^ y ^ z) as usize]));
                }
            }
        }
    }
}

#[test]
fn permute_swaps_from_the_last_place_down() {
    let mut p: Vec<i32> = vec![10, 11, 12, 13, 14];
    Perlin::permute(&mut p, 5, &vec![0, 0, 1, 0, 2]);
    assert_eq!(p, vec![14, 13, 11, 10, 12]);
    let mut q: Vec<i32> = vec![1, 2, 3];
    Perlin::permute(&mut q, 2, &vec![0, 0]);
    assert_eq!(q, vec![2, 1, 3]);
    let mut one: Vec<i32> = vec![7];
    Perlin::permute(&mut one, 1, &vec![0]);
    assert_eq!(one, vec![7]);
    let mut same: Vec<i32> = (0..256).collect();
    Perlin::permute(&mut same, 256, &(0..256).collect());
    assert_eq!(same, (0..256).collect::<Vec<i32>>());
}

#[test]
fn gamma_and_intensity() {
    assert_eq!(f(linear_to_gamma(s(0.25), s(0.5))), 0.5);
    assert_eq!(f(linear_to_gamma(s(0.0), s(0.0))), 0.0);
    assert_eq!(f(linear_to_gamma(s(-4.0), s(f32::NAN))), 0.0);
    assert_eq!(f(linear_to_gamma(s(f32::NAN), s(f32::NAN))), 0.0);
    assert_eq!(f(intensity(s(0.5))), 0.5);
    assert_eq!(f(intensity(s(1.5))), 0.999);
    assert_eq!(f(intensity(s(-1.0))), 0.0);
    assert_eq!((256.0 * f(intensity(s(7.0)))) as u32, 255);
}

#[test]
fn a_sample_is_turned_to_the_side_of_the_normal() {
    assert_eq!(a(random_on_hemisphere(v(0.1, 0.2, 0.3), s(0.5))), [0.1, 0.2, 0.3]);
    assert_eq!(a(random_on_hemisphere(v(0.1, 0.2, 0.3), s(-0.5))), [-0.1, -0.2, -0.3]);
    assert_eq!(a(random_on_hemisphere(v(0.1, 0.2, 0.3), s(0.0))), [-0.1, -0.2, -0.3]);
    assert!(in_unit_ball(s(0.99)));
    assert!(!in_unit_ball(s(1.0)));
    assert!(!in_unit_ball(s(f32::NAN)));
}

#[test]
fn a_glossy_surface_is_never_quite_smooth() {
    let black = v(0.0, 0.0, 0.0);
    assert_eq!(f(Glossy::new(black, s(0.0), s(0.5), black).roughness), 0.001);
    assert_eq!(f(Glossy::new(black, s(0.3), s(0.5), black).roughness), 0.3);
    assert_eq!(f(Glossy::new(black, s(f32::NAN), s(0.5), black).roughness), 0.001);
    assert!(matches!(Glossy::lobe(s(0.2), s(0.25)), Lobe::Specular));
    assert!(matches!(Glossy::lobe(s(0.25), s(0.25)), Lobe::Diffuse));
}

#[test]
fn a_glossy_surface_does_not_scatter_into_itself() {
    let mut srec = ScatterRecord::default();
    srec.skip_pdf = false;
    let p = v(1.0, 1.0, 1.0);
    let l = v(0.0, 1.0, 0.0);
    assert!(!Glossy::scatter_specular(s(0.0), v(0.5, 0.5, 0.5), p, l, s(0.0), &mut srec));
    assert!(!Glossy::scatter_specular(s(-0.2), v(0.5, 0.5, 0.5), p, l, s(0.0), &mut srec));
    assert!(!srec.skip_pdf);
    assert!(Glossy::scatter_specular(s(0.2), v(0.5, 0.5, 0.5), p, l, s(0.0), &mut srec));
    assert!(srec.skip_pdf);
    assert_eq!(a(srec.skip_pdf_ray.direction()), [0.0, 1.0, 0.0]);
    let basis = ONB { axis: [v(1.0, 0.0, 0.0), v(0.0, 1.0, 0.0), v(0.0, 0.0, 1.0)] };
    assert!(Glossy::scatter_diffuse(v(0.1, 0.2, 0.3), basis, &mut srec));
    assert!(!srec.skip_pdf);
    assert!(matches!(srec.pdf, Pdf::Cosine(_)));
    assert_eq!(a(Glossy::evaluate_brdf(s(0.5), s(0.0), v(1.0, 1.0, 1.0))), [0.0, 0.0, 0.0]);
    assert_eq!(a(Glossy::evaluate_brdf(s(0.5), s(0.5), v(1.0, 2.0, 3.0))), [1.0, 2.0, 3.0]);
    assert_eq!(f(Glossy::density(s(0.0), s(3.0))), 0.0);
    assert_eq!(f(Glossy::density(s(0.1), s(3.0))), 3.0);
}

#[test]
fn the_side_of_a_cylinder_is_met_within_its_height() {
    let both = [Crossing { t: s(2.0), y: s(0.5) }, Crossing { t: s(4.0), y: s(0.7) }];
    assert_eq!(Cylinder::hit_sides(s(1.0), s(4.0), &both, s(0.0), s(1.0), &whole()), Some(0));
    let far_only = [Crossing { t: s(2.0), y: s(1.5) }, Crossing { t: s(4.0), y: s(0.7) }];
    assert_eq!(Cylinder::hit_sides(s(1.0), s(4.0), &far_only, s(0.0), s(1.0), &whole()), Some(1));
    let behind = [Crossing { t: s(-2.0), y: s(0.5) }, Crossing { t: s(4.0), y: s(1.0) }];
    assert_eq!(Cylinder::hit_sides(s(1.0), s(4.0), &behind, s(0.0), s(1.0), &whole()), Some(1));
    let swapped = [Crossing { t: s(4.0), y: s(0.5) }, Crossing { t: s(2.0), y: s(0.5) }];
    assert_eq!(Cylinder::hit_sides(s(1.0), s(4.0), &swapped, s(0.0), s(1.0), &whole()), Some(1));
    assert_eq!(Cylinder::hit_sides(s(1.0), s(-4.0), &both, s(0.0), s(1.0), &whole()), None);
    assert_eq!(Cylinder::hit_sides(s(1e-8), s(4.0), &both, s(0.0), s(1.0), &whole()), None);
    assert_eq!(Cylinder::hit_sides(s(1.0), s(4.0), &both, s(2.0), s(3.0), &whole()), None);
}

#[test]
fn a_cap_of_a_cylinder_is_met_within_its_radius() {
    let caps = [
        CapCrossing { t: s(3.0), distance_squared: s(0.5) },
        CapCrossing { t: s(1.0), distance_squared: s(0.2) },
    ];
    assert_eq!(Cylinder::hit_caps(s(-1.0), &caps, s(1.0), &whole()), Some(0));
    assert_eq!(Cylinder::hit_caps(s(-1.0), &caps, s(0.3), &whole()), Some(1));
    assert_eq!(Cylinder::hit_caps(s(-1.0), &caps, s(0.1), &whole()), None);
    assert_eq!(Cylinder::hit_caps(s(1e-9), &caps, s(1.0), &whole()), None);
    let edge = [CapCrossing { t: s(3.0), distance_squared: s(1.0) }, caps[1]];
    assert_eq!(Cylinder::hit_caps(s(1.0), &edge, s(1.0), &whole()), Some(0));
}

#[test]
fn the_nearer_of_side_and_cap_is_reported() {
    assert!(matches!(Cylinder::hit(Some(s(2.0)), Some(s(3.0)), &whole()), Some(Part::Side)));
    assert!(matches!(Cylinder::hit(Some(s(3.0)), Some(s(2.0)), &whole()), Some(Part::Cap)));
    assert!(matches!(Cylinder::hit(None, Some(s(2.0)), &whole()), Some(Part::Cap)));
    assert!(matches!(Cylinder::hit(Some(s(2.0)), None, &whole()), Some(Part::Side)));
    assert!(Cylinder::hit(None, None, &whole()).is_none());
    assert!(Cylinder::hit(Some(s(-1.0)), Some(s(0.0)), &whole()).is_none());
}
