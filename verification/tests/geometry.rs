use ray_tracing::aabb::{Slab, AABB};
use ray_tracing::constant_medium::ConstantMedium;
use ray_tracing::hittable::HitRecord;
use ray_tracing::interval::Interval;
use ray_tracing::quadrilateral::Quadrilateral;
use ray_tracing::scalar::Scalar;
use ray_tracing::sphere::Sphere;
use ray_tracing::transform::RotateY;
use ray_tracing::vec3::Vec3;

fn s(x: f32) -> Scalar {
    Scalar::from_bits(x.to_bits())
}

fn f(x: Scalar) -> f32 {
    f32::from_bits(x.to_bits())
}

fn v(x: f32, y: f32, z: f32) -> Vec3 {
    Vec3::new(s(x), s(y), s(z))
}

fn a(p: Vec3) -> [f32; 3] {
    [f(p.x()), f(p.y()), f(p.z())]
}

fn iv(min: f32, max: f32) -> Interval {
    Interval::new(s(min), s(max))
}

fn size(i: &Interval) -> Scalar {
    s(f(i.max) - f(i.min))
}

fn expand(i: &Interval, delta: Scalar) -> Interval {
    let padding = f(delta) / 2.0;
    iv(f(i.min) - padding, f(i.max) + padding)
}

fn dot(p: [f32; 3], q: [f32; 3]) -> f32 {
    p[0] * q[0] + p[1] * q[1] + p[2] * q[2]
}

fn cross(p: [f32; 3], q: [f32; 3]) -> [f32; 3] {
    [p[1] * q[2] - p[2] * q[1], p[2] * q[0] - p[0] * q[2], p[0] * q[1] - p[1] * q[0]]
}

fn slabs(b: &AABB, origin: [f32; 3], direction: [f32; 3]) -> [Slab; 3] {
    let axes = [b.x, b.y, b.z];
    let mut out = [Slab { inv_dir: s(0.0), t0: s(0.0), t1: s(0.0) }; 3];
    for axis in 0..3 {
        let adinv = 1.0 / direction[axis];
        out[axis] = Slab {
            inv_dir: s(adinv),
            t0: s((f(axes[axis].min) - origin[axis]) * adinv),
            t1: s((f(axes[axis].max) - origin[axis]) * adinv),
        };
    }
    out
}

#[test]
fn interval_contains_and_surrounds() {
    let unit = iv(0.0, 1.0);
    assert!(unit.contains(s(0.0)) && unit.contains(s(1.0)) && unit.contains(s(0.5)));
    assert!(!unit.surrounds(s(0.0)) && !unit.surrounds(s(1.0)) && unit.surrounds(s(0.5)));
    assert!(!unit.contains(s(-0.1)) && !unit.contains(s(1.1)));
    assert!(!unit.contains(s(f32::NAN)) && !unit.surrounds(s(f32::NAN)));
    assert!(unit.contains(s(-0.0)));
}

#[test]
fn interval_clamp() {
    let intensity = iv(0.0, 0.999);
    assert_eq!(f(intensity.clamp(s(-3.0))), 0.0);
    assert_eq!(f(intensity.clamp(s(0.25))), 0.25);
    assert_eq!(f(intensity.clamp(s(2.0))), 0.999);
    assert!(f(intensity.clamp(s(f32::NAN))).is_nan());
}

#[test]
fn empty_holds_nothing_and_universe_everything() {
    for x in [0.0f32, -1e30, 1e30, f32::INFINITY, f32::NEG_INFINITY] {
        assert!(!Interval::empty().contains(s(x)));
        assert!(Interval::universe().contains(s(x)));
    }
    assert_eq!(f(Interval::empty().min), f32::INFINITY);
    assert_eq!(f(Interval::empty().max), f32::NEG_INFINITY);
    assert_eq!(f(Interval::default().min), f32::INFINITY);
}

#[test]
fn around_intervals_is_the_union() {
    let u = Interval::around_intervals(&iv(1.0, 3.0), &iv(-2.0, 2.0));
    assert_eq!((f(u.min), f(u.max)), (-2.0, 3.0));
    let e = Interval::around_intervals(&Interval::empty(), &iv(4.0, 5.0));
    assert_eq!((f(e.min), f(e.max)), (4.0, 5.0));
}

#[test]
fn a_ray_through_a_point_inside_a_box_hits_it() {
    let b = AABB::around_points(v(-1.0, 2.0, 0.5), v(3.0, 4.0, 6.0), &size, &expand);
    let inside = [[0.0f32, 3.0, 1.0], [2.9, 2.1, 5.9], [-0.9, 3.9, 0.6], [1.0, 3.0, 3.0]];
    let origins = [[-10.0f32, -7.0, 30.0], [0.0, 0.0, 0.0], [50.0, 3.0, 3.5]];
    for p in inside {
        for o in origins {
            let d = [p[0] - o[0], p[1] - o[1], p[2] - o[2]];
            let mut ray_t = Interval::universe();
            assert!(AABB::hit(&slabs(&b, o, d), &mut ray_t));
            assert!(ray_t.contains(s(1.0)));
        }
    }
}

#[test]
fn a_ray_beside_a_box_misses_it() {
    let b = AABB::around_points(v(0.0, 0.0, 0.0), v(1.0, 1.0, 1.0), &size, &expand);
    let mut ray_t = Interval::universe();
    assert!(!AABB::hit(&slabs(&b, [5.0, 5.0, -5.0], [0.0, 0.0, 1.0]), &mut ray_t));
    let mut behind = iv(0.001, f32::INFINITY);
    assert!(!AABB::hit(&slabs(&b, [0.5, 0.5, 5.0], [0.0, 0.0, 1.0]), &mut behind));
}

#[test]
fn the_slab_test_narrows_the_interval_to_the_box() {
    let b = AABB { x: iv(0.0, 1.0), y: iv(0.0, 1.0), z: iv(2.0, 4.0) };
    let mut ray_t = iv(0.001, f32::INFINITY);
    assert!(AABB::hit(&slabs(&b, [0.5, 0.5, 0.0], [0.0, 0.0, 1.0]), &mut ray_t));
    assert_eq!((f(ray_t.min), f(ray_t.max)), (2.0, 4.0));
    let mut back = iv(0.001, f32::INFINITY);
    assert!(AABB::hit(&slabs(&b, [0.5, 0.5, 10.0], [0.0, 0.0, -2.0]), &mut back));
    assert_eq!((f(back.min), f(back.max)), (3.0, 4.0));
}

#[test]
fn a_flat_box_is_padded() {
    let flat = AABB::around_points(v(0.0, 0.0, 0.0), v(1.0, 0.0, 1.0), &size, &expand);
    assert!(f(size(&flat.y)) > 0.0);
    assert_eq!((f(flat.x.min), f(flat.x.max)), (0.0, 1.0));
    assert_eq!((f(flat.y.min), f(flat.y.max)), (-0.0001, 0.0001));
    let once = AABB::new(iv(0.0, 1.0), iv(2.0, 2.0), iv(0.0, 1.0), &size, &expand);
    assert_eq!((f(once.y.min), f(once.y.max)), (2.0 - 0.00005, 2.0 + 0.00005));
}

#[test]
fn around_points_orders_the_corners() {
    let b = AABB::around_points(v(3.0, -1.0, 5.0), v(1.0, 2.0, 4.0), &size, &expand);
    assert_eq!((f(b.x.min), f(b.x.max)), (1.0, 3.0));
    assert_eq!((f(b.y.min), f(b.y.max)), (-1.0, 2.0));
    assert_eq!((f(b.z.min), f(b.z.max)), (4.0, 5.0));
    assert_eq!(f(b.axis_interval(0).max), 3.0);
    assert_eq!(f(b.axis_interval(1).max), 2.0);
    assert_eq!(f(b.axis_interval(2).max), 5.0);
}

#[test]
fn longest_axis_prefers_the_later_axis_on_a_tie() {
    assert_eq!(AABB::longest_axis(s(3.0), s(2.0), s(1.0)), 0);
    assert_eq!(AABB::longest_axis(s(1.0), s(3.0), s(2.0)), 1);
    assert_eq!(AABB::longest_axis(s(1.0), s(2.0), s(3.0)), 2);
    assert_eq!(AABB::longest_axis(s(2.0), s(2.0), s(2.0)), 2);
    assert_eq!(AABB::longest_axis(s(3.0), s(3.0), s(1.0)), 1);
    assert_eq!(AABB::longest_axis(s(3.0), s(1.0), s(3.0)), 2);
}

fn unit_quad() -> Quadrilateral {
    let q = [0.0f32, 0.0, 0.0];
    let u = [1.0f32, 0.0, 0.0];
    let w = [0.0f32, 1.0, 0.0];
    let n = cross(u, w);
    let length = dot(n, n).sqrt();
    let normal = [n[0] / length, n[1] / length, n[2] / length];
    let nn = dot(n, n);
    Quadrilateral {
        q: v(q[0], q[1], q[2]),
        u: v(u[0], u[1], u[2]),
        v: v(w[0], w[1], w[2]),
        w: v(n[0] / nn, n[1] / nn, n[2] / nn),
        material: Some(3),
        bbox: AABB::around_points(v(0.0, 0.0, 0.0), v(1.0, 1.0, 0.0), &size, &expand),
        normal: v(normal[0], normal[1], normal[2]),
        d: s(dot(normal, q)),
    }
}

fn quad_hit(quad: &Quadrilateral, o: [f32; 3], d: [f32; 3], rec: &mut HitRecord) -> bool {
    let denom = dot(a(quad.normal), d);
    let t = (f(quad.d) - dot(a(quad.normal), o)) / denom;
    let p = [o[0] + t * d[0], o[1] + t * d[1], o[2] + t * d[2]];
    let q = a(quad.q);
    let planar = [p[0] - q[0], p[1] - q[1], p[2] - q[2]];
    let alpha = dot(a(quad.w), cross(planar, a(quad.v)));
    let beta = dot(a(quad.w), cross(a(quad.u), planar));
    quad.hit(s(denom), s(t), v(p[0], p[1], p[2]), s(alpha), s(beta), &iv(0.001, f32::INFINITY), rec)
}

#[test]
fn a_ray_at_the_middle_of_the_unit_quad_hits_it() {
    let quad = unit_quad();
    let mut rec = HitRecord::default();
    assert!(quad_hit(&quad, [0.5, 0.5, 1.0], [0.0, 0.0, -1.0], &mut rec));
    assert_eq!(f(rec.t), 1.0);
    assert_eq!(f(rec.u), 0.5);
    assert_eq!(f(rec.v), 0.5);
    assert_eq!(a(rec.p), [0.5, 0.5, 0.0]);
    assert_eq!(rec.mat, Some(3));
    assert!(rec.front_face);
    assert_eq!(a(rec.normal), [0.0, 0.0, 1.0]);
}

#[test]
fn a_ray_beside_the_unit_quad_misses_it() {
    let quad = unit_quad();
    let mut rec = HitRecord::default();
    rec.t = s(9.0);
    assert!(!quad_hit(&quad, [1.5, 0.5, 1.0], [0.0, 0.0, -1.0], &mut rec));
    assert_eq!(f(rec.t), 9.0);
    assert_eq!(f(rec.u), 0.0);
}

#[test]
fn a_ray_along_the_quad_or_behind_it_misses_it() {
    let quad = unit_quad();
    let mut rec = HitRecord::default();
    assert!(!quad_hit(&quad, [0.5, 0.5, 1.0], [1.0, 0.0, 0.0], &mut rec));
    assert!(!quad_hit(&quad, [0.5, 0.5, 1.0], [0.0, 0.0, 1.0], &mut rec));
}

#[test]
fn a_quad_met_from_behind_turns_its_normal() {
    let quad = unit_quad();
    let mut rec = HitRecord::default();
    assert!(quad_hit(&quad, [0.25, 0.75, -2.0], [0.0, 0.0, 1.0], &mut rec));
    assert_eq!(f(rec.t), 2.0);
    assert!(!rec.front_face);
    assert_eq!(a(rec.normal), [-0.0, -0.0, -1.0]);
    assert_eq!((f(rec.u), f(rec.v)), (0.25, 0.75));
}

#[test]
fn is_interior_takes_the_edges() {
    let mut rec = HitRecord::default();
    assert!(Quadrilateral::is_interior(s(0.0), s(1.0), &mut rec));
    assert_eq!((f(rec.u), f(rec.v)), (0.0, 1.0));
    assert!(!Quadrilateral::is_interior(s(1.0001), s(0.5), &mut rec));
    assert!(!Quadrilateral::is_interior(s(0.5), s(-0.0001), &mut rec));
    assert_eq!((f(rec.u), f(rec.v)), (0.0, 1.0));
}

fn sphere_roots(center: [f32; 3], radius: f32, o: [f32; 3], d: [f32; 3]) -> (f32, f32, f32) {
    let oc = [center[0] - o[0], center[1] - o[1], center[2] - o[2]];
    let aa = dot(d, d);
    let h = dot(d, oc);
    let c = dot(oc, oc) - radius * radius;
    let discriminant = h * h - aa * c;
    let root = discriminant.sqrt();
    (discriminant, (h - root) / aa, (h + root) / aa)
}

#[test]
fn a_ray_at_the_centre_of_a_sphere_meets_the_near_side() {
    let whole = iv(0.001, f32::INFINITY);
    for (o, want) in [([0.0f32, 0.0, -5.0], 4.0f32), ([0.0, 7.0, 0.0], 6.0), ([-3.0, 0.0, 0.0], 2.0)] {
        let d = [-o[0], -o[1], -o[2]];
        let length = dot(d, d).sqrt();
        let unit = [d[0] / length, d[1] / length, d[2] / length];
        let (disc, near, far) = sphere_roots([0.0, 0.0, 0.0], 1.0, o, unit);
        let t = Sphere::hit(s(disc), s(near), s(far), &whole).unwrap();
        assert_eq!(f(t), want);
        assert!(f(t) < far);
    }
}

#[test]
fn from_inside_a_sphere_the_far_side_is_met() {
    let (disc, near, far) = sphere_roots([0.0, 0.0, 0.0], 2.0, [0.0, 0.0, 0.0], [0.0, 1.0, 0.0]);
    assert_eq!((near, far), (-2.0, 2.0));
    assert_eq!(f(Sphere::hit(s(disc), s(near), s(far), &iv(0.001, f32::INFINITY)).unwrap()), 2.0);
    assert!(Sphere::hit(s(disc), s(near), s(far), &iv(0.001, 2.0)).is_none());
}

#[test]
fn a_ray_past_a_sphere_misses_it() {
    let (disc, near, far) = sphere_roots([0.0, 0.0, 0.0], 1.0, [0.0, 3.0, -5.0], [0.0, 0.0, 1.0]);
    assert!(disc < 0.0);
    assert!(Sphere::hit(s(disc), s(near), s(far), &iv(0.001, f32::INFINITY)).is_none());
    assert_eq!(f(Sphere::pdf_value(false, s(0.75))), 0.0);
    assert_eq!(f(Sphere::pdf_value(true, s(0.75))), 0.75);
}

#[test]
fn a_sphere_at_rest_keeps_its_centre() {
    let mut ball = Sphere {
        center: v(1.0, 2.0, 3.0),
        radius: s(1.0),
        mat: None,
        bbox: AABB::empty(),
        is_moving: false,
        center_vec: v(4.0, 0.0, 0.0),
    };
    assert_eq!(a(ball.center_for(v(3.0, 2.0, 3.0))), [1.0, 2.0, 3.0]);
    ball.is_moving = true;
    assert_eq!(a(ball.center_for(v(3.0, 2.0, 3.0))), [3.0, 2.0, 3.0]);
}

#[test]
fn the_stretch_inside_a_medium() {
    let whole = iv(0.001, f32::INFINITY);
    let part = ConstantMedium::inside(s(2.0), s(5.0), &whole).unwrap();
    assert_eq!((f(part.min), f(part.max)), (2.0, 5.0));
    let from_inside = ConstantMedium::inside(s(-3.0), s(4.0), &whole).unwrap();
    assert_eq!((f(from_inside.min), f(from_inside.max)), (0.001, 4.0));
    let cut = ConstantMedium::inside(s(2.0), s(5.0), &iv(0.001, 3.0)).unwrap();
    assert_eq!((f(cut.min), f(cut.max)), (2.0, 3.0));
    assert!(ConstantMedium::inside(s(2.0), s(5.0), &iv(0.001, 2.0)).is_none());
    assert!(ConstantMedium::inside(s(-5.0), s(-2.0), &whole).is_none());
    let behind = ConstantMedium::inside(s(-3.0), s(4.0), &iv(-10.0, 10.0)).unwrap();
    assert_eq!((f(behind.min), f(behind.max)), (0.0, 4.0));
}

#[test]
fn a_medium_scatters_within_the_free_flight() {
    assert!(ConstantMedium::scatters(s(1.5), s(2.0)));
    assert!(ConstantMedium::scatters(s(2.0), s(2.0)));
    assert!(!ConstantMedium::scatters(s(2.5), s(2.0)));
    let medium = ConstantMedium { neg_inv_density: s(-100.0), phase_function: Some(4) };
    let mut rec = HitRecord::default();
    medium.hit(s(1.25), v(1.0, 2.0, 3.0), &mut rec);
    assert_eq!(f(rec.t), 1.25);
    assert_eq!(a(rec.p), [1.0, 2.0, 3.0]);
    assert_eq!(a(rec.normal), [1.0, 0.0, 0.0]);
    assert!(rec.front_face);
    assert_eq!(rec.mat, Some(4));
}

#[test]
fn the_extent_of_turned_corners() {
    let mut corners = [v(0.0, 0.0, 0.0); 8];
    let (sin, cos) = (15.0f32.to_radians().sin(), 15.0f32.to_radians().cos());
    let mut k = 0;
    let mut lo = [f32::INFINITY; 3];
    let mut hi = [f32::NEG_INFINITY; 3];
    for x in [0.0f32, 165.0] {
        for y in [0.0f32, 330.0] {
            for z in [0.0f32, 165.0] {
                let p = [cos * x + sin * z, y, -sin * x + cos * z];
                corners[k] = v(p[0], p[1], p[2]);
                k += 1;
                for c in 0..3 {
                    lo[c] = lo[c].min(p[c]);
                    hi[c] = hi[c].max(p[c]);
                }
            }
        }
    }
    let (min, max) = RotateY::extent(&corners);
    assert_eq!(a(min), lo);
    assert_eq!(a(max), hi);
}

#[test]
fn the_extent_passes_over_what_is_no_number() {
    let mut corners = [v(1.0, 1.0, 1.0); 8];
    corners[3] = v(f32::NAN, 5.0, -2.0);
    let (min, max) = RotateY::extent(&corners);
    assert_eq!(a(min), [1.0, 1.0, -2.0]);
    assert_eq!(a(max), [1.0, 5.0, 1.0]);
}
