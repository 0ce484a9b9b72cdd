use ray_tracing::aabb::{Slab, AABB};
use ray_tracing::bvh::{BvhChild, BvhNode};
use ray_tracing::bvh_build::best_split;
use ray_tracing::hittable::HitRecord;
use ray_tracing::hittable_list::HittableList;
use ray_tracing::interval::Interval;
use ray_tracing::ray::Ray;
use ray_tracing::scalar::Scalar;
use ray_tracing::vec3::Vec3;
use rand::rngs::StdRng;
use rand::SeedableRng;

fn s(x: f32) -> Scalar {
    Scalar::from_bits(x.to_bits())
}

fn f(x: Scalar) -> f32 {
    f32::from_bits(x.to_bits())
}

fn v(x: f32, y: f32, z: f32) -> Vec3 {
    Vec3::new(s(x), s(y), s(z))
}

fn size(iv: &Interval) -> Scalar {
    s(f(iv.max) - f(iv.min))
}

fn expand(iv: &Interval, delta: Scalar) -> Interval {
    let padding = f(delta) / 2.0;
    Interval::new(s(f(iv.min) - padding), s(f(iv.max) + padding))
}

fn around(a: &AABB, b: &AABB) -> AABB {
    AABB::around_boxes(a, b, &size, &expand)
}

fn area(b: &AABB) -> Scalar {
    s(f(size(&b.x)) * f(size(&b.y)) * f(size(&b.z)))
}

fn cost(i: usize, left: Scalar, k: usize, right: Scalar) -> Scalar {
    s(i as f32 * f(left) + k as f32 * f(right))
}

fn same_box(a: &AABB, b: &AABB) -> bool {
    [(a.x, b.x), (a.y, b.y), (a.z, b.z)]
        .iter()
        .all(|(p, q)| f(p.min) == f(q.min) && f(p.max) == f(q.max))
}

#[derive(Clone, Copy)]
struct Ball {
    center: [f32; 3],
    radius: f32,
}

impl Ball {
    fn bounds(&self) -> AABB {
        let c = self.center;
        let r = self.radius;
        AABB::around_points(
            v(c[0] - r, c[1] - r, c[2] - r),
            v(c[0] + r, c[1] + r, c[2] + r),
            &size,
            &expand,
        )
    }

    fn hit(&self, r: &Ray, ray_t: &Interval) -> Option<HitRecord> {
        let o = [f(r.origin().x()), f(r.origin().y()), f(r.origin().z())];
        let d = [f(r.direction().x()), f(r.direction().y()), f(r.direction().z())];
        let oc = [self.center[0] - o[0], self.center[1] - o[1], self.center[2] - o[2]];
        let a = d[0] * d[0] + d[1] * d[1] + d[2] * d[2];
        let h = d[0] * oc[0] + d[1] * oc[1] + d[2] * oc[2];
        let c = oc[0] * oc[0] + oc[1] * oc[1] + oc[2] * oc[2] - self.radius * self.radius;
        let discriminant = h * h - a * c;
        let root = discriminant.sqrt();
        let t = ray_tracing::sphere::Sphere::hit(
            s(discriminant),
            s((h - root) / a),
            s((h + root) / a),
            ray_t,
        )?;
        let mut rec = HitRecord::default();
        rec.t = t;
        rec.p = v(o[0] + f(t) * d[0], o[1] + f(t) * d[1], o[2] + f(t) * d[2]);
        Some(rec)
    }
}

fn box_hit(b: &AABB, r: &Ray, ray_t: &Interval) -> bool {
    let o = [f(r.origin().x()), f(r.origin().y()), f(r.origin().z())];
    let d = [f(r.direction().x()), f(r.direction().y()), f(r.direction().z())];
    let axes = [b.x, b.y, b.z];
    let mut slabs = [Slab { inv_dir: s(0.0), t0: s(0.0), t1: s(0.0) }; 3];
    for axis in 0..3 {
        let adinv = 1.0 / d[axis];
        slabs[axis] = Slab {
            inv_dir: s(adinv),
            t0: s((f(axes[axis].min) - o[axis]) * adinv),
            t1: s((f(axes[axis].max) - o[axis]) * adinv),
        };
    }
    let mut narrowed = *ray_t;
    AABB::hit(&slabs, &mut narrowed)
}

fn leaves(node: &BvhNode, out: &mut Vec<usize>) {
    for child in [&node.left, &node.right] {
        match child {
            BvhChild::Leaf(i) => out.push(*i),
            BvhChild::Node(n) => leaves(n, out),
        }
    }
}

fn bounds_of(child: &BvhChild, list: &HittableList) -> AABB {
    match child {
        BvhChild::Leaf(i) => list.objects()[*i],
        BvhChild::Node(n) => n.bbox,
    }
}

fn check_boxes(node: &BvhNode, list: &HittableList) {
    let want = around(&bounds_of(&node.left, list), &bounds_of(&node.right, list));
    assert!(same_box(&node.bbox, &want));
    for child in [&node.left, &node.right] {
        if let BvhChild::Node(n) = child {
            check_boxes(n, list);
        }
    }
}

/// A small generator of numbers in [0, 1), so that the scenes are the same
/// in every run.
struct Lcg(u64);

impl Lcg {
    fn next(&mut self) -> f32 {
        self.0 = self.0.wrapping_mul(6364136223846793005).wrapping_add(1442695040888963407);
        ((self.0 >> 40) as f32) / ((1u64 << 24) as f32)
    }
}

fn scene(n: usize, seed: u64) -> (Vec<Ball>, HittableList) {
    let mut rng = Lcg(seed);
    let mut balls = Vec::new();
    let mut list = HittableList::new();
    for _ in 0..n {
        let ball = Ball {
            center: [rng.next() * 20.0 - 10.0, rng.next() * 20.0 - 10.0, rng.next() * 20.0 - 10.0],
            radius: 0.2 + rng.next(),
        };
        list.add(ball.bounds(), &around);
        balls.push(ball);
    }
    (balls, list)
}

fn build(list: &HittableList) -> BvhNode {
    BvhNode::from_list(list, &around, &size, &area, &cost)
}

fn whole() -> Interval {
    Interval::new(s(0.001), Scalar::infinity())
}

#[test]
fn test_hit() {
    let sphere1 = Ball { center: [0.0, 0.0, 0.0], radius: 1.0 };
    let sphere2 = Ball { center: [2.0, 0.0, 0.0], radius: 1.0 };
    let mut list = HittableList::new();
    list.add(sphere1.bounds(), &around);
    list.add(sphere2.bounds(), &around);
    let balls = [sphere1, sphere2];
    let node = build(&list);
    let ray = Ray::new(v(-5.0, 0.0, 0.0), v(1.0, 0.0, 0.0), s(0.0));
    let mut rec = HitRecord::default();
    let hit = node.hit(&ray, &whole(), &mut rec, &box_hit, &|i, r: &Ray, t: &Interval| {
        balls[i].hit(r, t)
    });
    assert!(hit);
    assert_eq!(f(rec.t), 4.0);
}

#[test]
fn hierarchy_over_one_object_has_it_on_both_sides() {
    let (_, list) = scene(1, 7);
    let node = build(&list);
    assert!(matches!(node.left, BvhChild::Leaf(0)));
    assert!(matches!(node.right, BvhChild::Leaf(0)));
    check_boxes(&node, &list);
}

#[test]
fn hierarchy_over_two_objects_is_two_leaves_in_order() {
    let mut list = HittableList::new();
    let right = Ball { center: [5.0, 0.0, 0.0], radius: 1.0 };
    let left = Ball { center: [-5.0, 0.0, 0.0], radius: 1.0 };
    list.add(right.bounds(), &around);
    list.add(left.bounds(), &around);
    let node = build(&list);
    assert!(matches!(node.left, BvhChild::Leaf(1)));
    assert!(matches!(node.right, BvhChild::Leaf(0)));
}

#[test]
fn every_object_is_a_leaf_once() {
    for n in [2usize, 3, 4, 5, 8, 17, 64, 200] {
        let (_, list) = scene(n, n as u64);
        let node = build(&list);
        let mut found = Vec::new();
        leaves(&node, &mut found);
        found.sort();
        assert_eq!(found, (0..n).collect::<Vec<usize>>());
    }
}

#[test]
fn every_box_is_the_box_around_the_children() {
    for n in [1usize, 2, 3, 9, 50] {
        let (_, list) = scene(n, 100 + n as u64);
        check_boxes(&build(&list), &list);
    }
}

#[test]
fn root_box_is_the_box_around_all_objects() {
    for n in [1usize, 2, 3, 9, 50] {
        let (_, list) = scene(n, 200 + n as u64);
        let fold = list.objects().iter().fold(AABB::empty(), |acc, b| around(&acc, b));
        assert!(same_box(&build(&list).bbox, &fold));
        assert!(same_box(list.bounding_box(), &fold));
    }
}

#[test]
fn hierarchy_and_scan_report_the_same_nearest_hit() {
    let (balls, list) = scene(120, 42);
    let node = build(&list);
    let mut rng = Lcg(4242);
    let mut hits = 0;
    for _ in 0..500 {
        let origin = v(rng.next() * 40.0 - 20.0, rng.next() * 40.0 - 20.0, -30.0);
        let direction = v(rng.next() - 0.5, rng.next() - 0.5, 1.0);
        let ray = Ray::new(origin, direction, s(0.0));
        let leaf = |i: usize, r: &Ray, t: &Interval| balls[i].hit(r, t);
        let mut from_tree = HitRecord::default();
        let mut from_list = HitRecord::default();
        let a = node.hit(&ray, &whole(), &mut from_tree, &box_hit, &leaf);
        let b = list.hit(&ray, &whole(), &mut from_list, &leaf);
        assert_eq!(a, b);
        if a {
            hits += 1;
            assert_eq!(f(from_tree.t), f(from_list.t));
            let brute = balls
                .iter()
                .filter_map(|ball| ball.hit(&ray, &whole()))
                .map(|rec| f(rec.t))
                .fold(f32::INFINITY, f32::min);
            assert_eq!(f(from_tree.t), brute);
        }
    }
    assert!(hits > 20);
}

#[test]
fn a_ray_that_misses_the_root_box_misses_every_object() {
    let (balls, list) = scene(60, 5);
    let node = build(&list);
    let ray = Ray::new(v(0.0, 50.0, 0.0), v(1.0, 0.0, 0.0), s(0.0));
    assert!(!box_hit(&node.bbox, &ray, &whole()));
    for ball in &balls {
        assert!(ball.hit(&ray, &whole()).is_none());
    }
    let mut rec = HitRecord::default();
    rec.t = s(7.0);
    let leaf = |i: usize, r: &Ray, t: &Interval| balls[i].hit(r, t);
    assert!(!node.hit(&ray, &whole(), &mut rec, &box_hit, &leaf));
    assert_eq!(f(rec.t), 7.0);
}

#[test]
fn the_same_scene_gives_the_same_hierarchy() {
    let (_, list) = scene(80, 11);
    let mut first = Vec::new();
    let mut second = Vec::new();
    leaves(&build(&list), &mut first);
    leaves(&build(&list), &mut second);
    assert_eq!(first, second);
}

fn depth(node: &BvhNode) -> usize {
    let below = |child: &BvhChild| match child {
        BvhChild::Leaf(_) => 0,
        BvhChild::Node(n) => depth(n),
    };
    1 + below(&node.left).max(below(&node.right))
}

#[test]
fn the_median_split_gives_a_balanced_hierarchy() {
    for n in [1usize, 2, 3, 4, 5, 8, 17, 64, 200] {
        let (_, list) = scene(n, 300 + n as u64);
        let node = BvhNode::from_list_median(&list, &around, &size);
        let mut found = Vec::new();
        leaves(&node, &mut found);
        found.sort();
        if n == 1 {
            assert_eq!(found, vec![0, 0]);
        } else {
            assert_eq!(found, (0..n).collect::<Vec<usize>>());
        }
        check_boxes(&node, &list);
        let mut levels = 1;
        while (1usize << levels) < n {
            levels += 1;
        }
        assert!(depth(&node) <= levels);
    }
}

#[test]
fn the_median_split_reports_the_same_hits() {
    let (balls, list) = scene(90, 77);
    let by_area = build(&list);
    let by_count = BvhNode::from_list_median(&list, &around, &size);
    let mut rng = Lcg(7);
    for _ in 0..300 {
        let origin = v(rng.next() * 40.0 - 20.0, rng.next() * 40.0 - 20.0, -30.0);
        let ray = Ray::new(origin, v(rng.next() - 0.5, rng.next() - 0.5, 1.0), s(0.0));
        let leaf = |i: usize, r: &Ray, t: &Interval| balls[i].hit(r, t);
        let mut one = HitRecord::default();
        let mut other = HitRecord::default();
        let a = by_area.hit(&ray, &whole(), &mut one, &box_hit, &leaf);
        let b = by_count.hit(&ray, &whole(), &mut other, &box_hit, &leaf);
        assert_eq!(a, b);
        assert_eq!(f(one.t), f(other.t));
    }
}

#[test]
fn the_heuristic_splits_where_the_areas_weigh_least() {
    let mut list = HittableList::new();
    for x in [0.0f32, 1.0, 2.0, 50.0, 51.0] {
        list.add(Ball { center: [x, 0.0, 0.0], radius: 0.5 }.bounds(), &around);
    }
    let sorted: Vec<usize> = (0..5).collect();
    let boxes = list.objects();
    let costs: Vec<Scalar> = (0..4)
        .map(|i| {
            let left = (0..=i).fold(boxes[0], |acc, k| around(&acc, &boxes[k]));
            let right = (i + 1..5).rev().fold(boxes[4], |acc, k| around(&acc, &boxes[k]));
            cost(i, area(&left), 4 - i, area(&right))
        })
        .collect();
    assert_eq!(costs.iter().map(|&c| f(c)).collect::<Vec<f32>>(), vec![204.0, 152.0, 10.0, 154.0]);
    assert_eq!(BvhNode::sah_split(boxes, &sorted, &around, &area, &cost), 2);
    let node = build(&list);
    let mut left = Vec::new();
    match &node.left {
        BvhChild::Node(n) => leaves(n, &mut left),
        BvhChild::Leaf(i) => left.push(*i),
    }
    left.sort();
    assert_eq!(left, vec![0, 1, 2]);
}

#[test]
fn best_split_takes_the_first_least_cost() {
    let costs: Vec<Scalar> = [5.0f32, 3.0, 7.0, 3.0, 4.0].iter().map(|&c| s(c)).collect();
    assert_eq!(best_split(&costs), 1);
}

#[test]
fn best_split_passes_over_what_is_no_number_or_not_finite() {
    let costs: Vec<Scalar> = [f32::NAN, f32::INFINITY, 9.0, f32::NAN].iter().map(|&c| s(c)).collect();
    assert_eq!(best_split(&costs), 2);
    let none: Vec<Scalar> = [f32::NAN, f32::INFINITY, f32::MAX].iter().map(|&c| s(c)).collect();
    assert_eq!(best_split(&none), 0);
    assert_eq!(best_split(&Vec::new()), 0);
}

#[test]
fn the_second_child_is_tested_only_up_to_the_hit_of_the_first() {
    let mut list = HittableList::new();
    let near = Ball { center: [0.0, 0.0, 0.0], radius: 1.0 };
    let far = Ball { center: [0.0, 0.0, 5.0], radius: 1.0 };
    list.add(near.bounds(), &around);
    list.add(far.bounds(), &around);
    let balls = [near, far];
    let node = build(&list);
    let ray = Ray::new(v(0.0, 0.0, -10.0), v(0.0, 0.0, 1.0), s(0.0));
    let seen = std::cell::RefCell::new(Vec::new());
    let leaf = |i: usize, r: &Ray, t: &Interval| {
        seen.borrow_mut().push((i, f(t.max)));
        balls[i].hit(r, t)
    };
    let mut rec = HitRecord::default();
    assert!(node.hit(&ray, &whole(), &mut rec, &box_hit, &leaf));
    assert_eq!(f(rec.t), 9.0);
    assert_eq!(*seen.borrow(), vec![(0, f32::INFINITY), (1, 9.0)]);
}

#[test]
fn random_picks_an_object_of_the_list() {
    let (_, list) = scene(5, 1);
    let mut rng = StdRng::seed_from_u64(3);
    let mut seen = [false; 5];
    for _ in 0..400 {
        seen[list.random(&mut rng)] = true;
    }
    assert!(seen.iter().all(|&b| b));
}

#[test]
fn the_same_seed_picks_the_same_objects() {
    let (_, list) = scene(9, 1);
    let picks = |seed: u64| -> Vec<usize> {
        let mut rng = StdRng::seed_from_u64(seed);
        (0..200).map(|_| list.random(&mut rng)).collect()
    };
    assert_eq!(picks(2024), picks(2024));
    assert_ne!(picks(2024), picks(2025));
}

#[test]
fn clear_removes_the_objects_and_keeps_the_box() {
    let (_, mut list) = scene(3, 9);
    let before = *list.bounding_box();
    list.clear();
    assert_eq!(list.objects().len(), 0);
    assert!(same_box(list.bounding_box(), &before));
}
