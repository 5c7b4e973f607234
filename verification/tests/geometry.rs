use raytracer::hittable::Hittable;
use raytracer::ray::Ray;
use raytracer::rng::Rng;
use raytracer::scatterable::{Lambertian, Material};
use raytracer::sphere::Sphere;
use raytracer::vec3::{random_in_unit_sphere, random_unit_vector, Vec3};
use raytracer::world::World;

fn gray() -> Material {
    Material::Lambertian(Lambertian {
        albedo: Vec3::new(32768, 32768, 32768),
    })
}

#[test]
fn vec3_accessors_and_arithmetic() {
    let a = Vec3::new(65536, 131072, -65536);
    assert_eq!(a.x(), 65536);
    assert_eq!(a.y(), 131072);
    assert_eq!(a.z(), -65536);
    let b = Vec3::diagonal(65536);
    let s = a.add(b);
    assert_eq!(s, Vec3::new(131072, 196608, 0));
    let d = a.sub(b);
    assert_eq!(d, Vec3::new(0, 65536, -131072));
    assert_eq!(a.neg(), Vec3::new(-65536, -131072, 65536));
}

#[test]
fn vec3_dot_and_cross() {
    let a = Vec3::new(1, 2, 3);
    let b = Vec3::new(4, -5, 6);
    assert_eq!(a.dot(b), 4 - 10 + 18);
    let c = a.cross(b);
    assert_eq!(c, Vec3::new(2 * 6 - 3 * -5, 3 * 4 - 1 * 6, 1 * -5 - 2 * 4));
}

#[test]
fn vec3_length_of_three_four_zero() {
    // A 3-4-5 triangle in fixed point: |(3, 4, 0)| == 5.
    let v = Vec3::new(3 * 65536, 4 * 65536, 0);
    assert_eq!(v.length(), 5 * 65536);
    assert_eq!(v.length_squared(), 25i64 * 65536 * 65536);
}

#[test]
fn vec3_unit_vector_on_axis() {
    let v = Vec3::new(0, 131072, 0);
    assert_eq!(v.unit_vector(), Vec3::new(0, 65536, 0));
}

#[test]
fn vec3_near_zero() {
    assert!(Vec3::new(0, 0, 0).near_zero());
    assert!(!Vec3::new(0, 1, 0).near_zero());
}

#[test]
fn vec3_reflect_off_ground() {
    // A 45-degree incoming direction bounces up off an upward normal.
    let v = Vec3::new(65536, -65536, 0);
    let n = Vec3::new(0, 65536, 0);
    assert_eq!(v.reflect(n), Vec3::new(65536, 65536, 0));
}

#[test]
fn ray_at_walks_the_direction() {
    let r = Ray::new(Vec3::new(0, 0, 0), Vec3::new(0, 0, -65536));
    assert_eq!(r.at(98304), Vec3::new(0, 0, -98304));
    assert_eq!(r.at(0), Vec3::new(0, 0, 0));
}

#[test]
fn sphere_miss_returns_none() {
    // The ray along -z passes far from a sphere off to the side:
    // the discriminant is negative.
    let s = Sphere::new(Vec3::new(655360, 0, -131072), 32768, gray());
    let r = Ray::new(Vec3::new(0, 0, 0), Vec3::new(0, 0, -65536));
    assert!(s.hit(r, 66, 0x4000_0000).is_none());
}

#[test]
fn sphere_tangent_root_is_reported() {
    // The sphere sits exactly one radius off the ray axis: the discriminant
    // is exactly zero and the single tangent root is returned.
    let s = Sphere::new(Vec3::new(32768, 0, -131072), 32768, gray());
    let r = Ray::new(Vec3::new(0, 0, 0), Vec3::new(0, 0, -65536));
    let rec = s.hit(r, 66, 0x4000_0000).expect("tangent hit");
    assert_eq!(rec.t, 131072);
}

#[test]
fn sphere_tangent_outside_bounds_is_none() {
    let s = Sphere::new(Vec3::new(32768, 0, -131072), 32768, gray());
    let r = Ray::new(Vec3::new(0, 0, 0), Vec3::new(0, 0, -65536));
    // The tangent root 131072 lies outside [66, 65536].
    assert!(s.hit(r, 66, 65536).is_none());
}

#[test]
fn sphere_prefers_near_root() {
    // Both roots (98304 and 163840) lie inside the interval: the smaller
    // one is returned, with the outward normal facing the ray.
    let s = Sphere::new(Vec3::new(0, 0, -131072), 32768, gray());
    let r = Ray::new(Vec3::new(0, 0, 0), Vec3::new(0, 0, -65536));
    let rec = s.hit(r, 66, 0x4000_0000).expect("two-root hit");
    assert_eq!(rec.t, 98304);
    assert_eq!(rec.point, Vec3::new(0, 0, -98304));
    assert!(rec.front_face);
    assert_eq!(rec.normal, Vec3::new(0, 0, 65536));
}

#[test]
fn sphere_far_root_when_near_is_below_t_min() {
    // Starting inside the sphere, the near root is behind t_min, so the far
    // root is reported.
    let s = Sphere::new(Vec3::new(0, 0, -131072), 32768, gray());
    let r = Ray::new(Vec3::new(0, 0, -131072), Vec3::new(0, 0, -65536));
    let rec = s.hit(r, 66, 0x4000_0000).expect("inside hit");
    assert_eq!(rec.t, 32768);
    assert!(!rec.front_face);
}

#[test]
fn world_hit_returns_nearest_of_two() {
    let near = Sphere::new(Vec3::new(0, 0, -131072), 32768, gray());
    let far = Sphere::new(Vec3::new(0, 0, -262144), 32768, gray());
    let r = Ray::new(Vec3::new(0, 0, 0), Vec3::new(0, 0, -65536));

    let mut w = World::new();
    w.add(near);
    w.add(far);
    let rec = w.hit(r, 66, 0x4000_0000).expect("nearest hit");
    assert_eq!(rec.t, 98304);

    // The same scene with the members swapped reports the same parameter.
    let mut swapped = World::new();
    swapped.add(far);
    swapped.add(near);
    let rec2 = swapped.hit(r, 66, 0x4000_0000).expect("nearest hit");
    assert_eq!(rec2.t, 98304);
}

#[test]
fn world_empty_and_cleared_miss() {
    let r = Ray::new(Vec3::new(0, 0, 0), Vec3::new(0, 0, -65536));
    let mut w = World::new();
    assert!(w.hit(r, 66, 0x4000_0000).is_none());
    w.add(Sphere::new(Vec3::new(0, 0, -131072), 32768, gray()));
    assert!(w.hit(r, 66, 0x4000_0000).is_some());
    w.clear();
    assert!(w.hit(r, 66, 0x4000_0000).is_none());
}

#[test]
fn default_world_has_four_spheres() {
    let w = World::default();
    // The center sphere is straight ahead of the camera.
    let r = Ray::new(Vec3::new(0, 0, 0), Vec3::new(0, 0, -65536));
    let rec = w.hit(r, 66, 0x4000_0000).expect("center sphere hit");
    assert_eq!(rec.t, 32768);
}

#[test]
fn random_in_unit_sphere_is_strictly_inside() {
    let mut rng = Rng::from_seed(7);
    for _ in 0..50 {
        let p = random_in_unit_sphere(&mut rng);
        let d = p.dot(p);
        assert!(d >= 1);
        assert!(d < 65536i64 * 65536);
    }
}

#[test]
fn random_unit_vector_has_unit_scale_components() {
    let mut rng = Rng::from_seed(11);
    for _ in 0..50 {
        let u = random_unit_vector(&mut rng);
        assert!(u.x().abs() <= 65536);
        assert!(u.y().abs() <= 65536);
        assert!(u.z().abs() <= 65536);
        assert!(!u.near_zero());
    }
}
