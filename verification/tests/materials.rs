use raytracer::hittable::HitRecord;
use raytracer::ray::Ray;
use raytracer::rng::Rng;
use raytracer::scatterable::{Lambertian, Material, Metal, Scatterable};
use raytracer::vec3::{quantize, Vec3};
use raytracer::world::World;
use raytracer::render::ray_color;

fn record_at_origin(normal: Vec3, material: Material) -> HitRecord {
    HitRecord {
        point: Vec3::new(0, 0, -65536),
        normal,
        material,
        t: 65536,
        front_face: true,
    }
}

#[test]
fn lambertian_scatter_always_some_and_nonzero() {
    let material = Lambertian {
        albedo: Vec3::new(45875, 19661, 19661),
    };
    let ray_in = Ray::new(Vec3::new(0, 0, 0), Vec3::new(0, 0, -65536));
    let rec = record_at_origin(Vec3::new(0, 0, 65536), Material::Lambertian(material));
    for seed in 0..40 {
        let mut rng = Rng::from_seed(seed);
        let (scattered, attenuation) = material
            .scatter(ray_in, &rec, &mut rng)
            .expect("diffuse scatter never absorbs");
        assert!(!scattered.direction.near_zero());
        assert_eq!(scattered.origin, rec.point);
        assert_eq!(attenuation, material.albedo);
    }
}

#[test]
fn metal_scatter_reflects_when_pointing_away() {
    let material = Metal {
        albedo: Vec3::new(52429, 52429, 52429),
    };
    // A 45-degree incoming ray onto an upward-facing surface.
    let ray_in = Ray::new(Vec3::new(-65536, 65536, 0), Vec3::new(65536, -65536, 0));
    let rec = record_at_origin(Vec3::new(0, 65536, 0), Material::Metal(material));
    let mut rng = Rng::from_seed(1);
    let (scattered, attenuation) = material
        .scatter(ray_in, &rec, &mut rng)
        .expect("grazing reflection leaves the surface");
    assert!(scattered.direction.y() > 0);
    assert!(scattered.direction.x() > 0);
    assert_eq!(attenuation, material.albedo);
}

#[test]
fn metal_scatter_absorbs_reflection_into_surface() {
    let material = Metal {
        albedo: Vec3::new(52429, 52429, 52429),
    };
    // Incoming along the normal itself: the reflection points back into the
    // surface, so the ray is absorbed.
    let ray_in = Ray::new(Vec3::new(0, -65536, 0), Vec3::new(0, 65536, 0));
    let rec = record_at_origin(Vec3::new(0, 65536, 0), Material::Metal(material));
    let mut rng = Rng::from_seed(1);
    assert!(material.scatter(ray_in, &rec, &mut rng).is_none());
}

#[test]
fn material_dispatch_matches_variants() {
    let lambertian = Lambertian {
        albedo: Vec3::new(32768, 32768, 32768),
    };
    let ray_in = Ray::new(Vec3::new(0, 0, 0), Vec3::new(0, 0, -65536));
    let rec = record_at_origin(Vec3::new(0, 0, 65536), Material::Lambertian(lambertian));
    let mut rng = Rng::from_seed(3);
    assert!(rec.material.scatter(ray_in, &rec, &mut rng).is_some());
}

#[test]
fn quantize_endpoints() {
    // 0.0 maps to byte 0 and an average of exactly 1.0 maps to byte 255.
    assert_eq!(quantize(0, 1), 0);
    assert_eq!(quantize(65536, 1), 255);
    assert_eq!(quantize(4 * 65536, 4), 255);
}

#[test]
fn quantize_square_root_curve() {
    // An average of 0.25 maps through the square-root curve to 0.5,
    // which quantizes to 128.
    assert_eq!(quantize(16384, 1), 128);
    assert_eq!(quantize(2 * 16384, 2), 128);
}

#[test]
fn quantize_is_monotone_on_samples() {
    let mut last = 0u8;
    let mut x: i64 = 0;
    while x <= 65536 {
        let q = quantize(x, 1);
        assert!(q >= last);
        last = q;
        x += 1024;
    }
}

#[test]
fn color_tone_maps_each_channel() {
    let accumulated = Vec3::new(4 * 65536, 4 * 16384, 0);
    assert_eq!(accumulated.color(4), (255, 128, 0));
}

#[test]
fn ray_color_depth_zero_is_black() {
    let w = World::default();
    let r = Ray::new(Vec3::new(0, 0, 0), Vec3::new(0, 0, -65536));
    let mut rng = Rng::from_seed(5);
    assert_eq!(ray_color(r, &w, 0, &mut rng), Vec3::new(0, 0, 0));
}

#[test]
fn ray_color_miss_is_sky_gradient() {
    let w = World::new();
    let mut rng = Rng::from_seed(5);
    // Straight up: the gradient's top color (0.5, 0.7, 1.0).
    let up = Ray::new(Vec3::new(0, 0, 0), Vec3::new(0, 65536, 0));
    assert_eq!(ray_color(up, &w, 10, &mut rng), Vec3::new(32768, 45875, 65536));
    // Straight down: pure white.
    let down = Ray::new(Vec3::new(0, 0, 0), Vec3::new(0, -65536, 0));
    assert_eq!(ray_color(down, &w, 10, &mut rng), Vec3::new(65536, 65536, 65536));
}

#[test]
fn ray_color_stays_in_unit_range() {
    let w = World::default();
    let mut rng = Rng::from_seed(9);
    for i in 0..20 {
        let dir = Vec3::new(-65536 + i * 6553, -32768, -65536);
        let c = ray_color(Ray::new(Vec3::new(0, 0, 0), dir), &w, 50, &mut rng);
        for channel in [c.x(), c.y(), c.z()] {
            assert!((0..=65536).contains(&channel));
        }
    }
}
