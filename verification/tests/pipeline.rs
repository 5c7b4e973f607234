use raytracer::camera::Camera;
use raytracer::payload::BigBoy;
use raytracer::render::{
    progress_messages, render, render_row, render_stream, PixelBuffer, ProgressMessage,
    RenderSettings, SettingsError,
};
use raytracer::rng::Rng;
use raytracer::scatterable::{Lambertian, Material};
use raytracer::sphere::Sphere;
use raytracer::vec3::Vec3;
use raytracer::world::World;

/// The regression scene: one small sphere in front of the camera
/// on a very large ground sphere.
fn golden_scene() -> World {
    let gray = Material::Lambertian(Lambertian {
        albedo: Vec3::new(32768, 32768, 32768),
    });
    let mut w = World::new();
    w.add(Sphere::new(Vec3::new(0, 0, -65536), 32768, gray));
    w.add(Sphere::new(Vec3::new(0, -6586368, -65536), 6553600, gray));
    w
}

#[test]
fn settings_accept_and_reject() {
    let ok = RenderSettings::new(64, 4).expect("valid settings");
    assert_eq!(ok.width, 64);
    assert_eq!(ok.samples, 4);
    assert_eq!(RenderSettings::new(8, 4), Err(SettingsError::WidthOutOfRange));
    assert_eq!(RenderSettings::new(8192, 4), Err(SettingsError::WidthOutOfRange));
    assert_eq!(RenderSettings::new(64, 0), Err(SettingsError::SamplesOutOfRange));
    assert_eq!(RenderSettings::new(64, 100000), Err(SettingsError::SamplesOutOfRange));
}

#[test]
fn settings_default_and_height() {
    let d = RenderSettings::default();
    assert_eq!(d.width, 3840);
    assert_eq!(d.samples, 1000);
    assert_eq!(d.height(), 2160);
    let s = RenderSettings::new(64, 1).unwrap();
    assert_eq!(s.height(), 36);
}

#[test]
fn camera_rays_span_the_viewport() {
    let c = Camera::new();
    let corner = c.get_ray(0, 0);
    assert_eq!(corner.direction, Vec3::new(-116508, -65536, -65536));
    let opposite = c.get_ray(65536, 65536);
    assert_eq!(opposite.direction, Vec3::new(116508, 65536, -65536));
    assert_eq!(corner.origin, Vec3::new(0, 0, 0));
}

#[test]
fn big_boy_padding() {
    let bytes = vec![1u8, 2, 3];
    let padded = BigBoy::try_from_padded(&bytes, 6).expect("fits");
    assert_eq!(padded.0, vec![1, 2, 3, 0, 0, 0]);
    let exact = BigBoy::try_from_padded(&bytes, 3).expect("fits exactly");
    assert_eq!(exact.0, vec![1, 2, 3]);
    assert!(BigBoy::try_from_padded(&bytes, 2).is_err());
}

#[test]
fn pixel_buffer_rows_are_disjoint() {
    let mut buf = PixelBuffer::new(4, 3);
    assert_eq!(buf.data.len(), 36);
    let row: Vec<u8> = vec![9; 12];
    buf.set_row(1, &row);
    let p0 = buf.row_payload(0);
    let p1 = buf.row_payload(1);
    let p2 = buf.row_payload(2);
    assert_eq!(p0.pixels.0, vec![0; 12]);
    assert_eq!(p1.pixels.0, vec![9; 12]);
    assert_eq!(p2.pixels.0, vec![0; 12]);
    assert_eq!(p1.row, 1);
}

#[test]
fn render_row_emits_three_bytes_per_pixel() {
    let world = golden_scene();
    let camera = Camera::new();
    let settings = RenderSettings::new(32, 1).unwrap();
    let mut rng = Rng::from_seed(1);
    let row = render_row(&world, &camera, &settings, 0, &mut rng);
    assert_eq!(row.len(), 3 * 32);
}

#[test]
fn render_fills_buffer_and_numbers_rows() {
    let world = golden_scene();
    let camera = Camera::new();
    let settings = RenderSettings::new(32, 1).unwrap();
    let height = settings.height();
    let mut buf = PixelBuffer::new(settings.width, height);
    let mut rng = Rng::from_seed(2);
    let payloads = render(&world, &camera, &settings, &mut buf, &mut rng);
    assert_eq!(payloads.len(), height);
    for (i, p) in payloads.iter().enumerate() {
        assert_eq!(p.row, i);
        assert_eq!(p.pixels.0.len(), 3 * settings.width);
        let from_buffer = buf.row_payload(i);
        assert_eq!(from_buffer.pixels.0, p.pixels.0);
    }
}

#[test]
fn progress_stream_is_rows_then_one_end() {
    let world = golden_scene();
    let camera = Camera::new();
    let settings = RenderSettings::new(32, 1).unwrap();
    let height = settings.height();
    let mut buf = PixelBuffer::new(settings.width, height);
    let mut rng = Rng::from_seed(3);
    let msgs = render_stream(&world, &camera, &settings, &mut buf, &mut rng);
    assert_eq!(msgs.len(), height + 1);
    for (i, m) in msgs.iter().enumerate() {
        if i < height {
            match m {
                ProgressMessage::Row(p) => assert_eq!(p.row, i),
                ProgressMessage::End => panic!("end marker arrived early"),
            }
        } else {
            assert!(matches!(m, ProgressMessage::End));
        }
    }
}

#[test]
fn progress_messages_of_no_rows_is_just_end() {
    let msgs = progress_messages(Vec::new());
    assert_eq!(msgs.len(), 1);
    assert!(matches!(msgs[0], ProgressMessage::End));
}

#[test]
fn golden_render_is_deterministic_for_a_seed() {
    let world = golden_scene();
    let camera = Camera::new();
    let settings = RenderSettings::new(64, 2).unwrap();
    let height = settings.height();

    let mut first = PixelBuffer::new(settings.width, height);
    let mut rng1 = Rng::from_seed(42);
    let payloads1 = render(&world, &camera, &settings, &mut first, &mut rng1);

    let mut second = PixelBuffer::new(settings.width, height);
    let mut rng2 = Rng::from_seed(42);
    let payloads2 = render(&world, &camera, &settings, &mut second, &mut rng2);

    assert_eq!(first.data, second.data);
    assert_eq!(payloads1.len(), payloads2.len());
    for (a, b) in payloads1.iter().zip(payloads2.iter()) {
        assert_eq!(a.row, b.row);
        assert_eq!(a.pixels.0, b.pixels.0);
    }

    // A different seed perturbs at least one pixel of this scene.
    let mut third = PixelBuffer::new(settings.width, height);
    let mut rng3 = Rng::from_seed(43);
    render(&world, &camera, &settings, &mut third, &mut rng3);
    assert_ne!(first.data, third.data);

    // The top-left pixel shows sky: its blue channel dominates its red.
    assert!(first.data[2] >= first.data[0]);
}
