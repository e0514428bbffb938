use rtow::camera::{Camera, Lens, Orientation};
use rtow::fixed::Fx;
use rtow::pixel::Pixel;
use rtow::vec3::Vec3;

fn fx(units: i64) -> Fx {
    Fx { units }
}

fn v(x: i64, y: i64, z: i64) -> Vec3 {
    Vec3 { x: fx(x), y: fx(y), z: fx(z) }
}

const ONE: i64 = 65536;

#[test]
fn pixel_from_truncates_and_saturates() {
    let p = Pixel::from(&v(98304, -131072, 300 * ONE + 45875));
    assert_eq!((p.r, p.g, p.b), (1, 0, 300));
    let big = Pixel::from(&v(70000 * ONE, 0, 65535 * ONE));
    assert_eq!((big.r, big.g, big.b), (65535, 0, 65535));
}

#[test]
fn pixel_mul_clamps_to_the_byte_range() {
    let p = Pixel { r: 100, g: 200, b: 50 };
    let scaled = p.mul(fx(98304)); // times 1.5
    assert_eq!((scaled.r, scaled.g, scaled.b), (150, 255, 75));
    let dark = Pixel { r: 10, g: 20, b: 30 }.mul(fx(-ONE));
    assert_eq!((dark.r, dark.g, dark.b), (0, 0, 0));
}

fn axis_camera(aperture: i64) -> Camera {
    Camera::new(
        Orientation {
            look_from: v(0, 0, 0),
            look_at: v(0, 0, -ONE),
            upwards: v(0, ONE, 0),
        },
        Lens {
            aperture: fx(aperture),
            focal_length: fx(ONE),
            vertical_fov: fx(90 * ONE),
            aspect_ratio: fx(ONE),
        },
    )
}

#[test]
fn the_camera_basis_follows_the_orientation() {
    let cam = axis_camera(0);
    assert_eq!(cam.origin, v(0, 0, 0));
    assert_eq!(cam.w, v(0, 0, ONE));
    assert_eq!(cam.u, v(ONE, 0, 0));
    assert_eq!(cam.v, v(0, ONE, 0));
    // tan(45 degrees) is 1 up to the Taylor approximation: the
    // horizontal span is 2 * tan * focal on the x axis.
    assert!(cam.horizontal.y.units == 0 && cam.horizontal.z.units == 0);
    assert!((cam.horizontal.x.units - 2 * ONE).abs() < 2000);
    assert!(cam.vertical.x.units == 0 && cam.vertical.z.units == 0);
    assert!((cam.vertical.y.units - 2 * ONE).abs() < 2000);
    assert_eq!(cam.lens_radius().units, 0);
}

#[test]
fn a_pinhole_ray_is_the_exact_sensor_formula() {
    let cam = axis_camera(0);
    // The center of the sensor: direction is lower_left + 0.5 h +
    // 0.5 v - origin, which cancels to straight ahead.
    let ray = cam.get_ray(fx(32768), fx(32768));
    assert_eq!(ray.origin, v(0, 0, 0));
    assert_eq!(ray.direction.z.units, -ONE);
    assert!(ray.direction.x.units.abs() <= 2);
    assert!(ray.direction.y.units.abs() <= 2);
    // The lower-left corner.
    let corner = cam.get_ray(fx(0), fx(0));
    assert_eq!(corner.direction, cam.lower_left_corner);
}

#[test]
fn a_lens_jitters_the_origin_within_the_aperture() {
    let cam = axis_camera(13107); // aperture 0.2, lens radius 0.1
    assert_eq!(cam.lens_radius().units, 6553);
    for _ in 0..32 {
        let ray = cam.get_ray(fx(32768), fx(32768));
        // The origin moves at most the lens radius along each axis.
        assert!(ray.origin.x.units.abs() <= 6553);
        assert!(ray.origin.y.units.abs() <= 6553);
        assert_eq!(ray.origin.z.units, 0);
    }
}
