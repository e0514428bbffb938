use rtow::camera::{Camera, Lens, Orientation};
use rtow::config::{Config, Resolution};
use rtow::fixed::Fx;
use rtow::material::Material;
use rtow::ray::Ray;
use rtow::render::{pixel_jobs, render, render_pixel};
use rtow::sphere::Sphere;
use rtow::vec3::Vec3;

fn fx(units: i64) -> Fx {
    Fx { units }
}

fn v(x: i64, y: i64, z: i64) -> Vec3 {
    Vec3 { x: fx(x), y: fx(y), z: fx(z) }
}

const ONE: i64 = 65536;

fn gray() -> Material {
    Material::Lambertian { attenuation: v(32768, 32768, 32768) }
}

fn empty_world() -> Vec<Sphere> {
    vec![]
}

#[test]
fn color_at_the_depth_cutoff_is_black_for_any_ray() {
    let world = vec![Sphere::new(v(0, 0, -ONE), fx(32768), gray())];
    for dir in [v(0, 0, -ONE), v(ONE, ONE, ONE), v(0, -ONE, 0), v(0, 0, 0)] {
        let ray = Ray::new(v(0, 0, 0), dir);
        for depth in [50, 51, 1000] {
            assert_eq!(ray.color(&world, depth), v(0, 0, 0));
            assert_eq!(ray.color(&empty_world(), depth), v(0, 0, 0));
        }
    }
}

#[test]
fn an_empty_scene_shows_the_sky_gradient_exactly() {
    // Horizontal ray: t == 0.5, color (0.75, 0.85, 1.0).
    let level = Ray::new(v(0, 0, 0), v(0, 0, -ONE));
    assert_eq!(level.color(&empty_world(), 0), v(49152, 55705, ONE));
    // Straight up: t == 1, pure cyan.
    let up = Ray::new(v(0, 0, 0), v(0, ONE, 0));
    assert_eq!(up.color(&empty_world(), 0), v(32768, 45875, ONE));
    // Straight down: t == 0, pure white.
    let down = Ray::new(v(0, 0, 0), v(0, -ONE, 0));
    assert_eq!(down.color(&empty_world(), 0), v(ONE, ONE, ONE));
}

#[test]
fn color_channels_always_stay_within_one() {
    let world = vec![
        Sphere::new(v(0, 0, -ONE), fx(ONE), gray()),
        Sphere::new(v(0, -100 * ONE - 32768, -ONE), fx(100 * ONE), gray()),
    ];
    for _ in 0..32 {
        let ray = Ray::new(v(0, 0, 0), v(0, 0, -ONE));
        let c = ray.color(&world, 0);
        assert!(0 <= c.x.units && c.x.units <= ONE);
        assert!(0 <= c.y.units && c.y.units <= ONE);
        assert!(0 <= c.z.units && c.z.units <= ONE);
    }
}

fn scene_camera(aspect_num: i64) -> Camera {
    Camera::new(
        Orientation {
            look_from: v(0, 0, 0),
            look_at: v(0, 0, -ONE),
            upwards: v(0, ONE, 0),
        },
        Lens {
            aperture: fx(0),
            focal_length: fx(ONE),
            vertical_fov: fx(90 * ONE),
            aspect_ratio: fx(aspect_num),
        },
    )
}

#[test]
fn a_matte_sphere_dominates_the_sky() {
    // A unit sphere a unit ahead subtends the whole forward
    // hemisphere, so every sampled ray hits it and every channel is
    // attenuated to at most one half before gamma: 181 of 255. The
    // sky alone would put 255 in the blue channel.
    let world = vec![
        Sphere::new(v(0, 0, -ONE), fx(ONE), gray()),
        Sphere::new(v(0, -100 * ONE - 32768, -ONE), fx(100 * ONE), gray()),
    ];
    let camera = scene_camera(2 * ONE);
    let cfg = Config {
        resolution: Resolution { width: 20, height: 10 },
        fov: fx(90 * ONE),
        samples: 1,
        output_filename: String::from("out.png"),
        threads: 1,
    };
    let frame = render(&world, &camera, &cfg);
    assert_eq!(frame.len(), 200);
    for p in &frame {
        assert!(p.b <= 181, "a sky pixel leaked through: {:?}", p);
    }
}

#[test]
fn an_empty_scene_renders_a_saturated_blue_channel() {
    // The sky's blue channel is exactly one for every direction, so
    // after averaging, gamma and quantization every pixel holds 255.
    let world = empty_world();
    let camera = scene_camera(2 * ONE);
    let cfg = Config {
        resolution: Resolution { width: 8, height: 4 },
        fov: fx(90 * ONE),
        samples: 2,
        output_filename: String::from("out.png"),
        threads: 1,
    };
    let frame = render(&world, &camera, &cfg);
    assert_eq!(frame.len(), 32);
    for p in &frame {
        assert_eq!(p.b, 255);
        assert!(p.r <= 255 && p.g <= 255);
    }
}

#[test]
fn rendering_twice_yields_the_same_structure() {
    let world = vec![Sphere::new(v(0, 0, -2 * ONE), fx(32768), gray())];
    let camera = scene_camera(ONE);
    let cfg = Config {
        resolution: Resolution { width: 7, height: 5 },
        fov: fx(90 * ONE),
        samples: 2,
        output_filename: String::from("out.png"),
        threads: 4,
    };
    let first = render(&world, &camera, &cfg);
    let second = render(&world, &camera, &cfg);
    assert_eq!(first.len(), 35);
    assert_eq!(second.len(), 35);
    for p in first.iter().chain(second.iter()) {
        assert!(p.r <= 255 && p.g <= 255 && p.b <= 255);
    }
}

#[test]
fn pixel_jobs_enumerate_every_coordinate_once() {
    let jobs = pixel_jobs(&Resolution { width: 3, height: 2 });
    assert_eq!(
        jobs,
        vec![(0, 0), (1, 0), (2, 0), (0, 1), (1, 1), (2, 1)]
    );
}

#[test]
fn render_pixel_stays_in_the_channel_range() {
    let world = vec![Sphere::new(v(0, 0, -2 * ONE), fx(32768), gray())];
    let camera = scene_camera(ONE);
    let res = Resolution { width: 4, height: 4 };
    for y in 0..4 {
        for x in 0..4 {
            let p = render_pixel(&world, &camera, x, y, &res, 3);
            assert!(p.r <= 255 && p.g <= 255 && p.b <= 255);
        }
    }
}
