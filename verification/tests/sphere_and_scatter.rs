use rtow::fixed::Fx;
use rtow::hitable::{Hitable, HitPoint};
use rtow::material::{Material, Scatterable};
use rtow::ray::Ray;
use rtow::sphere::Sphere;
use rtow::vec3::Vec3;

fn fx(units: i64) -> Fx {
    Fx { units }
}

fn v(x: i64, y: i64, z: i64) -> Vec3 {
    Vec3 { x: fx(x), y: fx(y), z: fx(z) }
}

const ONE: i64 = 65536;

fn gray() -> Material {
    Material::Lambertian { attenuation: v(32768, 32768, 32768) }
}

fn t_bounds() -> (Fx, Fx) {
    (fx(66), fx(i64::MAX))
}

#[test]
fn nearest_root_of_a_known_sphere() {
    // Center (0, 0, -1), radius 0.5, ray from the origin straight
    // down the -z axis: the near root is exactly 0.5.
    let s = Sphere::new(v(0, 0, -ONE), fx(32768), gray());
    let ray = Ray::new(v(0, 0, 0), v(0, 0, -ONE));
    let (t_min, t_max) = t_bounds();
    let hit = s.hit(&ray, t_min, t_max).expect("the ray passes through the sphere");
    assert_eq!(hit.t.units, 32768);
    assert_eq!(hit.p, v(0, 0, -32768));
    // The normal points back along +z with unit length, exactly.
    assert_eq!(hit.normal, v(0, 0, ONE));
}

#[test]
fn a_ray_aimed_away_misses() {
    let s = Sphere::new(v(0, 0, -ONE), fx(32768), gray());
    let ray = Ray::new(v(0, 0, 0), v(0, 0, ONE));
    let (t_min, t_max) = t_bounds();
    assert!(s.hit(&ray, t_min, t_max).is_none());
}

#[test]
fn normal_sign_follows_the_radius() {
    let (t_min, t_max) = t_bounds();
    let ray = Ray::new(v(0, 0, 0), v(0, 0, -ONE));
    let outward = Sphere::new(v(0, 0, -ONE), fx(32768), gray());
    let h = outward.hit(&ray, t_min, t_max).unwrap();
    let d = h.p.vsub(v(0, 0, -ONE));
    assert!(h.normal.dot(d).units > 0); // positive radius: same side
    let hollow = Sphere::new(v(0, 0, -ONE), fx(-32768), gray());
    let h2 = hollow.hit(&ray, t_min, t_max).unwrap();
    let d2 = h2.p.vsub(v(0, 0, -ONE));
    assert!(h2.normal.dot(d2).units < 0); // negative radius: flipped
}

#[test]
fn hit_of_a_list_takes_the_smallest_t() {
    let near = Sphere::new(v(0, 0, -ONE), fx(32768), gray());
    let far = Sphere::new(v(0, 0, -3 * ONE), fx(32768), gray());
    let world: Vec<Sphere> = vec![far, near];
    let ray = Ray::new(v(0, 0, 0), v(0, 0, -ONE));
    let (t_min, t_max) = t_bounds();
    let hit = world.hit(&ray, t_min, t_max).unwrap();
    assert_eq!(hit.t.units, 32768);
    let empty: Vec<Sphere> = vec![];
    assert!(empty.hit(&ray, t_min, t_max).is_none());
}

#[test]
fn spheres_touching_or_overlapping_intersect() {
    let a = Sphere::new(v(0, 0, 0), fx(ONE), gray());
    let apart = Sphere::new(v(3 * ONE, 0, 0), fx(ONE), gray());
    let close = Sphere::new(v(98304, 0, 0), fx(ONE), gray()); // 1.5 away
    assert!(!a.intersects(&apart));
    assert!(a.intersects(&close));
}

#[test]
fn lambertian_always_scatters_with_its_albedo() {
    let albedo = v(16384, 32768, 49152);
    let m = Material::Lambertian { attenuation: albedo };
    let ray = Ray::new(v(0, 0, 0), v(0, 0, -ONE));
    let hp = HitPoint { t: fx(ONE), p: v(0, 0, -ONE), normal: v(0, ONE, 0), material: m };
    for _ in 0..16 {
        let (scattered, att) = m.scatter(&ray, &hp).expect("a matte surface always scatters");
        assert_eq!(att, albedo);
        assert_eq!(scattered.origin, hp.p);
        // Attenuation never exceeds one on any channel.
        assert!(att.x.units <= ONE && att.y.units <= ONE && att.z.units <= ONE);
    }
}

#[test]
fn smooth_metal_reflects_and_absorbs_grazing_rays() {
    let albedo = v(45875, 39321, 32768);
    let m = Material::Metal { attenuation: albedo, fuzziness: fx(0) };
    let hp = HitPoint { t: fx(ONE), p: v(0, 0, 0), normal: v(0, ONE, 0), material: m };
    let incoming = Ray::new(v(-ONE, ONE, 0), v(ONE, -ONE, 0));
    let (scattered, att) = m.scatter(&incoming, &hp).expect("the mirror direction leaves");
    assert_eq!(att, albedo);
    // reflect(unit(1,-1,0), (0,1,0)) has a positive y component.
    assert!(scattered.direction.y.units > 0);
    assert!(scattered.direction.x.units > 0);
    // A ray leaving along the normal reflects back inward and is
    // absorbed.
    let inside = Ray::new(v(0, -ONE, 0), v(0, ONE, 0));
    assert!(m.scatter(&inside, &hp).is_none());
}

#[test]
fn dielectric_scatters_without_absorbing() {
    let m = Material::Dielectric { refractive_index: fx(98304) };
    let hp = HitPoint { t: fx(ONE), p: v(0, 0, -ONE), normal: v(0, 0, ONE), material: m };
    let ray = Ray::new(v(0, 0, 0), v(0, 0, -ONE));
    for _ in 0..16 {
        let (scattered, att) = m.scatter(&ray, &hp).expect("glass reflects or refracts");
        assert_eq!(att, v(ONE, ONE, ONE));
        assert_eq!(scattered.origin, hp.p);
    }
}

#[test]
fn random_materials_are_well_formed() {
    for _ in 0..32 {
        match Material::random_lambertian() {
            Material::Lambertian { attenuation } => {
                assert!(0 <= attenuation.x.units && attenuation.x.units < ONE);
                assert!(0 <= attenuation.y.units && attenuation.y.units < ONE);
                assert!(0 <= attenuation.z.units && attenuation.z.units < ONE);
            },
            other => panic!("expected a matte material, got {:?}", other),
        }
        match Material::random_metal() {
            Material::Metal { attenuation, fuzziness } => {
                assert!(0 <= attenuation.x.units && attenuation.x.units < ONE);
                assert!(0 <= fuzziness.units && fuzziness.units < ONE);
            },
            other => panic!("expected a metal, got {:?}", other),
        }
        match Material::random_dielectric() {
            Material::Dielectric { refractive_index } => {
                assert!(85197 <= refractive_index.units && refractive_index.units < 209715);
            },
            other => panic!("expected a glass, got {:?}", other),
        }
        let _ = Material::random_material();
    }
}

#[test]
fn random_points_stay_inside_the_unit_ball() {
    for _ in 0..64 {
        let p = Sphere::random_point_in_unit_sphere();
        assert!(p.dot(p).units < ONE);
        let d = Sphere::random_point_in_unit_disk();
        assert!(d.dot(d).units < ONE);
        assert_eq!(d.z.units, 0);
    }
}
