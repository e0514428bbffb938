use rtow::fixed::Fx;
use rtow::util::{length, reflection, refraction, schlick};
use rtow::vec3::Vec3;

fn fx(units: i64) -> Fx {
    Fx { units }
}

fn v(x: i64, y: i64, z: i64) -> Vec3 {
    Vec3 { x: fx(x), y: fx(y), z: fx(z) }
}

const ONE: i64 = 65536;

#[test]
fn dot_and_cross_are_exact() {
    let a = v(ONE, 2 * ONE, 3 * ONE);
    let b = v(4 * ONE, -5 * ONE, 6 * ONE);
    assert_eq!(a.dot(b).units, (4 - 10 + 18) * ONE);
    let c = a.cross(b);
    // (2*6 - 3*(-5), 3*4 - 1*6, 1*(-5) - 2*4) == (27, 6, -13)
    assert_eq!(c.x.units, 27 * ONE);
    assert_eq!(c.y.units, 6 * ONE);
    assert_eq!(c.z.units, -13 * ONE);
}

#[test]
fn length_of_a_pythagorean_triple_is_exact() {
    let a = v(3 * ONE, 4 * ONE, 0);
    assert_eq!(length(&a).units, 5 * ONE);
    assert_eq!(a.length().units, 5 * ONE);
}

#[test]
fn unit_divides_by_the_length() {
    let a = v(3 * ONE, 4 * ONE, 0);
    let u = a.unit();
    assert_eq!(u.x.units, 39321); // 3/5, truncated
    assert_eq!(u.y.units, 52428); // 4/5, truncated
    assert_eq!(u.z.units, 0);
    let zero = v(0, 0, 0).unit();
    assert_eq!(zero, v(0, 0, 0)); // no direction to normalize
}

#[test]
fn reflection_law_on_a_unit_normal() {
    // reflect((1, -1, 0), (0, 1, 0)) == (1, 1, 0)
    let r = reflection(&v(ONE, -ONE, 0), &v(0, ONE, 0));
    assert_eq!(r, v(ONE, ONE, 0));
    // dot(reflect(v, n), n) == -dot(v, n), exactly on these values
    assert_eq!(r.dot(v(0, ONE, 0)).units, ONE);
    assert_eq!(v(ONE, -ONE, 0).dot(v(0, ONE, 0)).units, -ONE);
}

#[test]
fn refraction_bends_or_reflects_totally() {
    // Grazing entry at ratio 1.5: discriminant 1 - 2.25 < 0, total
    // internal reflection.
    let none = refraction(&v(ONE, 0, 0), &v(0, ONE, 0), fx(98304));
    assert!(none.is_none());
    // Same geometry at ratio 0.5: discriminant 0.75 > 0.
    let some = refraction(&v(ONE, 0, 0), &v(0, ONE, 0), fx(32768));
    assert!(some.is_some());
    // Head-on entry passes straight through: unit(v) == (0,0,-1),
    // dt == 1... direction keeps pointing down the axis.
    let through = refraction(&v(0, 0, -ONE), &v(0, 0, ONE), fx(43690)).unwrap();
    assert_eq!(through.x.units, 0);
    assert_eq!(through.y.units, 0);
    assert!(through.z.units < 0);
}

#[test]
fn schlick_stays_in_the_unit_interval() {
    let n = fx(98304); // 1.5
    for cos_units in [0i64, 1, 100, 32768, 65535, 65536] {
        let r = schlick(fx(cos_units), n);
        assert!(0 <= r.units && r.units <= ONE, "cosine {cos_units} gave {}", r.units);
    }
    // At grazing incidence (cosine 0) the reflectance reaches one.
    assert_eq!(schlick(fx(0), n).units, ONE);
    // At head-on incidence it is r0 == ((1-1.5)/(1+1.5))^2 == 0.04.
    assert_eq!(schlick(fx(ONE), n).units, 2621);
}
