use vstd::prelude::*;
use crate::fixed::{
    fx_add, fx_div, fx_mul, fx_neg, fx_sqrt, fx_sub, lemma_fx_div_sign, lemma_fx_sqrt_nonneg,
    lemma_mul_opp_sign, lemma_mul_same_sign, Fx, SCALE,
};
use crate::hitable::{HitPoint, Hitable};
use crate::material::Material;
use crate::ray::Ray;
use crate::rng::sample_units;
use crate::vec3::{dot_v, fxu, in_unit_ball, len_v, sub_s, unit_s, v3, Vec3};

verus! {

/// A 3D sphere. A negative radius is allowed and models a hollow
/// shell whose surface normal points inward; a zero radius has no
/// surface and is excluded.
#[derive(Clone, Copy, Debug)]
pub struct Sphere {
    pub center: Vec3,
    pub radius: Fx,
    pub material: Material,
}

/// The raw outward normal at `p`: `(p - center) / radius`, whose
/// direction flips with the sign of the radius, brought to unit
/// length.
pub open spec fn sphere_normal_s(s: Sphere, p: Vec3) -> Vec3 {
    let d = sub_s(p, s.center);
    unit_s(
        v3(
            fx_div(d.x.sv(), s.radius.sv()),
            fx_div(d.y.sv(), s.radius.sv()),
            fx_div(d.z.sv(), s.radius.sv()),
        ),
    )
}

/// The hit record a sphere produces at parameter `t`.
pub open spec fn sphere_hit_at(s: Sphere, ray: Ray, t: int) -> HitPoint {
    let p = ray.pat_s(t);
    HitPoint { t: fxu(t), p, normal: sphere_normal_s(s, p), material: s.material }
}

/// The hit a sphere yields for a ray within `(t_min, t_max)`: the
/// quadratic `a t^2 + 2 b t + c = 0` is solved, and the nearer root
/// inside the range wins. A nonpositive discriminant, or a direction
/// of zero squared length, yields no hit.
pub open spec fn sphere_hit_s(s: Sphere, ray: Ray, t_min: int, t_max: int) -> Option<HitPoint> {
    let oc = sub_s(ray.origin, s.center);
    let a = dot_v(ray.direction, ray.direction);
    let b = dot_v(oc, ray.direction);
    let c = fx_sub(dot_v(oc, oc), fx_mul(s.radius.sv(), s.radius.sv()));
    let delta = fx_sub(fx_mul(b, b), fx_mul(a, c));
    if a != 0 && delta > 0 {
        let sq = fx_sqrt(delta);
        let t1 = fx_div(fx_sub(fx_neg(b), sq), a);
        let t2 = fx_div(fx_add(fx_neg(b), sq), a);
        if t_min < t1 && t1 < t_max {
            Some(sphere_hit_at(s, ray, t1))
        } else if t_min < t2 && t2 < t_max {
            Some(sphere_hit_at(s, ray, t2))
        } else {
            None
        }
    } else {
        None
    }
}

impl Sphere {
    /// A sphere is well formed when its radius is nonzero and its
    /// material carries well-formed parameters.
    pub open spec fn wf(self) -> bool {
        self.radius.sv() != 0 && self.material.wf()
    }

    /// Builds a sphere.
    pub fn new(center: Vec3, radius: Fx, material: Material) -> (r: Sphere)
        requires
            radius.sv() != 0,
            material.wf(),
        ensures
            r == (Sphere { center, radius, material }),
            r.wf(),
    {
        Sphere { center, radius, material }
    }

    /// The center of the sphere.
    pub fn center(&self) -> (r: Vec3)
        ensures
            r == self.center,
    {
        self.center
    }

    /// The x coordinate of the center.
    pub fn x(&self) -> (r: Fx)
        ensures
            r == self.center.x,
    {
        self.center.x
    }

    /// The y coordinate of the center.
    pub fn y(&self) -> (r: Fx)
        ensures
            r == self.center.y,
    {
        self.center.y
    }

    /// The z coordinate of the center.
    pub fn z(&self) -> (r: Fx)
        ensures
            r == self.center.z,
    {
        self.center.z
    }

    /// The radius of the sphere.
    pub fn radius(&self) -> (r: Fx)
        ensures
            r == self.radius,
    {
        self.radius
    }

    /// Returns a random 3D point situated strictly inside the sphere
    /// of radius 1 centered in the origin. Points are drawn uniformly
    /// from the enclosing cube until one falls inside the ball, with
    /// about a 52% chance per trial; after a bounded number of failed
    /// trials — an astronomically unlikely event — the center itself
    /// is returned.
    pub fn random_point_in_unit_sphere() -> (r: Vec3)
        ensures
            in_unit_ball(r),
    {
        let mut result = Vec3::zero();
        proof {
            crate::vec3::lemma_zero_dot(result);
            assert(in_unit_ball(result));
        }
        let mut found = false;
        let mut i: u32 = 0;
        while i < 64 && !found
            invariant
                in_unit_ball(result),
            decreases 64 - i,
        {
            let cand = Vec3 {
                x: Fx::from_units(sample_units(-SCALE, SCALE)),
                y: Fx::from_units(sample_units(-SCALE, SCALE)),
                z: Fx::from_units(sample_units(-SCALE, SCALE)),
            };
            if cand.dot(cand).units < SCALE {
                result = cand;
                found = true;
            }
            i = i + 1;
        }
        result
    }

    /// Returns a random point strictly inside the unit disk in the
    /// z = 0 plane, by the same bounded rejection sampling.
    pub fn random_point_in_unit_disk() -> (r: Vec3)
        ensures
            in_unit_ball(r),
            r.z.sv() == 0,
    {
        let mut result = Vec3::zero();
        proof {
            crate::vec3::lemma_zero_dot(result);
            assert(in_unit_ball(result));
        }
        let mut found = false;
        let mut i: u32 = 0;
        while i < 64 && !found
            invariant
                in_unit_ball(result),
                result.z.sv() == 0,
            decreases 64 - i,
        {
            let cand = Vec3 {
                x: Fx::from_units(sample_units(-SCALE, SCALE)),
                y: Fx::from_units(sample_units(-SCALE, SCALE)),
                z: Fx { units: 0 },
            };
            if cand.dot(cand).units < SCALE {
                result = cand;
                found = true;
            }
            i = i + 1;
        }
        result
    }

    /// Whether the two spheres touch or overlap: the distance between
    /// the centers is at most the sum of the radii.
    pub fn intersects(&self, other: &Sphere) -> (r: bool)
        ensures
            r == (len_v(sub_s(other.center, self.center)) <= fx_add(
                self.radius.sv(),
                other.radius.sv(),
            )),
    {
        let distance_between_centers = crate::util::length(&other.center().vsub(self.center()));
        distance_between_centers.le(self.radius.fadd(other.radius))
    }

    fn hit_at(&self, ray: &Ray, t: Fx) -> (h: HitPoint)
        requires
            self.radius.sv() != 0,
        ensures
            h == sphere_hit_at(*self, *ray, t.sv()),
    {
        let p = ray.point_at_parameter(t);
        let d = p.vsub(self.center);
        let raw = Vec3 {
            x: d.x.fdiv(self.radius),
            y: d.y.fdiv(self.radius),
            z: d.z.fdiv(self.radius),
        };
        HitPoint { t, p, normal: raw.unit(), material: self.material }
    }
}

impl Hitable for Sphere {
    open spec fn hwf(&self) -> bool {
        self.wf()
    }

    open spec fn hit_s(&self, ray: Ray, t_min: int, t_max: int) -> Option<HitPoint> {
        sphere_hit_s(*self, ray, t_min, t_max)
    }

    /// There can be 0, 1 or 2 hit points for a given ray and a
    /// sphere. If there is more than one, the closest one (smallest
    /// `t`) is chosen.
    fn hit(&self, ray: &Ray, t_min: Fx, t_max: Fx) -> (r: Option<HitPoint>) {
        let oc = ray.origin().vsub(self.center);
        let a = ray.direction().dot(ray.direction());
        let b = oc.dot(ray.direction());
        let c = oc.dot(oc).fsub(self.radius.fmul(self.radius));
        let delta = b.fmul(b).fsub(a.fmul(c));
        if a.units != 0 && delta.units > 0 {
            let sq = delta.fsqrt();
            let t1 = b.fneg().fsub(sq).fdiv(a);
            if t_min.lt(t1) && t1.lt(t_max) {
                return Some(self.hit_at(ray, t1));
            }
            let t2 = b.fneg().fadd(sq).fdiv(a);
            if t_min.lt(t2) && t2.lt(t_max) {
                return Some(self.hit_at(ray, t2));
            }
            None
        } else {
            None
        }
    }
}

/// Half of the normal-correctness property: at any point, the normal
/// a sphere reports points to the same side as `p - center` when the
/// radius is positive, and to the opposite side when it is negative.
pub proof fn lemma_normal_sign(s: Sphere, p: Vec3)
    requires
        s.radius.sv() != 0,
    ensures
        s.radius.sv() > 0 ==> dot_v(sphere_normal_s(s, p), sub_s(p, s.center)) >= 0,
        s.radius.sv() < 0 ==> dot_v(sphere_normal_s(s, p), sub_s(p, s.center)) <= 0,
{
    let d = sub_s(p, s.center);
    let r = s.radius.sv();
    let raw = v3(fx_div(d.x.sv(), r), fx_div(d.y.sv(), r), fx_div(d.z.sv(), r));
    lemma_fx_div_sign(d.x.sv(), r);
    lemma_fx_div_sign(d.y.sv(), r);
    lemma_fx_div_sign(d.z.sv(), r);
    let n = sphere_normal_s(s, p);
    if len_v(raw) == 0 {
        crate::vec3::lemma_zero_dot(d);
        assert(dot_v(n, d) == 0);
    } else {
        let l = len_v(raw);
        lemma_fx_sqrt_nonneg(dot_v(raw, raw));
        assert(l > 0);
        lemma_fx_div_sign(raw.x.sv(), l);
        lemma_fx_div_sign(raw.y.sv(), l);
        lemma_fx_div_sign(raw.z.sv(), l);
        if r > 0 {
            lemma_mul_same_sign(n.x.sv(), d.x.sv());
            lemma_mul_same_sign(n.y.sv(), d.y.sv());
            lemma_mul_same_sign(n.z.sv(), d.z.sv());
        } else {
            lemma_mul_opp_sign(n.x.sv(), d.x.sv());
            lemma_mul_opp_sign(n.y.sv(), d.y.sv());
            lemma_mul_opp_sign(n.z.sv(), d.z.sv());
        }
    }
}

} // verus!
