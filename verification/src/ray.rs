use vstd::prelude::*;
use crate::fixed::{
    clamp01_s, fx_add, fx_mul, fx_sub, lemma_unit_mul_bounds, Fx, MAX_UNITS, SCALE,
};
use crate::hitable::{HitPoint, Hitable};
use crate::material::{lemma_scatter_attenuation, unit_interval3, Material, Scatterable};
use crate::vec3::{add_s, elem_mul_s, in_unit_ball, scale_s, unit_s, v3, Vec3};

verus! {

/// Most bounces a light path may take before it is called black:
/// the recursion-depth cutoff that bounds the cost of a sample.
pub const MAX_DEPTH: i32 = 50;

/// Smallest accepted hit parameter when tracing scattered rays,
/// about 0.001 in stored units: a strictly positive floor that keeps
/// a scattered ray from hitting its own origin again.
pub const T_MIN_UNITS: i64 = 66;

/// One half, in stored units.
pub const HALF_UNITS: i64 = 32768;

/// The cyan the sky fades into overhead: `(0.5, 0.7, 1.0)`.
pub open spec fn sky_cyan() -> Vec3 {
    v3(32768, 45875, SCALE as int)
}

/// The background light a missed ray picks up: a vertical blend from
/// white at the horizon to cyan overhead, interpolated by
/// `t = 0.5 * (unit(direction).y + 1)`, with `t` clamped to `[0, 1]`.
pub open spec fn sky_s(direction: Vec3) -> Vec3 {
    let t = clamp01_s(fx_mul(HALF_UNITS as int, fx_add(unit_s(direction).y.sv(), SCALE as int)));
    add_s(
        scale_s(v3(SCALE as int, SCALE as int, SCALE as int), fx_sub(SCALE as int, t)),
        scale_s(sky_cyan(), t),
    )
}

/// The sky gradient for a direction; every channel lies in `[0, 1]`.
pub fn sky(direction: &Vec3) -> (r: Vec3)
    ensures
        r == sky_s(*direction),
        unit_interval3(r),
{
    let half = Fx { units: HALF_UNITS };
    let t = half.fmul(direction.unit().y.fadd(Fx::one())).clamp01();
    let white = Vec3::new(Fx::one(), Fx::one(), Fx::one());
    let cyan = Vec3::new(Fx { units: 32768 }, Fx { units: 45875 }, Fx::one());
    let out = white.scale(Fx::one().fsub(t)).vadd(cyan.scale(t));
    proof {
        let tv = t.sv();
        lemma_unit_mul_bounds(SCALE as int, fx_sub(SCALE as int, tv));
        lemma_unit_mul_bounds(32768, tv);
        lemma_unit_mul_bounds(45875, tv);
        lemma_unit_mul_bounds(SCALE as int, tv);
    }
    out
}

/// A ray of light, traced backwards: it starts at the observer and
/// runs towards the light that reached it.
#[derive(Clone, Copy, Debug, PartialEq, Eq, Structural)]
pub struct Ray {
    /// The source of the ray.
    pub origin: Vec3,
    /// The 3D direction of the ray.
    pub direction: Vec3,
}

/// The relation every outcome of `Ray::color` satisfies, over the
/// random draws the trace consumes. At or beyond the depth cutoff
/// the color is black. A ray the scene misses picks up exactly the
/// sky gradient. A ray the scene hits takes some scattering outcome
/// admitted by the hit material: on absorption the color is black,
/// and otherwise it is the outcome's attenuation multiplied
/// componentwise with a color satisfying this same relation for the
/// scattered ray, one bounce deeper.
pub open spec fn color_ok<W: Hitable>(world: &W, ray: Ray, depth: int, r: Vec3) -> bool
    decreases MAX_DEPTH - depth, 1int,
{
    if depth >= MAX_DEPTH {
        r == v3(0, 0, 0)
    } else {
        match world.hit_s(ray, T_MIN_UNITS as int, MAX_UNITS as int) {
            None => r == sky_s(ray.direction),
            Some(h) => color_hit_ok(world, ray, depth, h, r),
        }
    }
}

/// The hit branch of `color_ok`: some scattering outcome admitted by
/// the hit material accounts for the color — black on absorption,
/// else the outcome's attenuation multiplied componentwise with a
/// color of the scattered ray, one bounce deeper.
pub open spec fn color_hit_ok<W: Hitable>(
    world: &W,
    ray: Ray,
    depth: int,
    h: HitPoint,
    r: Vec3,
) -> bool
    decreases MAX_DEPTH - depth, 0int,
{
    depth < MAX_DEPTH && ((h.material.scatter_ok(ray, h, None::<(Ray, Vec3)>) && r == v3(
        0,
        0,
        0,
    )) || (exists|scattered: Ray, attenuation: Vec3, sub: Vec3|
        #![trigger h.material.scatter_ok(ray, h, Some((scattered, attenuation))), unit_interval3(sub)]
        h.material.scatter_ok(ray, h, Some((scattered, attenuation))) && color_ok(
            world,
            scattered,
            depth + 1,
            sub,
        ) && unit_interval3(sub) && r == elem_mul_s(attenuation, sub)))
}

/// A ray that hits a matte surface is dominated by the surface's
/// albedo: whatever the random draws, every channel of the traced
/// color stays between zero and the matching albedo channel — never
/// the brighter sky gradient.
pub proof fn lemma_lambertian_hit_dominates<W: Hitable>(
    world: &W,
    ray: Ray,
    depth: int,
    h: HitPoint,
    albedo: Vec3,
    r: Vec3,
)
    requires
        depth < MAX_DEPTH,
        world.hit_s(ray, T_MIN_UNITS as int, MAX_UNITS as int) == Some(h),
        h.material == (Material::Lambertian { attenuation: albedo }),
        unit_interval3(albedo),
        color_ok(world, ray, depth, r),
    ensures
        0 <= r.x.sv() <= albedo.x.sv(),
        0 <= r.y.sv() <= albedo.y.sv(),
        0 <= r.z.sv() <= albedo.z.sv(),
{
    assert(color_hit_ok(world, ray, depth, h, r));
    if h.material.scatter_ok(ray, h, None::<(Ray, Vec3)>) && r == v3(0, 0, 0) {
        assert(r.x.sv() == 0 && r.y.sv() == 0 && r.z.sv() == 0);
    } else {
        let (scattered, att, sub) = choose|scattered: Ray, att: Vec3, sub: Vec3|
            #![trigger h.material.scatter_ok(ray, h, Some((scattered, att))), unit_interval3(sub)]
            h.material.scatter_ok(ray, h, Some((scattered, att))) && color_ok(
                world,
                scattered,
                depth + 1,
                sub,
            ) && unit_interval3(sub) && r == elem_mul_s(att, sub);
        let u = choose|u: Vec3|
            #[trigger] in_unit_ball(u) && Some((scattered, att)) == Some(
                (Ray { origin: h.p, direction: add_s(h.normal, u) }, albedo),
            );
        assert(att == albedo);
        lemma_unit_mul_bounds(albedo.x.sv(), sub.x.sv());
        lemma_unit_mul_bounds(albedo.y.sv(), sub.y.sv());
        lemma_unit_mul_bounds(albedo.z.sv(), sub.z.sv());
    }
}

impl Ray {
    /// Builds a ray from its origin and direction.
    pub fn new(origin: Vec3, direction: Vec3) -> (r: Ray)
        ensures
            r == (Ray { origin, direction }),
    {
        Ray { origin, direction }
    }

    /// The source of the ray.
    pub fn origin(&self) -> (r: Vec3)
        ensures
            r == self.origin,
    {
        self.origin
    }

    /// The direction of the ray.
    pub fn direction(&self) -> (r: Vec3)
        ensures
            r == self.direction,
    {
        self.direction
    }

    /// The point reached after travelling `t` directions from the
    /// origin: `origin + t * direction`.
    pub open spec fn pat_s(self, t: int) -> Vec3 {
        add_s(self.origin, scale_s(self.direction, t))
    }

    /// The point on the ray at parameter `t`.
    pub fn point_at_parameter(&self, t: Fx) -> (r: Vec3)
        ensures
            r == self.pat_s(t.sv()),
    {
        self.origin.vadd(self.direction.scale(t))
    }

    /// Traces the ray backwards and computes its color. A path at or
    /// beyond `MAX_DEPTH` bounces contributes black, whatever the
    /// ray. Otherwise the nearest hit in `(T_MIN_UNITS, MAX_UNITS)`
    /// scatters: the scattered ray's color, one bounce deeper, is
    /// attenuated componentwise, and an absorbed ray yields black. A
    /// ray that hits nothing picks up the sky gradient, exactly as
    /// `sky_s` states it. Every channel of the result lies in
    /// `[0, 1]`.
    #[verifier::rlimit(100)]
    pub fn color<W: Hitable>(&self, world: &W, depth: i32) -> (r: Vec3)
        requires
            world.hwf(),
        ensures
            unit_interval3(r),
            color_ok(world, *self, depth as int, r),
            depth >= MAX_DEPTH ==> r == v3(0, 0, 0),
            depth < MAX_DEPTH && world.hit_s(*self, T_MIN_UNITS as int, MAX_UNITS as int)
                is None ==> r == sky_s(self.direction),
        decreases MAX_DEPTH - depth,
    {
        if depth >= MAX_DEPTH {
            return Vec3::zero();
        }
        let t_min = Fx { units: T_MIN_UNITS };
        let t_max = Fx { units: MAX_UNITS };
        match world.hit(self, t_min, t_max) {
            Some(hitpoint) => {
                match hitpoint.material.scatter(self, &hitpoint) {
                    Some((scattered_ray, attenuation)) => {
                        let c = scattered_ray.color(world, depth + 1);
                        let out = attenuation.mul_elem(c);
                        proof {
                            lemma_scatter_attenuation(
                                hitpoint.material,
                                *self,
                                hitpoint,
                                Some((scattered_ray, attenuation)),
                            );
                            lemma_unit_mul_bounds(attenuation.x.sv(), c.x.sv());
                            lemma_unit_mul_bounds(attenuation.y.sv(), c.y.sv());
                            lemma_unit_mul_bounds(attenuation.z.sv(), c.z.sv());
                            assert(color_ok(world, scattered_ray, depth + 1, c));
                            assert(hitpoint.material.scatter_ok(
                                *self,
                                hitpoint,
                                Some((scattered_ray, attenuation)),
                            ));
                            assert(color_hit_ok(world, *self, depth as int, hitpoint, out));
                            assert(color_ok(world, *self, depth as int, out));
                        }
                        out
                    },
                    None => {
                        let out = Vec3::zero();
                        proof {
                            assert(hitpoint.material.scatter_ok(
                                *self,
                                hitpoint,
                                None::<(Ray, Vec3)>,
                            ));
                            assert(color_hit_ok(world, *self, depth as int, hitpoint, out));
                            assert(color_ok(world, *self, depth as int, out));
                        }
                        out
                    },
                }
            },
            None => sky(&self.direction()),
        }
    }
}

} // verus!
