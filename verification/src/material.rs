use vstd::prelude::*;
use crate::fixed::{fx_div, fx_neg, fx_mul, Fx, SCALE};
use crate::hitable::HitPoint;
use crate::ray::Ray;
use crate::rng::sample_units;
use crate::sphere::Sphere;
use crate::util::{reflect_s, refract_s, schlick_s};
use crate::vec3::{add_s, dot_v, in_unit_ball, len_v, neg_s, scale_s, unit_s, v3, Vec3};

verus! {

/// Lower bound of the refractive indices drawn for a random glass:
/// 1.3 in stored units.
pub const MIN_RANDOM_REFRACTIVE: i64 = 85197;

/// Upper bound of the refractive indices drawn for a random glass:
/// 3.2 in stored units.
pub const MAX_RANDOM_REFRACTIVE: i64 = 209715;

/// A light-scattering behavior, attached to geometry when the scene
/// is built. Materials are immutable value data.
#[derive(Clone, Copy, Debug)]
pub enum Material {
    /// Matte.
    Lambertian { attenuation: Vec3 },
    /// Metal.
    Metal { attenuation: Vec3, fuzziness: Fx },
    /// i.e. glass.
    Dielectric { refractive_index: Fx },
}

/// Whether every channel of a color lies in `[0, 1]`.
pub open spec fn unit_interval3(v: Vec3) -> bool {
    0 <= v.x.sv() <= SCALE && 0 <= v.y.sv() <= SCALE && 0 <= v.z.sv() <= SCALE
}

/// What every draw of the random constructors satisfies: albedo
/// channels and fuzziness drawn from `[0, 1)`, a refractive index
/// drawn from `[1.3, 3.2)`. (That the draws are uniform is a fact
/// about the generator that no contract here states.)
pub open spec fn random_draw_ok(m: Material) -> bool {
    match m {
        Material::Lambertian { attenuation } => 0 <= attenuation.x.sv() < SCALE && 0
            <= attenuation.y.sv() < SCALE && 0 <= attenuation.z.sv() < SCALE,
        Material::Metal { attenuation, fuzziness } => 0 <= attenuation.x.sv() < SCALE && 0
            <= attenuation.y.sv() < SCALE && 0 <= attenuation.z.sv() < SCALE && 0
            <= fuzziness.sv() < SCALE,
        Material::Dielectric { refractive_index } => MIN_RANDOM_REFRACTIVE
            <= refractive_index.sv() < MAX_RANDOM_REFRACTIVE,
    }
}

/// The cosine fed to the Schlick approximation: the angle between
/// the incoming direction and the normal, scaled by the refractive
/// index when the ray leaves the medium. A direction too short to
/// measure yields 0.
pub open spec fn dielectric_cosine(ri: int, ray: Ray, normal: Vec3) -> int {
    let d0 = dot_v(ray.direction, normal);
    let l = len_v(ray.direction);
    if l == 0 {
        0
    } else if d0 > 0 {
        fx_div(fx_mul(ri, d0), l)
    } else {
        fx_div(fx_neg(d0), l)
    }
}

/// The direction a dielectric sends a ray into, once the uniform
/// draw `p` in `[0, 1)` is fixed: refraction through the outward
/// side when Snell's law admits one and the draw exceeds the Schlick
/// reflectance, the mirror reflection otherwise.
pub open spec fn dielectric_direction(ri: int, ray: Ray, normal: Vec3, p: int) -> Vec3 {
    let reflected = reflect_s(ray.direction, normal);
    let d0 = dot_v(ray.direction, normal);
    let outward = if d0 > 0 {
        neg_s(normal)
    } else {
        normal
    };
    let ratio = if d0 > 0 {
        ri
    } else {
        fx_div(SCALE as int, ri)
    };
    let base = match refract_s(ray.direction, outward, ratio) {
        Some(v) => v,
        None => reflected,
    };
    if p < schlick_s(dielectric_cosine(ri, ray, normal), ri) {
        reflected
    } else {
        base
    }
}

impl Material {
    /// Albedo channels lie in `[0, 1]`, a metal's fuzziness in
    /// `[0, 1]`, and a refractive index is above one.
    pub open spec fn wf(self) -> bool {
        match self {
            Material::Lambertian { attenuation } => unit_interval3(attenuation),
            Material::Metal { attenuation, fuzziness } => unit_interval3(attenuation) && 0
                <= fuzziness.sv() <= SCALE,
            Material::Dielectric { refractive_index } => refractive_index.sv() > SCALE,
        }
    }

    /// A matte material with uniformly drawn albedo channels.
    pub fn random_lambertian() -> (r: Material)
        ensures
            r.wf(),
            random_draw_ok(r),
            r matches Material::Lambertian { .. },
    {
        Material::Lambertian {
            attenuation: Vec3 {
                x: Fx::from_units(sample_units(0, SCALE)),
                y: Fx::from_units(sample_units(0, SCALE)),
                z: Fx::from_units(sample_units(0, SCALE)),
            },
        }
    }

    /// A metal with uniformly drawn albedo channels and fuzziness.
    pub fn random_metal() -> (r: Material)
        ensures
            r.wf(),
            random_draw_ok(r),
            r matches Material::Metal { .. },
    {
        Material::Metal {
            attenuation: Vec3 {
                x: Fx::from_units(sample_units(0, SCALE)),
                y: Fx::from_units(sample_units(0, SCALE)),
                z: Fx::from_units(sample_units(0, SCALE)),
            },
            fuzziness: Fx::from_units(sample_units(0, SCALE)),
        }
    }

    /// A glass with a refractive index drawn from `[1.3, 3.2)`.
    pub fn random_dielectric() -> (r: Material)
        ensures
            r.wf(),
            random_draw_ok(r),
            r matches Material::Dielectric { .. },
    {
        Material::Dielectric {
            refractive_index: Fx::from_units(
                sample_units(MIN_RANDOM_REFRACTIVE, MAX_RANDOM_REFRACTIVE),
            ),
        }
    }

    /// One of the three behaviors, drawn uniformly, each with the
    /// field ranges its own constructor draws.
    pub fn random_material() -> (r: Material)
        ensures
            r.wf(),
            random_draw_ok(r),
    {
        let k = sample_units(0, 3);
        if k == 0 {
            Material::random_metal()
        } else if k == 1 {
            Material::random_lambertian()
        } else {
            Material::random_dielectric()
        }
    }
}

/// A `Scatterable` scatters the light rays that hit it.
pub trait Scatterable {
    /// Well-formedness of the scattering parameters.
    spec fn swf(&self) -> bool;

    /// The relation every scattering outcome satisfies, over the
    /// random draws the behavior consumes.
    spec fn scatter_ok(&self, ray: Ray, hitpoint: HitPoint, r: Option<(Ray, Vec3)>) -> bool;

    /// Returns the new `Ray` (if any) and its attenuation which
    /// results from a given `Ray` hitting the object. The new ray
    /// usually describes a physical phenomenon: reflection,
    /// refraction or absorption.
    fn scatter(&self, ray: &Ray, hitpoint: &HitPoint) -> (r: Option<(Ray, Vec3)>)
        requires
            self.swf(),
        ensures
            self.scatter_ok(*ray, *hitpoint, r),
    ;
}

impl Scatterable for Material {
    open spec fn swf(&self) -> bool {
        self.wf()
    }

    /// * A `Lambertian` scatters along the normal, altered by a
    ///   random point of the unit ball, and always attenuates by its
    ///   albedo.
    /// * A `Metal` reflects the unit incoming direction about the
    ///   normal, perturbed by `fuzziness` times a random point of the
    ///   unit ball, and absorbs the ray unless the result leaves the
    ///   surface.
    /// * A `Dielectric` refracts or reflects, choosing reflection
    ///   with the Schlick probability, and attenuates nothing.
    open spec fn scatter_ok(&self, ray: Ray, hitpoint: HitPoint, r: Option<(Ray, Vec3)>) -> bool {
        match *self {
            Material::Lambertian { attenuation } => exists|u: Vec3|
                #[trigger] in_unit_ball(u) && r == Some(
                    (Ray { origin: hitpoint.p, direction: add_s(hitpoint.normal, u) }, attenuation),
                ),
            Material::Metal { attenuation, fuzziness } => exists|u: Vec3|
                #[trigger] in_unit_ball(u) && r == ({
                    let dir = add_s(
                        reflect_s(unit_s(ray.direction), hitpoint.normal),
                        scale_s(u, fuzziness.sv()),
                    );
                    if dot_v(dir, hitpoint.normal) > 0 {
                        Some((Ray { origin: hitpoint.p, direction: dir }, attenuation))
                    } else {
                        None
                    }
                }),
            Material::Dielectric { refractive_index } => exists|p: int|
                0 <= p < SCALE && r == Some(
                    (
                        Ray {
                            origin: hitpoint.p,
                            direction: #[trigger] dielectric_direction(
                                refractive_index.sv(),
                                ray,
                                hitpoint.normal,
                                p,
                            ),
                        },
                        v3(SCALE as int, SCALE as int, SCALE as int),
                    ),
                ),
        }
    }

    /// Different materials scatter in different ways; see
    /// `scatter_ok` for the exact relation each outcome satisfies.
    fn scatter(&self, ray: &Ray, hitpoint: &HitPoint) -> (r: Option<(Ray, Vec3)>) {
        match *self {
            Material::Lambertian { attenuation } => {
                let u = Sphere::random_point_in_unit_sphere();
                let direction = hitpoint.normal.vadd(u);
                let scattered_ray = Ray::new(hitpoint.p, direction);
                let r = Some((scattered_ray, attenuation));
                proof {
                    assert(in_unit_ball(u) && r == Some(
                        (
                            Ray { origin: hitpoint.p, direction: add_s(hitpoint.normal, u) },
                            attenuation,
                        ),
                    ));
                }
                r
            },
            Material::Metal { attenuation, fuzziness } => {
                let u = Sphere::random_point_in_unit_sphere();
                let reflection_direction = crate::util::reflection(
                    &ray.direction().unit(),
                    &hitpoint.normal,
                ).vadd(u.scale(fuzziness));
                let scattered_ray = Ray::new(hitpoint.p, reflection_direction);
                let d = scattered_ray.direction().dot(hitpoint.normal);
                let r = if d.units > 0 {
                    Some((scattered_ray, attenuation))
                } else {
                    None
                };
                proof {
                    assert(in_unit_ball(u) && r == ({
                        let dir = add_s(
                            reflect_s(unit_s(ray.direction), hitpoint.normal),
                            scale_s(u, fuzziness.sv()),
                        );
                        if dot_v(dir, hitpoint.normal) > 0 {
                            Some((Ray { origin: hitpoint.p, direction: dir }, attenuation))
                        } else {
                            None
                        }
                    }));
                }
                r
            },
            Material::Dielectric { refractive_index } => {
                let reflected_vector = crate::util::reflection(&ray.direction(), &hitpoint.normal);
                let attenuation = Vec3::new(Fx::one(), Fx::one(), Fx::one());
                let d0 = ray.direction().dot(hitpoint.normal);
                let l = ray.direction().length();
                let outward_normal: Vec3;
                let refractive_index_ratio: Fx;
                let cosine: Fx;
                if d0.units > 0 {
                    outward_normal = hitpoint.normal.vneg();
                    refractive_index_ratio = refractive_index;
                    cosine = if l.units == 0 {
                        Fx::zero()
                    } else {
                        refractive_index.fmul(d0).fdiv(l)
                    };
                } else {
                    outward_normal = hitpoint.normal;
                    refractive_index_ratio = Fx::one().fdiv(refractive_index);
                    cosine = if l.units == 0 {
                        Fx::zero()
                    } else {
                        d0.fneg().fdiv(l)
                    };
                }
                let refracted = crate::util::refraction(
                    &ray.direction(),
                    &outward_normal,
                    refractive_index_ratio,
                );
                let base = match refracted {
                    Some(v) => v,
                    None => reflected_vector,
                };
                let reflection_prob = crate::util::schlick(cosine, refractive_index);
                let pdraw = sample_units(0, SCALE);
                let final_vector = if pdraw < reflection_prob.units {
                    reflected_vector
                } else {
                    base
                };
                let r = Some((Ray::new(hitpoint.p, final_vector), attenuation));
                proof {
                    assert(final_vector == dielectric_direction(
                        refractive_index.sv(),
                        *ray,
                        hitpoint.normal,
                        pdraw as int,
                    ));
                    assert(0 <= pdraw < SCALE && r == Some(
                        (
                            Ray {
                                origin: hitpoint.p,
                                direction: dielectric_direction(
                                    refractive_index.sv(),
                                    *ray,
                                    hitpoint.normal,
                                    pdraw as int,
                                ),
                            },
                            v3(SCALE as int, SCALE as int, SCALE as int),
                        ),
                    ));
                }
                r
            },
        }
    }
}

/// Whatever the random draws were, a scattered ray starts at the hit
/// point, and a well-formed material never hands back an attenuation
/// with a channel above one: energy is not amplified.
pub proof fn lemma_scatter_attenuation(
    m: Material,
    ray: Ray,
    hitpoint: HitPoint,
    r: Option<(Ray, Vec3)>,
)
    requires
        m.wf(),
        m.scatter_ok(ray, hitpoint, r),
    ensures
        r matches Some((sr, att)) ==> unit_interval3(att) && sr.origin == hitpoint.p,
{
    match m {
        Material::Lambertian { attenuation } => {
            let u = choose|u: Vec3|
                #[trigger] in_unit_ball(u) && r == Some(
                    (Ray { origin: hitpoint.p, direction: add_s(hitpoint.normal, u) }, attenuation),
                );
        },
        Material::Metal { attenuation, fuzziness } => {
            let u = choose|u: Vec3|
                #[trigger] in_unit_ball(u) && r == ({
                    let dir = add_s(
                        reflect_s(unit_s(ray.direction), hitpoint.normal),
                        scale_s(u, fuzziness.sv()),
                    );
                    if dot_v(dir, hitpoint.normal) > 0 {
                        Some((Ray { origin: hitpoint.p, direction: dir }, attenuation))
                    } else {
                        None
                    }
                });
        },
        Material::Dielectric { refractive_index } => {
            let p = choose|p: int|
                0 <= p < SCALE && r == Some(
                    (
                        Ray {
                            origin: hitpoint.p,
                            direction: #[trigger] dielectric_direction(
                                refractive_index.sv(),
                                ray,
                                hitpoint.normal,
                                p,
                            ),
                        },
                        v3(SCALE as int, SCALE as int, SCALE as int),
                    ),
                );
        },
    }
}

} // verus!
