use vstd::prelude::*;
use crate::fixed::{
    fx_add, fx_div, fx_mul, fx_sub, lemma_fx_mul_zero, lemma_q_div_zero, Fx, SCALE,
};
use crate::ray::Ray;
use crate::sphere::Sphere;
use crate::vec3::{add_s, cross_s, in_unit_ball, scale_s, sub_s, unit_s, v3, Vec3};

verus! {

/// Pi in stored units.
pub const PI_UNITS: i64 = 205887;

/// Where the camera stands and where it looks.
#[derive(Clone, Copy, Debug)]
pub struct Orientation {
    pub look_from: Vec3,
    pub look_at: Vec3,
    pub upwards: Vec3,
}

/// The optics of the camera: aperture and focal length of the thin
/// lens, vertical field of view in degrees, and the width over
/// height of the sensor.
#[derive(Clone, Copy, Debug)]
pub struct Lens {
    pub aperture: Fx,
    pub focal_length: Fx,
    pub vertical_fov: Fx,
    pub aspect_ratio: Fx,
}

/// Sine by its Taylor polynomial `x - x^3/6 + x^5/120`, accurate to
/// well under a stored unit for the half-angles a camera meets.
pub open spec fn sin_t_s(x: int) -> int {
    let x2 = fx_mul(x, x);
    let x3 = fx_mul(x2, x);
    let x5 = fx_mul(x3, x2);
    fx_add(fx_sub(x, fx_div(x3, 6 * (SCALE as int))), fx_div(x5, 120 * (SCALE as int)))
}

/// Cosine by its Taylor polynomial `1 - x^2/2 + x^4/24 - x^6/720`.
pub open spec fn cos_t_s(x: int) -> int {
    let x2 = fx_mul(x, x);
    let x4 = fx_mul(x2, x2);
    let x6 = fx_mul(x4, x2);
    fx_sub(
        fx_add(fx_sub(SCALE as int, fx_div(x2, 2 * (SCALE as int))), fx_div(x4, 24 * (SCALE as int))),
        fx_div(x6, 720 * (SCALE as int)),
    )
}

/// Tangent of half the field of view, the field of view given in
/// degrees: `tan(fov * pi / 180 / 2)` as sine over cosine; a cosine
/// that underflows to zero yields 0 rather than a fault.
pub open spec fn tan_half_s(fov: int) -> int {
    let theta = fx_div(fx_mul(fov, PI_UNITS as int), 180 * (SCALE as int));
    let h = fx_div(theta, 2 * (SCALE as int));
    let c = cos_t_s(h);
    if c != 0 {
        fx_div(sin_t_s(h), c)
    } else {
        0
    }
}

/// A camera represented as a single 3D point and a rectangular
/// sensor. The sensor is identified by its lower left corner and two
/// directional vectors (one horizontal and one vertical).
#[derive(Clone, Copy, Debug)]
pub struct Camera {
    pub lens: Lens,
    pub origin: Vec3,
    pub lower_left_corner: Vec3,
    pub horizontal: Vec3,
    pub vertical: Vec3,
    pub u: Vec3,
    pub v: Vec3,
    pub w: Vec3,
}

/// The camera a given orientation and lens determine: the sensor
/// rectangle follows from the field of view and aspect ratio, and
/// the orthonormal basis from the viewing direction and the up hint.
pub open spec fn camera_s(orientation: Orientation, lens: Lens) -> Camera {
    let half_height = tan_half_s(lens.vertical_fov.sv());
    let half_width = fx_mul(lens.aspect_ratio.sv(), half_height);
    let w = unit_s(sub_s(orientation.look_from, orientation.look_at));
    let u = unit_s(cross_s(orientation.upwards, w));
    let v = cross_s(w, u);
    Camera {
        lens,
        origin: orientation.look_from,
        lower_left_corner: sub_s(
            sub_s(
                sub_s(
                    orientation.look_from,
                    scale_s(u, fx_mul(lens.focal_length.sv(), half_width)),
                ),
                scale_s(v, fx_mul(half_height, lens.focal_length.sv())),
            ),
            scale_s(w, lens.focal_length.sv()),
        ),
        horizontal: scale_s(u, fx_mul(fx_add(half_width, half_width), lens.focal_length.sv())),
        vertical: scale_s(v, fx_mul(fx_add(half_height, half_height), lens.focal_length.sv())),
        u: unit_s(u),
        v: unit_s(v),
        w: unit_s(w),
    }
}

/// Half the aperture.
pub open spec fn lens_radius_s(cam: Camera) -> int {
    fx_div(cam.lens.aperture.sv(), 2 * (SCALE as int))
}

/// The ray `get_ray` builds once the random lens-disk point `d` is
/// fixed: the origin shifts by the disk point scaled to the lens and
/// projected on the camera basis, and the direction runs from there
/// through the sensor point `(u, v)`.
pub open spec fn get_ray_s(cam: Camera, u: int, v: int, d: Vec3) -> Ray {
    let rd = scale_s(d, lens_radius_s(cam));
    let offset = add_s(scale_s(cam.u, rd.x.sv()), scale_s(cam.v, rd.y.sv()));
    Ray {
        origin: add_s(cam.origin, offset),
        direction: sub_s(
            sub_s(
                add_s(
                    add_s(cam.lower_left_corner, scale_s(cam.horizontal, u)),
                    scale_s(cam.vertical, v),
                ),
                cam.origin,
            ),
            offset,
        ),
    }
}

fn sin_t(x: Fx) -> (r: Fx)
    ensures
        r.sv() == sin_t_s(x.sv()),
{
    let x2 = x.fmul(x);
    let x3 = x2.fmul(x);
    let x5 = x3.fmul(x2);
    x.fsub(x3.fdiv(Fx { units: 6 * SCALE })).fadd(x5.fdiv(Fx { units: 120 * SCALE }))
}

fn cos_t(x: Fx) -> (r: Fx)
    ensures
        r.sv() == cos_t_s(x.sv()),
{
    let x2 = x.fmul(x);
    let x4 = x2.fmul(x2);
    let x6 = x4.fmul(x2);
    Fx::one().fsub(x2.fdiv(Fx { units: 2 * SCALE })).fadd(x4.fdiv(Fx { units: 24 * SCALE })).fsub(
        x6.fdiv(Fx { units: 720 * SCALE }),
    )
}

fn tan_half(fov: Fx) -> (r: Fx)
    ensures
        r.sv() == tan_half_s(fov.sv()),
{
    let theta = fov.fmul(Fx { units: PI_UNITS }).fdiv(Fx { units: 180 * SCALE });
    let h = theta.fdiv(Fx { units: 2 * SCALE });
    let c = cos_t(h);
    if c.units != 0 {
        sin_t(h).fdiv(c)
    } else {
        Fx::zero()
    }
}

impl Camera {
    /// Creates a new camera. The sensor is constructed based on the
    /// desired field of view and aspect ratio, and the viewing basis
    /// from the orientation.
    pub fn new(orientation: Orientation, lens: Lens) -> (r: Camera)
        ensures
            r == camera_s(orientation, lens),
    {
        let half_height = tan_half(lens.vertical_fov);
        let half_width = lens.aspect_ratio.fmul(half_height);

        let w = orientation.look_from.vsub(orientation.look_at).unit();
        let u = orientation.upwards.cross(w).unit();
        let v = w.cross(u);

        Camera {
            lens,
            origin: orientation.look_from,
            lower_left_corner: orientation.look_from.vsub(
                u.scale(lens.focal_length.fmul(half_width)),
            ).vsub(v.scale(half_height.fmul(lens.focal_length))).vsub(w.scale(lens.focal_length)),
            horizontal: u.scale(half_width.fadd(half_width).fmul(lens.focal_length)),
            vertical: v.scale(half_height.fadd(half_height).fmul(lens.focal_length)),
            u: u.unit(),
            v: v.unit(),
            w: w.unit(),
        }
    }

    /// Creates a ray which runs from the camera center towards (and
    /// through) the screen. The values `u` and `v` provide the
    /// direction:
    ///
    /// * `(0, 0)` gives a ray through the lower left corner of the
    ///   sensor;
    /// * `(1, 1)` gives a ray through the upper right corner;
    /// * anything in between gives an arbitrary ray.
    ///
    /// A camera with a nonzero aperture jitters the origin by a
    /// random point of the lens disk; with a zero aperture the ray
    /// is exactly the pinhole ray.
    pub fn get_ray(&self, u: Fx, v: Fx) -> (r: Ray)
        ensures
            exists|d: Vec3|
                #[trigger] in_unit_ball(d) && d.z.sv() == 0 && r == get_ray_s(
                    *self,
                    u.sv(),
                    v.sv(),
                    d,
                ),
            self.lens.aperture.sv() == 0 ==> r == get_ray_s(*self, u.sv(), v.sv(), v3(0, 0, 0)),
    {
        let rd_point = Sphere::random_point_in_unit_disk();
        let rd = rd_point.scale(self.lens_radius());

        let offset = self.u.scale(rd.x).vadd(self.v.scale(rd.y));
        let direction = self.lower_left_corner.vadd(self.horizontal.scale(u)).vadd(
            self.vertical.scale(v),
        ).vsub(self.origin).vsub(offset);
        let r = Ray::new(self.origin.vadd(offset), direction);
        proof {
            assert(in_unit_ball(rd_point) && rd_point.z.sv() == 0 && r == get_ray_s(
                *self,
                u.sv(),
                v.sv(),
                rd_point,
            ));
            if self.lens.aperture.sv() == 0 {
                lemma_q_div_zero(2 * (SCALE as int));
                assert(lens_radius_s(*self) == 0);
                lemma_fx_mul_zero(rd_point.x.sv());
                lemma_fx_mul_zero(rd_point.y.sv());
                lemma_fx_mul_zero(rd_point.z.sv());
                lemma_fx_mul_zero(0);
                assert(scale_s(rd_point, 0) == v3(0, 0, 0));
                assert(scale_s(v3(0, 0, 0), 0) == v3(0, 0, 0));
            }
        }
        r
    }

    /// Half the aperture.
    pub fn lens_radius(&self) -> (r: Fx)
        ensures
            r.sv() == lens_radius_s(*self),
    {
        self.lens.aperture.fdiv(Fx { units: 2 * SCALE })
    }
}

} // verus!
