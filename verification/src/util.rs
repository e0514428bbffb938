use vstd::prelude::*;
use crate::fixed::{
    fx_add, fx_mul, fx_sqrt, fx_sub, lemma_div_lt, lemma_sq_div_bound, lemma_unit_mul_bounds,
    mag, Fx, MAX_UNITS, SCALE,
};
use crate::vec3::{dot_v, scale_s, sub_s, unit_s, Vec3};

verus! {

/// Length of a vector.
pub fn length(v: &Vec3) -> (r: Fx)
    ensures
        r.sv() == crate::vec3::len_v(*v),
{
    v.length()
}

/// The direction `v` reflects into at a surface of normal `normal`:
/// `v - 2 (v . normal) normal`.
pub open spec fn reflect_s(v: Vec3, normal: Vec3) -> Vec3 {
    sub_s(v, scale_s(normal, fx_add(dot_v(v, normal), dot_v(v, normal))))
}

/// Mirror reflection of `v` about `normal`.
pub fn reflection(v: &Vec3, normal: &Vec3) -> (r: Vec3)
    ensures
        r == reflect_s(*v, *normal),
{
    let d = v.dot(*normal);
    v.vsub(normal.scale(d.fadd(d)))
}

/// Exact inner product of the stored unit counts, without rescaling
/// or rounding: the mathematical model behind `dot_v`.
pub open spec fn dot_exact(a: Vec3, b: Vec3) -> int {
    a.x.sv() * b.x.sv() + a.y.sv() * b.y.sv() + a.z.sv() * b.z.sv()
}

/// The reflection law: against a normal of unit length, a reflected
/// direction meets the normal at the opposite of the incoming angle.
///
/// Stated over the exact mathematical model, where no rounding
/// intervenes: a normal `n` is unit when `dot_exact(n, n)` equals
/// `SCALE * SCALE`, and the exact reflection of `v`, carried at scale
/// `SCALE * SCALE`, is componentwise
/// `SCALE * SCALE * v_i - 2 * dot_exact(v, n) * n_i`. Its inner
/// product with `n` is then exactly `-(SCALE * SCALE) * dot_exact(v, n)`.
pub proof fn lemma_reflection_law(v: Vec3, n: Vec3)
    requires
        dot_exact(n, n) == (SCALE as int) * (SCALE as int),
    ensures
        ((SCALE as int) * (SCALE as int) * v.x.sv() - 2 * dot_exact(v, n) * n.x.sv()) * n.x.sv()
            + ((SCALE as int) * (SCALE as int) * v.y.sv() - 2 * dot_exact(v, n) * n.y.sv())
            * n.y.sv() + ((SCALE as int) * (SCALE as int) * v.z.sv() - 2 * dot_exact(v, n)
            * n.z.sv()) * n.z.sv() == -((SCALE as int) * (SCALE as int)) * dot_exact(v, n),
{
    lemma_reflection_ring(
        v.x.sv(),
        v.y.sv(),
        v.z.sv(),
        n.x.sv(),
        n.y.sv(),
        n.z.sv(),
        (SCALE as int) * (SCALE as int),
        dot_exact(v, n),
    );
}

/// The ring identity behind the reflection law, over plain integers.
proof fn lemma_reflection_ring(
    vx: int,
    vy: int,
    vz: int,
    nx: int,
    ny: int,
    nz: int,
    s2: int,
    d: int,
)
    requires
        d == vx * nx + vy * ny + vz * nz,
        nx * nx + ny * ny + nz * nz == s2,
    ensures
        (s2 * vx - 2 * d * nx) * nx + (s2 * vy - 2 * d * ny) * ny + (s2 * vz - 2 * d * nz) * nz
            == -s2 * d,
{
    assert((s2 * vx - 2 * d * nx) * nx == s2 * (vx * nx) - 2 * d * (nx * nx))
        by (nonlinear_arith);
    assert((s2 * vy - 2 * d * ny) * ny == s2 * (vy * ny) - 2 * d * (ny * ny))
        by (nonlinear_arith);
    assert((s2 * vz - 2 * d * nz) * nz == s2 * (vz * nz) - 2 * d * (nz * nz))
        by (nonlinear_arith);
    assert(s2 * (vx * nx) + s2 * (vy * ny) + s2 * (vz * nz) == s2 * d) by (nonlinear_arith)
        requires
            d == vx * nx + vy * ny + vz * nz,
    ;
    assert(2 * d * (nx * nx) + 2 * d * (ny * ny) + 2 * d * (nz * nz) == 2 * (d * s2))
        by (nonlinear_arith)
        requires
            nx * nx + ny * ny + nz * nz == s2,
    ;
    assert(s2 * d - 2 * (d * s2) == -s2 * d) by (nonlinear_arith);
}

/// Discriminant of Snell refraction: `1 - ratio^2 (1 - dt^2)` where
/// `dt` is the cosine between the unit incoming direction and the
/// normal. Refraction exists only when it is positive.
pub open spec fn refract_disc_s(v: Vec3, normal: Vec3, ratio: int) -> int {
    let dt = dot_v(unit_s(v), normal);
    fx_sub(SCALE as int, fx_mul(fx_mul(ratio, ratio), fx_sub(SCALE as int, fx_mul(dt, dt))))
}

/// The refracted direction, when the discriminant allows one:
/// `ratio (unit(v) - normal dt) - normal sqrt(disc)`.
pub open spec fn refract_s(v: Vec3, normal: Vec3, ratio: int) -> Option<Vec3> {
    let u = unit_s(v);
    let dt = dot_v(u, normal);
    let disc = refract_disc_s(v, normal, ratio);
    if disc > 0 {
        Some(
            sub_s(
                scale_s(sub_s(u, scale_s(normal, dt)), ratio),
                scale_s(normal, fx_sqrt(disc)),
            ),
        )
    } else {
        None
    }
}

/// Refraction of `v` through a surface of outward normal `normal`,
/// for the given ratio of refractive indices; `None` means total
/// internal reflection.
pub fn refraction(v: &Vec3, normal: &Vec3, refractive_index_ratio: Fx) -> (r: Option<Vec3>)
    ensures
        r == refract_s(*v, *normal, refractive_index_ratio.sv()),
        r.is_some() <==> refract_disc_s(*v, *normal, refractive_index_ratio.sv()) > 0,
{
    let u = v.unit();
    let dt = u.dot(*normal);
    let one = Fx::one();
    let disc = one.fsub(
        refractive_index_ratio.fmul(refractive_index_ratio).fmul(one.fsub(dt.fmul(dt))),
    );
    if disc.units > 0 {
        let refracted = u.vsub(normal.scale(dt)).scale(refractive_index_ratio).vsub(
            normal.scale(disc.fsqrt()),
        );
        Some(refracted)
    } else {
        None
    }
}

/// Schlick's closed-form Fresnel approximation:
/// `r0 + (1 - r0) (1 - cosine)^5` with `r0 = ((1 - n) / (1 + n))^2`,
/// the fifth power taken by repeated squaring as computed here.
pub open spec fn schlick_s(cosine: int, refractive_index: int) -> int {
    let q = crate::fixed::fx_div(
        fx_sub(SCALE as int, refractive_index),
        fx_add(SCALE as int, refractive_index),
    );
    let r0 = fx_mul(q, q);
    let om = fx_sub(SCALE as int, cosine);
    let om2 = fx_mul(om, om);
    let om5 = fx_mul(fx_mul(om2, om2), om);
    fx_add(r0, fx_mul(fx_sub(SCALE as int, r0), om5))
}

/// Schlick reflectance. For any cosine in `[0, 1]` the result lies in
/// `[0, 1]`: the probability of reflection is well formed.
pub fn schlick(cosine: Fx, refractive_index: Fx) -> (r: Fx)
    requires
        refractive_index.sv() > SCALE,
    ensures
        r.sv() == schlick_s(cosine.sv(), refractive_index.sv()),
        0 <= cosine.sv() <= SCALE ==> 0 <= r.sv() <= SCALE,
{
    let one = Fx::one();
    let q = one.fsub(refractive_index).fdiv(one.fadd(refractive_index));
    let r0 = q.fmul(q);
    let om = one.fsub(cosine);
    let om2 = om.fmul(om);
    let om5 = om2.fmul(om2).fmul(om);
    let tail = one.fsub(r0).fmul(om5);
    let out = r0.fadd(tail);
    proof {
        let nv = refractive_index.sv();
        let den = fx_add(SCALE as int, nv);
        assert(SCALE < den <= MAX_UNITS);
        assert(fx_sub(SCALE as int, nv) == -(nv - SCALE));
        assert((SCALE as int - nv) * (SCALE as int) == -((nv - SCALE) * (SCALE as int)))
            by (nonlinear_arith);
        lemma_div_lt(nv - SCALE, den);
        assert(mag(q.sv()) < SCALE);
        lemma_sq_div_bound(q.sv());
        assert(0 <= r0.sv() < SCALE);
        if 0 <= cosine.sv() <= SCALE {
            assert(0 <= om.sv() <= SCALE);
            lemma_unit_mul_bounds(om.sv(), om.sv());
            lemma_unit_mul_bounds(om2.sv(), om2.sv());
            lemma_unit_mul_bounds(fx_mul(om2.sv(), om2.sv()), om.sv());
            lemma_unit_mul_bounds(fx_sub(SCALE as int, r0.sv()), om5.sv());
            assert(0 <= tail.sv() <= SCALE - r0.sv());
            assert(0 <= out.sv() <= SCALE);
        }
    }
    out
}

} // verus!
