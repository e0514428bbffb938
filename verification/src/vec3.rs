use vstd::prelude::*;
use crate::fixed::{fx_add, fx_div, fx_mul, fx_neg, fx_sqrt, fx_sub, Fx, SCALE};

verus! {

/// A 3-component quantity: a position, a direction or displacement,
/// or an RGB intensity, held in fixed point.
#[derive(Clone, Copy, Debug, PartialEq, Eq, Structural)]
pub struct Vec3 {
    pub x: Fx,
    pub y: Fx,
    pub z: Fx,
}

/// A fixed-point value from an in-range unit count.
pub open spec fn fxu(v: int) -> Fx {
    Fx { units: v as i64 }
}

/// A vector from in-range unit counts.
pub open spec fn v3(x: int, y: int, z: int) -> Vec3 {
    Vec3 { x: fxu(x), y: fxu(y), z: fxu(z) }
}

/// Componentwise sum.
pub open spec fn add_s(a: Vec3, b: Vec3) -> Vec3 {
    v3(
        fx_add(a.x.sv(), b.x.sv()),
        fx_add(a.y.sv(), b.y.sv()),
        fx_add(a.z.sv(), b.z.sv()),
    )
}

/// Componentwise difference.
pub open spec fn sub_s(a: Vec3, b: Vec3) -> Vec3 {
    v3(
        fx_sub(a.x.sv(), b.x.sv()),
        fx_sub(a.y.sv(), b.y.sv()),
        fx_sub(a.z.sv(), b.z.sv()),
    )
}

/// Componentwise negation.
pub open spec fn neg_s(a: Vec3) -> Vec3 {
    v3(fx_neg(a.x.sv()), fx_neg(a.y.sv()), fx_neg(a.z.sv()))
}

/// Scaling by a fixed-point factor.
pub open spec fn scale_s(a: Vec3, k: int) -> Vec3 {
    v3(fx_mul(a.x.sv(), k), fx_mul(a.y.sv(), k), fx_mul(a.z.sv(), k))
}

/// Componentwise product, as used for color attenuation.
pub open spec fn elem_mul_s(a: Vec3, b: Vec3) -> Vec3 {
    v3(
        fx_mul(a.x.sv(), b.x.sv()),
        fx_mul(a.y.sv(), b.y.sv()),
        fx_mul(a.z.sv(), b.z.sv()),
    )
}

/// Inner product.
pub open spec fn dot_v(a: Vec3, b: Vec3) -> int {
    fx_add(
        fx_add(fx_mul(a.x.sv(), b.x.sv()), fx_mul(a.y.sv(), b.y.sv())),
        fx_mul(a.z.sv(), b.z.sv()),
    )
}

/// Cross product.
pub open spec fn cross_s(a: Vec3, b: Vec3) -> Vec3 {
    v3(
        fx_sub(fx_mul(a.y.sv(), b.z.sv()), fx_mul(a.z.sv(), b.y.sv())),
        fx_sub(fx_mul(a.z.sv(), b.x.sv()), fx_mul(a.x.sv(), b.z.sv())),
        fx_sub(fx_mul(a.x.sv(), b.y.sv()), fx_mul(a.y.sv(), b.x.sv())),
    )
}

/// Whether a vector lies strictly inside the unit ball: its squared
/// length, as the fixed-point model computes it, is under one.
pub open spec fn in_unit_ball(v: Vec3) -> bool {
    dot_v(v, v) < SCALE
}

/// Euclidean length.
pub open spec fn len_v(a: Vec3) -> int {
    fx_sqrt(dot_v(a, a))
}

/// The zero vector is orthogonal to everything, itself included.
pub proof fn lemma_zero_dot(d: Vec3)
    ensures
        dot_v(v3(0, 0, 0), d) == 0,
        dot_v(d, v3(0, 0, 0)) == 0,
{
    assert(SCALE == 65536);
    assert(0int / 65536 == 0) by (nonlinear_arith);
    assert(0int * d.x.sv() == 0) by (nonlinear_arith);
    assert(0int * d.y.sv() == 0) by (nonlinear_arith);
    assert(0int * d.z.sv() == 0) by (nonlinear_arith);
    assert(d.x.sv() * 0int == 0) by (nonlinear_arith);
    assert(d.y.sv() * 0int == 0) by (nonlinear_arith);
    assert(d.z.sv() * 0int == 0) by (nonlinear_arith);
    assert(crate::fixed::q_div(0, 65536) == 0);
    assert(fx_mul(0, d.x.sv()) == 0);
    assert(fx_mul(0, d.y.sv()) == 0);
    assert(fx_mul(0, d.z.sv()) == 0);
    assert(fx_mul(d.x.sv(), 0) == 0);
    assert(fx_mul(d.y.sv(), 0) == 0);
    assert(fx_mul(d.z.sv(), 0) == 0);
}

/// Direction of `a` with length one; the zero vector when `a` is too
/// short to carry a direction.
pub open spec fn unit_s(a: Vec3) -> Vec3 {
    if len_v(a) == 0 {
        v3(0, 0, 0)
    } else {
        v3(
            fx_div(a.x.sv(), len_v(a)),
            fx_div(a.y.sv(), len_v(a)),
            fx_div(a.z.sv(), len_v(a)),
        )
    }
}

impl Vec3 {
    /// Builds a vector from its components.
    pub fn new(x: Fx, y: Fx, z: Fx) -> (r: Vec3)
        ensures
            r == (Vec3 { x, y, z }),
    {
        Vec3 { x, y, z }
    }

    /// The zero vector.
    pub fn zero() -> (r: Vec3)
        ensures
            r == v3(0, 0, 0),
    {
        Vec3 { x: Fx { units: 0 }, y: Fx { units: 0 }, z: Fx { units: 0 } }
    }

    /// Componentwise sum.
    pub fn vadd(self, rhs: Vec3) -> (r: Vec3)
        ensures
            r == add_s(self, rhs),
    {
        Vec3 { x: self.x.fadd(rhs.x), y: self.y.fadd(rhs.y), z: self.z.fadd(rhs.z) }
    }

    /// Componentwise difference.
    pub fn vsub(self, rhs: Vec3) -> (r: Vec3)
        ensures
            r == sub_s(self, rhs),
    {
        Vec3 { x: self.x.fsub(rhs.x), y: self.y.fsub(rhs.y), z: self.z.fsub(rhs.z) }
    }

    /// Componentwise negation.
    pub fn vneg(self) -> (r: Vec3)
        ensures
            r == neg_s(self),
    {
        Vec3 { x: self.x.fneg(), y: self.y.fneg(), z: self.z.fneg() }
    }

    /// Scaling by a fixed-point factor.
    pub fn scale(self, k: Fx) -> (r: Vec3)
        ensures
            r == scale_s(self, k.sv()),
    {
        Vec3 { x: self.x.fmul(k), y: self.y.fmul(k), z: self.z.fmul(k) }
    }

    /// Componentwise product.
    pub fn mul_elem(self, rhs: Vec3) -> (r: Vec3)
        ensures
            r == elem_mul_s(self, rhs),
    {
        Vec3 { x: self.x.fmul(rhs.x), y: self.y.fmul(rhs.y), z: self.z.fmul(rhs.z) }
    }

    /// Inner product.
    pub fn dot(self, rhs: Vec3) -> (r: Fx)
        ensures
            r.sv() == dot_v(self, rhs),
    {
        self.x.fmul(rhs.x).fadd(self.y.fmul(rhs.y)).fadd(self.z.fmul(rhs.z))
    }

    /// Cross product.
    pub fn cross(self, rhs: Vec3) -> (r: Vec3)
        ensures
            r == cross_s(self, rhs),
    {
        Vec3 {
            x: self.y.fmul(rhs.z).fsub(self.z.fmul(rhs.y)),
            y: self.z.fmul(rhs.x).fsub(self.x.fmul(rhs.z)),
            z: self.x.fmul(rhs.y).fsub(self.y.fmul(rhs.x)),
        }
    }

    /// Euclidean length.
    pub fn length(self) -> (r: Fx)
        ensures
            r.sv() == len_v(self),
    {
        self.dot(self).fsqrt()
    }

    /// Direction of `self` with length one; the zero vector when
    /// `self` is too short to carry a direction.
    pub fn unit(self) -> (r: Vec3)
        ensures
            r == unit_s(self),
    {
        let l = self.length();
        if l.units == 0 {
            Vec3 { x: Fx { units: 0 }, y: Fx { units: 0 }, z: Fx { units: 0 } }
        } else {
            Vec3 { x: self.x.fdiv(l), y: self.y.fdiv(l), z: self.z.fdiv(l) }
        }
    }
}

} // verus!
