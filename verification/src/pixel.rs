use vstd::prelude::*;
use crate::fixed::{fx_mul, q_div, Fx, SCALE};
use crate::vec3::Vec3;

verus! {

/// An 8-bit-range RGB sample, held in wider words so that scaling
/// arithmetic cannot wrap.
#[derive(Clone, Copy, Debug, PartialEq, Eq, Structural)]
pub struct Pixel {
    pub r: u16,
    pub g: u16,
    pub b: u16,
}

/// The channel a color component quantizes to: the whole part,
/// saturated to the range of a 16-bit word.
pub open spec fn channel_from_s(v: int) -> int {
    let t = q_div(v, SCALE as int);
    if t < 0 {
        0
    } else if t > 65535 {
        65535
    } else {
        t
    }
}

/// A channel rescaled by a fixed-point factor, clamped into the
/// 8-bit range `[0, 255]`.
pub open spec fn channel_mul_s(c: int, k: int) -> int {
    let t = q_div(fx_mul(c * (SCALE as int), k), SCALE as int);
    if t < 0 {
        0
    } else if t > 255 {
        255
    } else {
        t
    }
}

fn quantize(v: Fx) -> (c: u16)
    ensures
        c as int == channel_from_s(v.sv()),
{
    let t = v.trunc();
    if t < 0 {
        0
    } else if t > 65535 {
        65535
    } else {
        t as u16
    }
}

impl Pixel {
    /// Reads a color vector as a pixel, truncating each component to
    /// its whole part and saturating it to the 16-bit range.
    pub fn from(v: &Vec3) -> (p: Pixel)
        ensures
            p.r as int == channel_from_s(v.x.sv()),
            p.g as int == channel_from_s(v.y.sv()),
            p.b as int == channel_from_s(v.z.sv()),
    {
        Pixel { r: quantize(v.x), g: quantize(v.y), b: quantize(v.z) }
    }

    /// Scales every channel by a fixed-point factor, clamping the
    /// results into the 8-bit range `[0, 255]`.
    pub fn mul(self, scalar: Fx) -> (p: Pixel)
        ensures
            p.r as int == channel_mul_s(self.r as int, scalar.sv()),
            p.g as int == channel_mul_s(self.g as int, scalar.sv()),
            p.b as int == channel_mul_s(self.b as int, scalar.sv()),
    {
        Pixel {
            r: Self::scale_channel(self.r, scalar),
            g: Self::scale_channel(self.g, scalar),
            b: Self::scale_channel(self.b, scalar),
        }
    }

    fn scale_channel(c: u16, scalar: Fx) -> (o: u16)
        ensures
            o as int == channel_mul_s(c as int, scalar.sv()),
    {
        let t = Fx::from_int(c as i64).fmul(scalar).trunc();
        if t < 0 {
            0
        } else if t > 255 {
            255
        } else {
            t as u16
        }
    }
}

} // verus!
