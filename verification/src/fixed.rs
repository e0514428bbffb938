use vstd::prelude::*;

verus! {

/// One whole, expressed in stored units: values are kept as signed
/// multiples of `1 / SCALE`, a 48.16 fixed-point format.
pub const SCALE: i64 = 65536;

/// Largest magnitude (in units) a value may carry; arithmetic
/// saturates at this bound instead of wrapping.
pub const MAX_UNITS: i64 = 0x7fff_ffff_ffff_ffff;

/// A real quantity in 48.16 fixed point, worth `units / SCALE`.
///
/// Every operation is total and saturating, so any `units` value is
/// valid and no operation panics or wraps.
#[derive(Clone, Copy, Debug, PartialEq, Eq, Structural)]
pub struct Fx {
    pub units: i64,
}

/// Magnitude of a mathematical integer.
pub open spec fn mag(a: int) -> int {
    if a < 0 {
        -a
    } else {
        a
    }
}

/// Saturation to the representable range of `Fx`.
pub open spec fn clip(v: int) -> int {
    if v > MAX_UNITS as int {
        MAX_UNITS as int
    } else if v < -(MAX_UNITS as int) {
        -(MAX_UNITS as int)
    } else {
        v
    }
}

/// Division truncating toward zero, as machine division does; defined
/// as 0 on a zero divisor so that it is total.
pub open spec fn q_div(a: int, b: int) -> int {
    if b == 0 {
        0
    } else if (a < 0) != (b < 0) {
        -(mag(a) / mag(b))
    } else {
        mag(a) / mag(b)
    }
}

/// The integer square root: the unique `r >= 0` with
/// `r * r <= x < (r + 1) * (r + 1)`.
pub open spec fn sqrt_i(x: int) -> int {
    choose|r: int| 0 <= r && #[trigger] (r * r) <= x && x < (r + 1) * (r + 1)
}

/// Stored value of a sum.
pub open spec fn fx_add(a: int, b: int) -> int {
    clip(a + b)
}

/// Stored value of a difference.
pub open spec fn fx_sub(a: int, b: int) -> int {
    clip(a - b)
}

/// Stored value of a negation.
pub open spec fn fx_neg(a: int) -> int {
    clip(-a)
}

/// Stored value of a product: the exact product of units is rescaled
/// by `SCALE` with truncation toward zero, then saturated.
pub open spec fn fx_mul(a: int, b: int) -> int {
    clip(q_div(a * b, SCALE as int))
}

/// Stored value of a quotient.
pub open spec fn fx_div(a: int, b: int) -> int {
    clip(q_div(a * (SCALE as int), b))
}

/// Clamp into `[0, 1]`.
pub open spec fn clamp01_s(v: int) -> int {
    if v < 0 {
        0
    } else if v > SCALE {
        SCALE as int
    } else {
        v
    }
}

/// Stored value of a square root; nonpositive inputs give 0.
pub open spec fn fx_sqrt(a: int) -> int {
    if a <= 0 {
        0
    } else {
        sqrt_i(a * (SCALE as int))
    }
}

/// An integer square root exists for every nonnegative integer.
pub proof fn lemma_sqrt_exists(x: int) -> (r: int)
    requires
        0 <= x,
    ensures
        0 <= r,
        r * r <= x,
        x < (r + 1) * (r + 1),
    decreases x,
{
    if x == 0 {
        0
    } else {
        let p = lemma_sqrt_exists(x - 1);
        if (p + 1) * (p + 1) <= x {
            assert(x < (p + 2) * (p + 2)) by (nonlinear_arith)
                requires
                    0 <= p,
                    x - 1 < (p + 1) * (p + 1),
                    (p + 1) * (p + 1) <= x,
            ;
            p + 1
        } else {
            p
        }
    }
}

/// `sqrt_i` satisfies its defining inequalities.
pub proof fn lemma_sqrt_i_facts(x: int)
    requires
        0 <= x,
    ensures
        0 <= sqrt_i(x),
        sqrt_i(x) * sqrt_i(x) <= x,
        x < (sqrt_i(x) + 1) * (sqrt_i(x) + 1),
{
    let w = lemma_sqrt_exists(x);
    assert(exists|r: int| 0 <= r && #[trigger] (r * r) <= x && x < (r + 1) * (r + 1)) by {
        assert(0 <= w && w * w <= x && x < (w + 1) * (w + 1));
    }
}

/// The defining inequalities pin the integer square root down.
pub proof fn lemma_sqrt_unique(x: int, r: int)
    requires
        0 <= r,
        r * r <= x,
        x < (r + 1) * (r + 1),
    ensures
        r == sqrt_i(x),
{
    assert(0 <= x) by (nonlinear_arith)
        requires
            0 <= r,
            r * r <= x,
    ;
    lemma_sqrt_i_facts(x);
    let s = sqrt_i(x);
    assert(r == s) by (nonlinear_arith)
        requires
            0 <= r,
            r * r <= x,
            x < (r + 1) * (r + 1),
            0 <= s,
            s * s <= x,
            x < (s + 1) * (s + 1),
    ;
}

/// A one-sided bound: if `x` lies under `(b + 1)^2`, its root lies
/// under `b + 1`.
pub proof fn lemma_sqrt_le(x: int, b: int)
    requires
        0 <= x,
        0 <= b,
        x < (b + 1) * (b + 1),
    ensures
        sqrt_i(x) <= b,
{
    lemma_sqrt_i_facts(x);
    let s = sqrt_i(x);
    assert(s <= b) by (nonlinear_arith)
        requires
            0 <= s,
            s * s <= x,
            0 <= b,
            x < (b + 1) * (b + 1),
    ;
}

/// Scaled products of factors in `[0, 1]` stay in `[0, 1]` and under
/// either factor: the fixed-point model never amplifies energy.
pub proof fn lemma_unit_mul_bounds(a: int, b: int)
    requires
        0 <= a <= SCALE,
        0 <= b <= SCALE,
    ensures
        0 <= fx_mul(a, b),
        fx_mul(a, b) <= a,
        fx_mul(a, b) <= b,
        fx_mul(a, b) <= SCALE,
{
    assert(0 <= q_div(a * b, SCALE as int) && q_div(a * b, SCALE as int) <= a && q_div(
        a * b,
        SCALE as int,
    ) <= b) by (nonlinear_arith)
        requires
            0 <= a <= SCALE,
            0 <= b <= SCALE,
    ;
}

/// Truncating division by a positive divisor shrinks the magnitude.
pub proof fn lemma_q_div_mag(a: int, b: int)
    requires
        1 <= b,
    ensures
        mag(q_div(a, b)) <= mag(a),
        a >= 0 ==> 0 <= q_div(a, b) <= a,
        a <= 0 ==> a <= q_div(a, b) <= 0,
{
    assert(mag(a) / b <= mag(a) && 0 <= mag(a) / b) by (nonlinear_arith)
        requires
            1 <= b,
            0 <= mag(a),
    ;
}

/// Truncating division keeps the sign of the exact quotient.
pub proof fn lemma_q_div_sign(a: int, b: int)
    ensures
        a >= 0 && b > 0 ==> q_div(a, b) >= 0,
        a <= 0 && b > 0 ==> q_div(a, b) <= 0,
        a >= 0 && b < 0 ==> q_div(a, b) <= 0,
        a <= 0 && b < 0 ==> q_div(a, b) >= 0,
{
    if b != 0 {
        assert(0 <= mag(a) / mag(b)) by (nonlinear_arith)
            requires
                0 <= mag(a),
                0 < mag(b),
        ;
    }
}

/// Quotients keep the sign of the exact quotient after rescaling.
pub proof fn lemma_fx_div_sign(a: int, b: int)
    requires
        b != 0,
    ensures
        b > 0 && a >= 0 ==> fx_div(a, b) >= 0,
        b > 0 && a <= 0 ==> fx_div(a, b) <= 0,
        b < 0 && a >= 0 ==> fx_div(a, b) <= 0,
        b < 0 && a <= 0 ==> fx_div(a, b) >= 0,
{
    lemma_q_div_sign(a * (SCALE as int), b);
}

/// A product of factors of opposite sign is nonpositive, and its
/// scaled truncation stays so.
pub proof fn lemma_mul_opp_sign(a: int, b: int)
    requires
        (a >= 0 && b <= 0) || (a <= 0 && b >= 0),
    ensures
        fx_mul(a, b) <= 0,
{
    assert(a * b <= 0) by (nonlinear_arith)
        requires
            (a >= 0 && b <= 0) || (a <= 0 && b >= 0),
    ;
    lemma_q_div_sign(a * b, SCALE as int);
}

/// Zero divided by anything is zero.
pub proof fn lemma_q_div_zero(b: int)
    ensures
        q_div(0, b) == 0,
{
    if b != 0 {
        assert(0int / mag(b) == 0) by (nonlinear_arith)
            requires
                0 < mag(b),
        ;
    }
}

/// A zero factor annihilates a scaled product.
pub proof fn lemma_fx_mul_zero(a: int)
    ensures
        fx_mul(a, 0) == 0,
        fx_mul(0, a) == 0,
{
    assert(a * 0 == 0) by (nonlinear_arith);
    assert(0 * a == 0) by (nonlinear_arith);
    lemma_q_div_zero(SCALE as int);
}

/// Square roots are nonnegative.
pub proof fn lemma_fx_sqrt_nonneg(a: int)
    ensures
        fx_sqrt(a) >= 0,
{
    if a > 0 {
        assert(0 <= a * (SCALE as int)) by (nonlinear_arith)
            requires
                0 < a,
        ;
        lemma_sqrt_i_facts(a * (SCALE as int));
    }
}

/// A product of factors of equal sign is nonnegative, and its scaled
/// truncation stays so.
pub proof fn lemma_mul_same_sign(a: int, b: int)
    requires
        (a >= 0 && b >= 0) || (a <= 0 && b <= 0),
    ensures
        fx_mul(a, b) >= 0,
{
    assert(a * b >= 0) by (nonlinear_arith)
        requires
            (a >= 0 && b >= 0) || (a <= 0 && b <= 0),
    ;
    lemma_q_div_sign(a * b, SCALE as int);
}

/// A proper fraction keeps its value under one after rescaling.
pub proof fn lemma_div_lt(num: int, den: int)
    requires
        0 <= num < den,
    ensures
        0 <= q_div(num * (SCALE as int), den) < SCALE,
{
    let x = num * (SCALE as int);
    assert(0 <= x && x < den * (SCALE as int)) by (nonlinear_arith)
        requires
            0 <= num < den,
            x == num * (SCALE as int),
    ;
    assert(q_div(x, den) == x / den);
    assert(0 <= x / den && x / den < SCALE) by (nonlinear_arith)
        requires
            0 < den,
            0 <= x,
            x < den * (SCALE as int),
    ;
}

/// The scaled square of a value of magnitude under one stays in `[0, 1)`.
pub proof fn lemma_sq_div_bound(q: int)
    requires
        mag(q) < SCALE,
    ensures
        0 <= fx_mul(q, q) < SCALE,
{
    assert(q * q == mag(q) * mag(q) && 0 <= q * q && q * q < (SCALE as int) * (SCALE as int))
        by (nonlinear_arith)
        requires
            mag(q) < SCALE,
    ;
    assert(q_div(q * q, SCALE as int) == (q * q) / (SCALE as int));
    assert(0 <= (q * q) / (SCALE as int) && (q * q) / (SCALE as int) < SCALE)
        by (nonlinear_arith)
        requires
            0 <= q * q,
            q * q < (SCALE as int) * (SCALE as int),
    ;
}

/// A factor in `[0, 1]` can only shrink a nonnegative value.
pub proof fn lemma_mul_le_factor(a: int, b: int)
    requires
        0 <= a <= SCALE,
        0 <= b,
    ensures
        0 <= fx_mul(a, b) <= b,
{
    assert(0 <= a * b && a * b <= (SCALE as int) * b) by (nonlinear_arith)
        requires
            0 <= a <= SCALE,
            0 <= b,
    ;
    assert(q_div(a * b, SCALE as int) == (a * b) / (SCALE as int));
    assert(0 <= (a * b) / (SCALE as int) && (a * b) / (SCALE as int) <= b) by (nonlinear_arith)
        requires
            0 <= a * b,
            a * b <= (SCALE as int) * b,
            0 <= b,
    ;
}

/// An average of values in `[0, 1]` stays in `[0, 1]`: dividing a
/// sum of `n` such values by the whole number `n` cannot exceed one.
pub proof fn lemma_avg_bound(acc: int, n: int)
    requires
        1 <= n,
        0 <= acc <= n * (SCALE as int),
    ensures
        0 <= fx_div(acc, n * (SCALE as int)) <= SCALE,
{
    let d = n * (SCALE as int);
    assert(0 < d && acc * (SCALE as int) <= d * (SCALE as int)) by (nonlinear_arith)
        requires
            1 <= n,
            0 <= acc <= d,
            d == n * (SCALE as int),
    ;
    assert(0 <= acc * (SCALE as int)) by (nonlinear_arith)
        requires
            0 <= acc,
    ;
    assert(q_div(acc * (SCALE as int), d) == (acc * (SCALE as int)) / d);
    assert(0 <= (acc * (SCALE as int)) / d && (acc * (SCALE as int)) / d <= SCALE)
        by (nonlinear_arith)
        requires
            0 < d,
            0 <= acc * (SCALE as int),
            acc * (SCALE as int) <= d * (SCALE as int),
    ;
}

/// The square root of a value in `[0, 1]` stays in `[0, 1]`.
pub proof fn lemma_sqrt_unit_bound(a: int)
    requires
        a <= SCALE,
    ensures
        0 <= fx_sqrt(a) <= SCALE,
{
    if a > 0 {
        assert(0 <= a * (SCALE as int) && a * (SCALE as int) < (SCALE as int + 1) * (
        SCALE as int + 1)) by (nonlinear_arith)
            requires
                0 < a <= SCALE,
        ;
        lemma_sqrt_i_facts(a * (SCALE as int));
        lemma_sqrt_le(a * (SCALE as int), SCALE as int);
    }
}

/// Truncating division by a positive divisor is monotone on
/// nonnegative values.
pub proof fn lemma_div_ordered(a: int, b: int, c: int)
    requires
        0 <= a <= b,
        0 < c,
    ensures
        0 <= q_div(a, c) <= q_div(b, c),
{
    assert(0 <= a / c && a / c <= b / c) by (nonlinear_arith)
        requires
            0 <= a <= b,
            0 < c,
    ;
}

fn clip_i128(v: i128) -> (r: i64)
    ensures
        r as int == clip(v as int),
{
    if v > MAX_UNITS as i128 {
        MAX_UNITS
    } else if v < -(MAX_UNITS as i128) {
        -MAX_UNITS
    } else {
        v as i64
    }
}

fn tdiv(n: i128, d: i128) -> (r: i128)
    requires
        0 < d,
        mag(n as int) <= 0x40000000000000000000000000000000,
    ensures
        r as int == q_div(n as int, d as int),
        mag(r as int) <= mag(n as int),
{
    proof {
        lemma_q_div_mag(n as int, d as int);
    }
    if n >= 0 {
        let q: u128 = (n as u128) / (d as u128);
        q as i128
    } else {
        let m: u128 = (-n) as u128;
        let q: u128 = m / (d as u128);
        -(q as i128)
    }
}

fn isqrt(x: u128) -> (r: u128)
    requires
        x < 0x10000000000000000000000000,
    ensures
        r * r <= x,
        x < (r + 1) * (r + 1),
        r < 0x4000000000000,
{
    let mut lo: u128 = 0;
    let mut hi: u128 = 0x4000000000000;
    proof {
        assert(0x4000000000000 * 0x4000000000000 == 0x10000000000000000000000000int)
            by (nonlinear_arith);
    }
    while lo + 1 < hi
        invariant
            lo < hi,
            hi <= 0x4000000000000,
            lo * lo <= x,
            x < hi * hi,
        decreases hi - lo,
    {
        let mid = lo + (hi - lo) / 2;
        proof {
            assert(mid * mid < 0x10000000000000000000000000) by (nonlinear_arith)
                requires
                    mid < 0x4000000000000,
            ;
        }
        if mid * mid <= x {
            lo = mid;
        } else {
            hi = mid;
        }
    }
    lo
}

impl Fx {
    /// The stored value, as a mathematical integer count of units.
    pub open spec fn sv(self) -> int {
        self.units as int
    }

    /// Wraps a raw unit count.
    pub fn from_units(units: i64) -> (r: Fx)
        ensures
            r.sv() == units as int,
    {
        Fx { units }
    }

    /// A whole number, saturated to the representable range.
    pub fn from_int(i: i64) -> (r: Fx)
        ensures
            r.sv() == clip(i * (SCALE as int)),
    {
        proof {
            assert(mag((i as int) * (SCALE as int)) <= 0x80000000000000000000int)
                by (nonlinear_arith)
                requires
                    -0x8000000000000000 <= i < 0x8000000000000000,
            ;
        }
        let wide: i128 = (i as i128) * (SCALE as i128);
        Fx { units: clip_i128(wide) }
    }

    /// Zero.
    pub fn zero() -> (r: Fx)
        ensures
            r.sv() == 0,
    {
        Fx { units: 0 }
    }

    /// One.
    pub fn one() -> (r: Fx)
        ensures
            r.sv() == SCALE as int,
    {
        Fx { units: SCALE }
    }

    /// Saturating sum.
    pub fn fadd(self, rhs: Fx) -> (r: Fx)
        ensures
            r.sv() == fx_add(self.sv(), rhs.sv()),
    {
        let s: i128 = self.units as i128 + rhs.units as i128;
        Fx { units: clip_i128(s) }
    }

    /// Saturating difference.
    pub fn fsub(self, rhs: Fx) -> (r: Fx)
        ensures
            r.sv() == fx_sub(self.sv(), rhs.sv()),
    {
        let s: i128 = self.units as i128 - rhs.units as i128;
        Fx { units: clip_i128(s) }
    }

    /// Saturating negation.
    pub fn fneg(self) -> (r: Fx)
        ensures
            r.sv() == fx_neg(self.sv()),
    {
        let s: i128 = -(self.units as i128);
        Fx { units: clip_i128(s) }
    }

    /// Saturating product, truncated toward zero.
    pub fn fmul(self, rhs: Fx) -> (r: Fx)
        ensures
            r.sv() == fx_mul(self.sv(), rhs.sv()),
    {
        let a: i128 = self.units as i128;
        let b: i128 = rhs.units as i128;
        proof {
            assert(mag(a * b) <= 0x40000000000000000000000000000000) by (nonlinear_arith)
                requires
                    -0x8000000000000000 <= a <= 0x8000000000000000,
                    -0x8000000000000000 <= b <= 0x8000000000000000,
            ;
        }
        let p: i128 = a * b;
        let q = tdiv(p, SCALE as i128);
        Fx { units: clip_i128(q) }
    }

    /// Saturating quotient, truncated toward zero.
    pub fn fdiv(self, rhs: Fx) -> (r: Fx)
        requires
            rhs.sv() != 0,
        ensures
            r.sv() == fx_div(self.sv(), rhs.sv()),
    {
        proof {
            assert(mag((self.units as int) * (SCALE as int)) <= 0x80000000000000000000int)
                by (nonlinear_arith)
                requires
                    -0x8000000000000000 <= self.units < 0x8000000000000000,
            ;
        }
        let n: i128 = (self.units as i128) * (SCALE as i128);
        let d: i128 = rhs.units as i128;
        if d > 0 {
            let q = tdiv(n, d);
            Fx { units: clip_i128(q) }
        } else {
            let q = tdiv(-n, -d);
            proof {
                assert(q_div((-n) as int, (-d) as int) == q_div(n as int, d as int));
            }
            Fx { units: clip_i128(q) }
        }
    }

    /// Square root of the held value; nonpositive inputs give 0.
    pub fn fsqrt(self) -> (r: Fx)
        ensures
            r.sv() == fx_sqrt(self.sv()),
    {
        if self.units <= 0 {
            Fx { units: 0 }
        } else {
            let x: u128 = (self.units as u128) * (SCALE as u128);
            let s = isqrt(x);
            proof {
                lemma_sqrt_unique(x as int, s as int);
            }
            Fx { units: s as i64 }
        }
    }

    /// Whole part, truncated toward zero.
    pub fn trunc(self) -> (r: i64)
        ensures
            r as int == q_div(self.sv(), SCALE as int),
    {
        let q = tdiv(self.units as i128, SCALE as i128);
        q as i64
    }

    /// Clamp into `[0, 1]`.
    pub fn clamp01(self) -> (r: Fx)
        ensures
            r.sv() == clamp01_s(self.sv()),
    {
        if self.units < 0 {
            Fx { units: 0 }
        } else if self.units > SCALE {
            Fx { units: SCALE }
        } else {
            self
        }
    }

    /// Strictly less.
    pub fn lt(self, rhs: Fx) -> (r: bool)
        ensures
            r == (self.sv() < rhs.sv()),
    {
        self.units < rhs.units
    }

    /// Less or equal.
    pub fn le(self, rhs: Fx) -> (r: bool)
        ensures
            r == (self.sv() <= rhs.sv()),
    {
        self.units <= rhs.units
    }
}

} // verus!
