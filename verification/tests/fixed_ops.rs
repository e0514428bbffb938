use rtow::fixed::{Fx, MAX_UNITS, SCALE};

fn fx(units: i64) -> Fx {
    Fx { units }
}

#[test]
fn add_and_sub_are_exact() {
    assert_eq!(fx(98304).fadd(fx(32768)).units, 131072); // 1.5 + 0.5 == 2
    assert_eq!(fx(65536).fsub(fx(98304)).units, -32768); // 1 - 1.5 == -0.5
    assert_eq!(fx(0).fadd(fx(0)).units, 0);
}

#[test]
fn add_saturates_at_the_bounds() {
    assert_eq!(fx(MAX_UNITS).fadd(fx(1)).units, MAX_UNITS);
    assert_eq!(fx(-MAX_UNITS).fsub(fx(1)).units, -MAX_UNITS);
    assert_eq!(fx(i64::MIN).fneg().units, MAX_UNITS);
}

#[test]
fn mul_rescales_and_truncates_toward_zero() {
    assert_eq!(fx(98304).fmul(fx(131072)).units, 196608); // 1.5 * 2 == 3
    assert_eq!(fx(-98304).fmul(fx(131072)).units, -196608);
    // 1/3 of one: 65536 * 21845 / 65536 == 21845
    assert_eq!(fx(65536).fmul(fx(21845)).units, 21845);
    // truncation toward zero on a negative product
    assert_eq!(fx(-1).fmul(fx(1)).units, 0);
}

#[test]
fn div_rescales_and_truncates_toward_zero() {
    assert_eq!(fx(65536).fdiv(fx(196608)).units, 21845); // 1/3
    assert_eq!(fx(-65536).fdiv(fx(131072)).units, -32768); // -1/2
    assert_eq!(fx(65536).fdiv(fx(-131072)).units, -32768);
    assert_eq!(fx(-65536).fdiv(fx(-131072)).units, 32768);
}

#[test]
fn sqrt_is_the_floor_square_root() {
    assert_eq!(fx(147456).fsqrt().units, 98304); // sqrt(2.25) == 1.5
    assert_eq!(fx(65536).fsqrt().units, 65536); // sqrt(1) == 1
    assert_eq!(fx(0).fsqrt().units, 0);
    assert_eq!(fx(-65536).fsqrt().units, 0); // nonpositive input gives 0
    // sqrt(2) == 1.41421..., 92681 units
    assert_eq!(fx(131072).fsqrt().units, 92681);
}

#[test]
fn trunc_and_clamp01_behave() {
    assert_eq!(fx(98304).trunc(), 1);
    assert_eq!(fx(-98304).trunc(), -1); // toward zero
    assert_eq!(fx(-65537).clamp01().units, 0);
    assert_eq!(fx(SCALE + 1).clamp01().units, SCALE);
    assert_eq!(fx(12345).clamp01().units, 12345);
}

#[test]
fn from_int_scales_whole_numbers() {
    assert_eq!(Fx::from_int(3).units, 3 * SCALE);
    assert_eq!(Fx::from_int(-7).units, -7 * SCALE);
    assert_eq!(Fx::one().units, SCALE);
    assert_eq!(Fx::zero().units, 0);
}
