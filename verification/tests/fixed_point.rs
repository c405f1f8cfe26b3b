use modsynth::fixed::{clamp_to_i16, scale_q15, SQ16_0, SQ1_15, SQ1_7, SQ32_0, SQ8_0, SQ8_8};

#[test]
fn sq1_7_widening_mul_is_exact() {
    // 0.5 * 0.5 = 0.25: raw 64 * 64 doubles to 8192 = 0.25 in Q1.15
    assert_eq!(SQ1_7(64).widening_mul(SQ1_7(64)).0, 8192);
    // -1.0 * 0.5 = -0.5
    assert_eq!(SQ1_7(-128).widening_mul(SQ1_7(64)).0, -16384);
    assert_eq!(SQ1_7(0).widening_mul(SQ1_7(127)).0, 0);
}

#[test]
fn sq1_7_widening_mul_corner_wraps() {
    // (-1.0) * (-1.0) is the one unrepresentable product: it wraps to -1.0
    assert_eq!(SQ1_7(-128).widening_mul(SQ1_7(-128)).0, -32768);
}

#[test]
fn sq1_15_widening_mul_is_exact() {
    assert_eq!(SQ1_15(16384).widening_mul(SQ1_15(16384)).0, 536870912);
    assert_eq!(SQ1_15(-32768).widening_mul(SQ1_15(-32768)).0, i32::MIN);
}

#[test]
fn sq8_0_products() {
    assert_eq!(SQ8_0(12).widening_mul(SQ8_0(-11)).0, -132);
    assert_eq!(SQ8_0(-128).widening_mul(SQ8_0(-128)).0, 16384);
    assert_eq!(SQ8_0(3).widening_mul_sq1_7(SQ1_7(64)).0, 384);
}

#[test]
fn sq16_0_scale_is_the_exact_product() {
    // scaling by 0.5 (raw 64) halves exactly
    assert_eq!(SQ16_0(256).scale_sq1_7(SQ1_7(64)).0, 128);
    assert_eq!(SQ16_0(1000).scale_sq1_7(SQ1_7(64)).0, 500);
    assert_eq!(SQ16_0(-1000).scale_sq1_7(SQ1_7(64)).0, -500);
    // truncation is toward zero: 101 * -0.5 = -50.5
    assert_eq!(SQ16_0(101).scale_sq1_7(SQ1_7(-64)).0, -50);
    // the largest in-range product
    assert_eq!(SQ16_0(32767).scale_sq1_7(SQ1_7(127)).0, 32511);
}

#[test]
fn sq16_0_scale_corner_wraps() {
    // (-2^15) * (-1.0) = 2^15 is the one unrepresentable product
    assert_eq!(SQ16_0(-32768).scale_sq1_7(SQ1_7(-128)).0, -32768);
}

#[test]
fn sq8_8_conversions() {
    assert_eq!(SQ8_8(0x0180).to_sq8_0().0, 1);
    // arithmetic shift floors negative values
    assert_eq!(SQ8_8(-1).to_sq8_0().0, -1);
    assert_eq!(SQ8_8(-256).to_sq8_0().0, -1);
    assert_eq!(SQ8_8(-257).to_sq8_0().0, -2);
    // low byte sign-extended, integer part discarded
    assert_eq!(SQ8_8(0x0112).to_sq1_7().0, 0x12);
    assert_eq!(SQ8_8(0x01f0).to_sq1_7().0, -16);
}

#[test]
fn reciprocal_exact_values() {
    assert_eq!(SQ32_0::inv_u16(1).0, 0x7fff_ffff);
    assert_eq!(SQ32_0::inv_u16(2).0, 0x4000_0000);
    assert_eq!(SQ32_0::inv_u16(3).0, 715827882);
    assert_eq!(SQ32_0::inv_u16(1000).0, 2147483);
}

#[test]
fn reciprocal_close_to_true_reciprocal() {
    // restoring division against the floating-point reference
    for n in [1u16, 2, 3, 7, 100, 441, 1000, 44100, 65535] {
        let r = SQ32_0::inv_u16(n).0 as f64 / 2f64.powi(31);
        let truth = 1.0 / (n as f64);
        let rel = (truth - r).abs() / truth;
        assert!(rel <= (n as f64) / 2f64.powi(31), "n={} rel={}", n, rel);
    }
}

#[test]
fn division_applies_sign() {
    assert_eq!(SQ32_0::div(SQ32_0(-1), SQ32_0(4)).0, -0x2000_0000);
    assert_eq!(SQ32_0::div(SQ32_0(1), SQ32_0(-4)).0, -0x2000_0000);
    assert_eq!(SQ32_0::div(SQ32_0(-1), SQ32_0(-4)).0, 0x2000_0000);
    assert_eq!(SQ32_0::div(SQ32_0(-3), SQ32_0(-3)).0, 0x7fff_ffff);
}

#[test]
fn q15_scaling_and_clamping() {
    assert_eq!(scale_q15(16384, 16384), 8192);
    assert_eq!(scale_q15(-32768, -32768), -32768);
    assert_eq!(scale_q15(32767, 32767), 32766);
    assert_eq!(clamp_to_i16(40000), 32767);
    assert_eq!(clamp_to_i16(-40000), -32768);
    assert_eq!(clamp_to_i16(123), 123);
}

#[test]
fn sq32_0_product() {
    assert_eq!(SQ32_0(1234).product(SQ32_0(-5)).0, -6170);
}
