use ray_tracing::scalar::Scalar;

fn s(x: f32) -> Scalar {
    Scalar::from_bits(x.to_bits())
}

fn samples() -> Vec<f32> {
    vec![
        0.0,
        -0.0,
        1.0,
        -1.0,
        0.5,
        1e-8,
        -1e-8,
        0.001,
        0.999,
        3.5,
        -3.5,
        f32::MIN_POSITIVE,
        -f32::MIN_POSITIVE,
        f32::from_bits(1),
        f32::from_bits(0x8000_0001),
        f32::MAX,
        f32::MIN,
        f32::INFINITY,
        f32::NEG_INFINITY,
        f32::NAN,
        -f32::NAN,
        f32::from_bits(0x7f80_0001),
        f32::from_bits(0xffff_ffff),
    ]
}

#[test]
fn comparisons_agree_with_the_hardware() {
    for &a in &samples() {
        for &b in &samples() {
            assert_eq!(s(a).lt(s(b)), a < b, "{} < {}", a, b);
            assert_eq!(s(a).le(s(b)), a <= b, "{} <= {}", a, b);
            assert_eq!(s(a).gt(s(b)), a > b, "{} > {}", a, b);
            assert_eq!(s(a).ge(s(b)), a >= b, "{} >= {}", a, b);
        }
    }
}

#[test]
fn total_order_agrees_with_total_cmp() {
    for &a in &samples() {
        for &b in &samples() {
            let expected = a.total_cmp(&b) != std::cmp::Ordering::Greater;
            assert_eq!(s(a).total_le(s(b)), expected, "{:?} {:?}", a.to_bits(), b.to_bits());
        }
    }
}

#[test]
fn sign_changes_agree_with_the_hardware() {
    for &a in &samples() {
        assert_eq!(s(a).abs().to_bits(), a.abs().to_bits());
        assert_eq!(s(a).neg().to_bits(), (-a).to_bits());
        assert_eq!(s(a).is_nan(), a.is_nan());
    }
}

#[test]
fn min_and_max_pick_an_operand_the_hardware_allows() {
    for &a in &samples() {
        for &b in &samples() {
            let lo = f32::from_bits(s(a).min(s(b)).to_bits());
            let hi = f32::from_bits(s(a).max(s(b)).to_bits());
            let want_lo = a.min(b);
            let want_hi = a.max(b);
            assert!(lo == want_lo || (lo.is_nan() && want_lo.is_nan()), "min {} {}", a, b);
            assert!(hi == want_hi || (hi.is_nan() && want_hi.is_nan()), "max {} {}", a, b);
        }
    }
}

#[test]
fn named_constants() {
    assert_eq!(f32::from_bits(Scalar::zero().to_bits()), 0.0);
    assert_eq!(f32::from_bits(Scalar::one().to_bits()), 1.0);
    assert_eq!(f32::from_bits(Scalar::infinity().to_bits()), f32::INFINITY);
    assert_eq!(f32::from_bits(Scalar::neg_infinity().to_bits()), f32::NEG_INFINITY);
    assert_eq!(f32::from_bits(Scalar::largest().to_bits()), f32::MAX);
}
