use notary::opacity::{clamp_opacity, OPACITY_DEFAULT, OPACITY_MAX, OPACITY_MIN};

fn clamp(v: f64) -> f64 {
    f64::from_bits(clamp_opacity(v.to_bits()))
}

#[test]
fn constants_are_the_bit_patterns_of_the_bounds() {
    assert_eq!(OPACITY_MIN, 0.3f64.to_bits());
    assert_eq!(OPACITY_MAX, 1.0f64.to_bits());
    assert_eq!(OPACITY_DEFAULT, 0.95f64.to_bits());
}

#[test]
fn clamp_keeps_values_in_range() {
    for v in [0.3, 0.30000000000000004, 0.5, 0.95, 0.9999999999999999, 1.0] {
        assert_eq!(clamp(v), v);
    }
}

#[test]
fn clamp_raises_low_values_to_the_minimum() {
    for v in [0.0, -0.0, 0.29999999999999993, 0.1, -0.5, -1.0, -1e300, f64::MIN, f64::NEG_INFINITY, 5e-324, -5e-324] {
        assert_eq!(clamp(v), 0.3);
    }
}

#[test]
fn clamp_lowers_high_values_to_the_maximum() {
    for v in [1.0000000000000002, 1.5, 2.0, 1e300, f64::MAX, f64::INFINITY] {
        assert_eq!(clamp(v), 1.0);
    }
}

#[test]
fn clamp_turns_what_is_no_number_into_the_maximum() {
    let quiet = f64::NAN.to_bits();
    assert_eq!(clamp(f64::NAN), 1.0);
    assert_eq!(clamp_opacity(quiet | 0x8000_0000_0000_0000), OPACITY_MAX);
    assert_eq!(clamp_opacity(0x7FF0_0000_0000_0001), OPACITY_MAX);
    assert_eq!(clamp_opacity(0x7FFF_FFFF_FFFF_FFFF), OPACITY_MAX);
    assert_eq!(clamp_opacity(0xFFF0_0000_0000_0001), OPACITY_MAX);
    assert_eq!(clamp_opacity(0xFFFF_FFFF_FFFF_FFFF), OPACITY_MAX);
}

#[test]
fn clamp_always_gives_a_number_in_range() {
    let mut bits: u64 = 0x9E37_79B9_7F4A_7C15;
    for _ in 0..20000 {
        bits = bits.wrapping_mul(6364136223846793005).wrapping_add(1442695040888963407);
        let got = clamp(f64::from_bits(bits));
        assert!(!got.is_nan());
        assert!((0.3..=1.0).contains(&got));
    }
}

#[test]
fn clamp_agrees_with_the_floating_point_clamp() {
    let mut bits: u64 = 0x0123_4567_89AB_CDEF;
    for _ in 0..20000 {
        bits = bits.wrapping_mul(6364136223846793005).wrapping_add(1442695040888963407);
        let v = f64::from_bits(bits);
        let want = v.clamp(0.3, 1.0);
        let got = clamp(v);
        if v.is_nan() {
            assert_eq!(got, 1.0);
        } else {
            assert_eq!(got.to_bits(), want.to_bits());
        }
    }
    for k in 0..2000u64 {
        for base in [0.3f64.to_bits(), 1.0f64.to_bits(), 0, 0x8000_0000_0000_0000, 0x7FF0_0000_0000_0000, 0xFFF0_0000_0000_0000] {
            for bits in [base.wrapping_add(k), base.wrapping_sub(k)] {
                let v = f64::from_bits(bits);
                let got = clamp_opacity(bits);
                if v.is_nan() {
                    assert_eq!(got, OPACITY_MAX);
                } else {
                    assert_eq!(got, v.clamp(0.3, 1.0).to_bits());
                }
            }
        }
    }
}

#[test]
fn clamp_is_idempotent() {
    for v in [-3.0, 0.0, 0.3, 0.7, 1.0, 9.0, f64::NAN] {
        let once = clamp_opacity(v.to_bits());
        assert_eq!(clamp_opacity(once), once);
    }
}
