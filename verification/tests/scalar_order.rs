use cycles::scalar::{clamp_unit, lt_bits, BITS_ONE, BITS_ZERO};
use rand::Rng;

#[test]
fn bit_constants_match_the_scalar_values() {
    assert_eq!(BITS_ZERO, (0.0f64).to_bits());
    assert_eq!(BITS_ONE, (1.0f64).to_bits());
}

#[test]
fn lt_bits_agrees_with_the_scalar_order_on_chosen_values() {
    let values: Vec<f64> = vec![
        0.0,
        -0.0,
        1.0,
        -1.0,
        0.5,
        -0.5,
        2.0,
        1e300,
        -1e300,
        5e-324,
        -5e-324,
        f64::INFINITY,
        f64::NEG_INFINITY,
        f64::NAN,
        f64::MAX,
        f64::MIN,
        std::f64::consts::PI,
    ];
    for &a in &values {
        for &b in &values {
            assert_eq!(
                lt_bits(a.to_bits(), b.to_bits()),
                a < b,
                "order disagrees on {a} < {b}"
            );
        }
    }
}

#[test]
fn lt_bits_agrees_with_the_scalar_order_on_random_patterns() {
    let mut rng = rand::thread_rng();
    for _ in 0..100_000 {
        let a: u64 = rng.gen();
        let b: u64 = rng.gen();
        assert_eq!(
            lt_bits(a, b),
            f64::from_bits(a) < f64::from_bits(b),
            "order disagrees on patterns {a:#x}, {b:#x}"
        );
    }
}

#[test]
fn clamp_unit_agrees_with_scalar_clamping() {
    let near_asymptote = (0.5f64 * std::f64::consts::PI).tan().abs();
    let values: Vec<f64> = vec![
        -0.5,
        -0.0,
        0.0,
        0.25,
        1.0,
        1.5,
        near_asymptote,
        0.02 + near_asymptote * 0.08,
        -1e300,
        1e300,
        f64::INFINITY,
        f64::NEG_INFINITY,
        f64::NAN,
    ];
    for &x in &values {
        assert_eq!(
            clamp_unit(x.to_bits()),
            x.clamp(0.0, 1.0).to_bits(),
            "clamping disagrees on {x}"
        );
    }
}

#[test]
fn clamp_unit_agrees_with_scalar_clamping_on_random_patterns() {
    let mut rng = rand::thread_rng();
    for _ in 0..100_000 {
        let bits: u64 = rng.gen();
        let x = f64::from_bits(bits);
        assert_eq!(clamp_unit(bits), x.clamp(0.0, 1.0).to_bits());
    }
}

#[test]
fn mutation_probability_is_clamped_for_extreme_factors() {
    // The factor |tan(v * pi)| explodes near the asymptote; the clamped
    // probability still lands in [0, 1].
    let near_asymptote = (0.5f64 * std::f64::consts::PI).tan().abs();
    for factor in [0.0, 0.5, 1.0, near_asymptote, f64::INFINITY] {
        let raw = 0.02 + factor * 0.08;
        let p = f64::from_bits(clamp_unit(raw.to_bits()));
        assert!((0.0..=1.0).contains(&p), "probability {p} escaped [0, 1]");
    }
    let raw = 0.02 + near_asymptote * 0.08;
    assert_eq!(clamp_unit(raw.to_bits()), (1.0f64).to_bits());
}
