use streams::double::{
    equal_doubles, nan, not_above_zero, product_over_cap, round_as_double,
    round_even_to, whole_product, Double,
};

fn samples() -> Vec<f64> {
    vec![
        0.0,
        -0.0,
        1.0,
        -1.0,
        1.0000000000000002,
        0.9999999999999999,
        0.1,
        2.0,
        10.0,
        99.99999999999999,
        100.0,
        100.00000000000001,
        100.00000000000003,
        1e-320,
        1e308,
        -3.5,
        f64::INFINITY,
        f64::NEG_INFINITY,
        f64::NAN,
    ]
}

#[test]
fn equality_is_that_of_numbers() {
    for a in samples() {
        assert_eq!(nan(a.to_bits()), a.is_nan());
        for b in samples() {
            assert_eq!(equal_doubles(a.to_bits(), b.to_bits()), a == b, "{a} == {b}");
        }
    }
}

#[test]
fn bounds_agree_with_the_hardware() {
    for a in samples() {
        assert_eq!(not_above_zero(a.to_bits()), a <= 0.0, "{a}");
    }
}

#[test]
fn the_cap_is_tested_after_rounding() {
    for rate in samples() {
        for factor in [0u64, 1, 10, 1000, 7, 100_000, 42_949_672_950] {
            let product = factor as f64 * rate;
            assert_eq!(product_over_cap(factor, rate.to_bits()), product > 100_000.0, "{factor} * {rate}");
        }
    }
    // Around the cap the product rounds back to it, or just past it.
    let edge = 100_000.0f64 / 3.0;
    for step in -4i64..5 {
        let rate = f64::from_bits((edge.to_bits() as i64 + step) as u64);
        assert_eq!(product_over_cap(3, rate.to_bits()), 3.0 * rate > 100_000.0, "{rate}");
    }
}

#[test]
fn whole_products_are_cut_down() {
    for rate in samples() {
        for factor in [0u64, 1, 10, 1000, 7, 100_000, 42_949_672_950] {
            let product = factor as f64 * rate;
            assert_eq!(whole_product(factor, rate.to_bits()), product as u64, "{factor} * {rate}");
        }
    }
}

#[test]
fn halves_round_to_even() {
    assert_eq!(round_even_to(5, 2), 2);
    assert_eq!(round_even_to(7, 2), 4);
    assert_eq!(round_even_to(10, 4), 2);
    assert_eq!(round_even_to(11, 4), 3);
    assert_eq!(round_even_to(0, 3), 0);
}

#[test]
fn whole_numbers_round_like_doubles() {
    for a in [0u64, 1, (1 << 53) - 1, 1 << 53, (1 << 53) + 1, (1 << 53) + 3, u64::MAX / 3] {
        assert_eq!(round_as_double(a as u128), (a as f64) as u128);
    }
}

#[test]
fn constants_have_their_renderings() {
    let one = Double::one();
    assert_eq!(one.bits, 1.0f64.to_bits());
    assert_eq!(one.text, format!("{}", 1.0f64));
    assert_eq!(one.tenths, format!("{:.1}", 1.0f64));
    let zero = Double::zero();
    assert_eq!(zero.bits, 0.0f64.to_bits());
    assert_eq!(zero.text, format!("{}", 0.0f64));
    assert_eq!(zero.tenths, format!("{:.1}", 0.0f64));
}
