use streams::binary::Binary;

const STEPS: u64 = 1 << 53;

/// The double with the same value, put together from its parts by exact operations.
fn back(binary: &Binary) -> f64 {
    match *binary {
        Binary::NotANumber => f64::NAN,
        Binary::Infinite { negative } => {
            if negative {
                f64::NEG_INFINITY
            } else {
                f64::INFINITY
            }
        }
        Binary::Finite { negative, significand, exponent } => {
            let bits = if significand < (1 << 52) {
                significand
            } else {
                significand + exponent * (1 << 52)
            };
            let size = f64::from_bits(bits);
            if negative {
                -size
            } else {
                size
            }
        }
    }
}

fn same(a: f64, b: f64) -> bool {
    a == b || (a.is_nan() && b.is_nan())
}

fn samples() -> Vec<f64> {
    let mut list = vec![
        0.0,
        -0.0,
        1.0,
        -1.0,
        0.7,
        0.15,
        0.1,
        0.05,
        1.0 / 3.0,
        70.0,
        1e-300,
        5e-324,
        2.5e-320,
        -5e-324,
        f64::MIN_POSITIVE,
        f64::MAX,
        f64::MIN,
        f64::INFINITY,
        f64::NEG_INFINITY,
        f64::NAN,
        9007199254740992.0,
        9007199254740993.0,
        -9007199254740991.0,
        1e300,
        1.0000000000000002,
        0.9999999999999999,
    ];
    let mut state: u64 = 0x1234_5678_9ABC_DEF1;
    for _ in 0..60 {
        state ^= state << 13;
        state ^= state >> 7;
        state ^= state << 17;
        list.push(f64::from_bits(state));
        list.push((state >> 11) as f64 / STEPS as f64);
    }
    list
}

#[test]
fn taking_apart_keeps_the_value() {
    for x in samples() {
        assert!(same(back(&Binary::of(x.to_bits())), x), "{x}");
    }
}

#[test]
fn sums_round_like_the_hardware() {
    let list = samples();
    for a in &list {
        for b in &list {
            let sum = Binary::of(a.to_bits()).plus(&Binary::of(b.to_bits()));
            assert!(same(back(&sum), a + b), "{a} + {b}");
        }
    }
}

#[test]
fn comparisons_agree_with_the_hardware() {
    let list = samples();
    for a in &list {
        assert_eq!(Binary::of(a.to_bits()).is_not_positive(), *a <= 0.0, "{a}");
        for b in &list {
            let below = Binary::of(a.to_bits()).below(&Binary::of(b.to_bits()));
            assert_eq!(below, a < b, "{a} < {b}");
        }
    }
}

#[test]
fn shares_round_like_the_hardware() {
    let steps = [0, 1, 2, 3, STEPS / 2, STEPS / 3, STEPS - 1, STEPS - 2, 6_305_039_478_318_694];
    for x in samples() {
        for s in steps {
            let part = Binary::of(x.to_bits()).part(s);
            let unit = s as f64 / STEPS as f64;
            assert!(same(back(&part), unit * x), "{unit} * {x}");
        }
    }
}

#[test]
fn shares_of_ordinary_doubles_are_less_than_the_whole() {
    for x in samples() {
        if x.is_finite() && x >= f64::MIN_POSITIVE * 2.0 {
            let whole = Binary::of(x.to_bits());
            assert!(whole.part(STEPS - 1).below(&whole), "{x}");
        }
    }
}

#[test]
fn tiny_shares_can_round_up_to_the_whole() {
    let whole = Binary::of(5e-324f64.to_bits());
    assert!(!whole.part(STEPS - 1).below(&whole));
}
