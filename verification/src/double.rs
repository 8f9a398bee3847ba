//! Double-precision numbers as the library handles them: by their bit pattern, for comparison, and
//! by their decimal renderings, for display.
use vstd::arithmetic::power2::{lemma_pow2_adds, lemma_pow2_pos, lemma_pow2_unfold, pow2};
use vstd::prelude::*;

verus! {

/// The bit that carries the sign.
pub const SIGN_BIT: u64 = 0x8000_0000_0000_0000;

/// The bit pattern of positive infinity; larger magnitudes are not numbers.
pub const INFINITY_BITS: u64 = 0x7FF0_0000_0000_0000;

/// The bit pattern of one.
pub const ONE_BITS: u64 = 0x3FF0_0000_0000_0000;

/// The weight of the lowest exponent bit.
pub const EXPONENT_UNIT: u64 = 0x10_0000_0000_0000;

/// A double: its bit pattern, its shortest decimal rendering, and its rendering with one decimal
/// place.
#[derive(Debug)]
pub struct Double {
    pub bits: u64,
    pub text: String,
    pub tenths: String,
}

/// A double, with its renderings as characters.
pub struct DoubleTree {
    pub bits: u64,
    pub text: Seq<char>,
    pub tenths: Seq<char>,
}

impl View for Double {
    type V = DoubleTree;

    open spec fn view(&self) -> DoubleTree {
        DoubleTree { bits: self.bits, text: self.text@, tenths: self.tenths@ }
    }
}

/// The bit pattern without the sign.
pub open spec fn magnitude(bits: u64) -> nat {
    if bits >= SIGN_BIT {
        (bits - SIGN_BIT) as nat
    } else {
        bits as nat
    }
}

/// Whether the bit pattern is not a number.
pub open spec fn is_nan(bits: u64) -> bool {
    magnitude(bits) > INFINITY_BITS
}

/// The place of a bit pattern on the number line. Both zeros share one place.
pub open spec fn rank(bits: u64) -> int {
    if bits >= SIGN_BIT {
        -(magnitude(bits) as int)
    } else {
        magnitude(bits) as int
    }
}

/// Whether the doubles are equal as numbers.
pub open spec fn equals(a: u64, b: u64) -> bool {
    !is_nan(a) && !is_nan(b) && rank(a) == rank(b)
}

/// Equality of doubles is symmetric.
pub proof fn equals_is_symmetric(a: u64, b: u64)
    ensures
        equals(a, b) == equals(b, a),
{
}

/// A double equals itself exactly if it is a number.
pub proof fn equals_itself_unless_nan(a: u64)
    ensures
        equals(a, a) == !is_nan(a),
{
}

/// The integer that a positive double scales by a power of two.
pub open spec fn significand(bits: u64) -> nat {
    let m = magnitude(bits);
    if m < EXPONENT_UNIT {
        m
    } else {
        m % EXPONENT_UNIT as nat + EXPONENT_UNIT as nat
    }
}

/// A positive double is its significand times two to this exponent less 1075.
pub open spec fn raised_exponent(bits: u64) -> nat {
    let m = magnitude(bits);
    if m < EXPONENT_UNIT {
        1
    } else {
        m / EXPONENT_UNIT as nat
    }
}

fn magnitude_of(bits: u64) -> (m: u64)
    ensures
        m == magnitude(bits),
        m < SIGN_BIT,
{
    if bits >= SIGN_BIT {
        bits - SIGN_BIT
    } else {
        bits
    }
}

/// Whether the bit pattern is not a number.
pub fn nan(bits: u64) -> (yes: bool)
    ensures
        yes == is_nan(bits),
{
    magnitude_of(bits) > INFINITY_BITS
}

/// Whether the doubles are equal as numbers.
pub fn equal_doubles(a: u64, b: u64) -> (yes: bool)
    ensures
        yes == equals(a, b),
{
    if nan(a) || nan(b) {
        false
    } else {
        let x: u64 = magnitude_of(a);
        let y: u64 = magnitude_of(b);
        x == y && (x == 0 || (a >= SIGN_BIT) == (b >= SIGN_BIT))
    }
}

/// Whether the double is zero or below.
pub fn not_above_zero(bits: u64) -> (yes: bool)
    ensures
        yes == (!is_nan(bits) && rank(bits) <= 0),
{
    !nan(bits) && (bits >= SIGN_BIT || bits == 0)
}

/// The midpoint between 100,000 and the next double, in units of 2^-37. Exactly the products above
/// it round to a double above 100,000.
pub const CAP_EDGE: u64 = 13_743_895_347_200_001;

/// Whether `factor` times the double, rounded to a double, is greater than 100,000.
pub open spec fn product_exceeds_cap(factor: nat, bits: u64) -> bool {
    if is_nan(bits) || bits >= SIGN_BIT {
        false
    } else if bits == INFINITY_BITS {
        factor > 0
    } else {
        factor * significand(bits) * pow2(raised_exponent(bits)) > CAP_EDGE * pow2(1038)
    }
}

pub(crate) fn power_of_two(exponent: u64) -> (power: u128)
    requires
        exponent < 64,
    ensures
        power == pow2(exponent as nat),
        power <= 0x8000_0000_0000_0000,
{
    let mut power: u128 = 1;
    let mut done: u64 = 0;
    proof {
        vstd::arithmetic::power2::lemma2_to64();
    }
    while done < exponent
        invariant
            done <= exponent < 64,
            power == pow2(done as nat),
        decreases exponent - done,
    {
        proof {
            lemma_pow2_unfold((done + 1) as nat);
            vstd::arithmetic::power2::lemma_pow2_strictly_increases((done) as nat, 64);
            vstd::arithmetic::power2::lemma2_to64_rest();
        }
        power = power * 2;
        done = done + 1;
    }
    proof {
        vstd::arithmetic::power2::lemma2_to64_rest();
        if exponent < 63 {
            vstd::arithmetic::power2::lemma_pow2_strictly_increases(exponent as nat, 63);
        }
    }
    power
}

fn split(bits: u64) -> (parts: (u64, u64))
    requires
        bits < INFINITY_BITS,
    ensures
        parts.0 == significand(bits),
        parts.1 == raised_exponent(bits),
        parts.0 < 0x20_0000_0000_0000,
        1 <= parts.1 <= 2046,
{
    if bits < EXPONENT_UNIT {
        (bits, 1)
    } else {
        (bits % EXPONENT_UNIT + EXPONENT_UNIT, bits / EXPONENT_UNIT)
    }
}

fn exact_product(factor: u64, significand_part: u64) -> (product: u128)
    requires
        factor <= 0x10_0000_0000,
        significand_part < 0x20_0000_0000_0000,
    ensures
        product == factor * significand_part,
        product <= 0x200_0000_0000_0000_0000_0000,
{
    assert((factor as u128) * (significand_part as u128) <= 0x10_0000_0000u128
        * 0x20_0000_0000_0000u128) by (nonlinear_arith)
        requires
            factor <= 0x10_0000_0000,
            significand_part < 0x20_0000_0000_0000,
    ;
    (factor as u128) * (significand_part as u128)
}

/// Whether `factor` times the double, rounded to a double, is greater than 100,000.
pub fn product_over_cap(factor: u64, bits: u64) -> (yes: bool)
    requires
        factor <= 0x10_0000_0000,
    ensures
        yes == product_exceeds_cap(factor as nat, bits),
{
    if nan(bits) || bits >= SIGN_BIT {
        return false;
    }
    if bits == INFINITY_BITS {
        return factor > 0;
    }
    let (significand_part, exponent): (u64, u64) = split(bits);
    let product: u128 = exact_product(factor, significand_part);
    let ghost p = product as nat;
    let ghost edge = CAP_EDGE as nat;
    if exponent >= 1038 {
        let shift: u64 = exponent - 1038;
        proof {
            lemma_pow2_adds(1038, shift as nat);
            lemma_pow2_pos(1038);
            lemma_scaled_up(p, edge, pow2(1038), pow2(shift as nat));
        }
        if shift >= 64 {
            proof {
                vstd::arithmetic::power2::lemma2_to64_rest();
                if shift > 64 {
                    vstd::arithmetic::power2::lemma_pow2_strictly_increases(64, shift as nat);
                }
                let power = pow2(shift as nat);
                assert(p * power > edge <==> p > 0) by (nonlinear_arith)
                    requires
                        power > edge,
                        edge > 0,
                ;
            }
            product > 0
        } else {
            let power: u128 = power_of_two(shift);
            proof {
                lemma_pow2_pos(shift as nat);
                lemma_product_over(p, edge, power as nat);
            }
            product > (CAP_EDGE as u128) / power
        }
    } else {
        let shift: u64 = 1038 - exponent;
        proof {
            lemma_pow2_adds(exponent as nat, shift as nat);
            lemma_pow2_pos(exponent as nat);
            lemma_scaled_down(p, edge, pow2(exponent as nat), pow2(shift as nat));
        }
        if shift >= 40 {
            proof {
                vstd::arithmetic::power2::lemma2_to64_rest();
                if shift > 40 {
                    vstd::arithmetic::power2::lemma_pow2_strictly_increases(40, shift as nat);
                }
                let power = pow2(shift as nat);
                assert(edge * power >= edge * 0x100_0000_0000) by (nonlinear_arith)
                    requires
                        power >= 0x100_0000_0000,
                        edge > 0,
                ;
            }
            false
        } else {
            let power: u128 = power_of_two(shift);
            proof {
                vstd::arithmetic::power2::lemma2_to64_rest();
                vstd::arithmetic::power2::lemma_pow2_strictly_increases(shift as nat, 40);
            }
            assert(edge * power <= edge * 0x100_0000_0000) by (nonlinear_arith)
                requires
                    power <= 0x100_0000_0000,
                    edge > 0,
            ;
            product > (CAP_EDGE as u128) * power
        }
    }
}

proof fn lemma_scaled_up(p: nat, edge: nat, base: nat, power: nat)
    requires
        base > 0,
    ensures
        p * (base * power) > edge * base <==> p * power > edge,
{
    assert(p * (base * power) == (p * power) * base) by (nonlinear_arith);
    assert((p * power) * base > edge * base <==> p * power > edge) by (nonlinear_arith)
        requires
            base > 0,
    ;
}

proof fn lemma_scaled_down(p: nat, edge: nat, base: nat, power: nat)
    requires
        base > 0,
    ensures
        p * base > edge * (base * power) <==> p > edge * power,
{
    assert(edge * (base * power) == (edge * power) * base) by (nonlinear_arith);
    assert(p * base > (edge * power) * base <==> p > edge * power) by (nonlinear_arith)
        requires
            base > 0,
    ;
}

proof fn lemma_product_over(p: nat, edge: nat, power: nat)
    requires
        power > 0,
    ensures
        p * power > edge <==> p > edge / power,
{
    vstd::arithmetic::div_mod::lemma_fundamental_div_mod(edge as int, power as int);
    let q = edge / power;
    let r = edge % power;
    assert(p * power > edge <==> p > q) by (nonlinear_arith)
        requires
            edge == power * q + r,
            0 <= r < power,
    ;
}

/// `a / b` rounded to the nearest whole number, halves to the even neighbour.
pub open spec fn round_even(a: nat, b: nat) -> nat
    recommends
        b > 0,
{
    let q = a / b;
    let r = a % b;
    if 2 * r < b || (2 * r == b && q % 2 == 0) {
        q
    } else {
        q + 1
    }
}

/// The spacing of doubles around the whole number `a`, as far as it is not below one.
pub open spec fn double_spacing(a: nat) -> nat
    decreases a,
{
    if a < 0x20_0000_0000_0000 {
        1
    } else {
        2 * double_spacing(a / 2)
    }
}

/// The whole number `a` as a double holds it.
pub open spec fn double_rounded(a: nat) -> nat {
    round_even(a, double_spacing(a)) * double_spacing(a)
}

/// Rounding stays between whole bounds.
pub proof fn lemma_round_even_between(a: nat, b: nat, lo: nat, hi: nat)
    requires
        b > 0,
        lo * b <= a <= hi * b,
    ensures
        lo <= round_even(a, b) <= hi,
{
    let q = a / b;
    let r = a % b;
    assert(a == q * b + r && r < b) by {
        vstd::arithmetic::div_mod::lemma_fundamental_div_mod(a as int, b as int);
        vstd::arithmetic::mul::lemma_mul_is_commutative(b as int, q as int);
    }
    assert(q >= lo) by (nonlinear_arith)
        requires
            lo * b <= q * b + r,
            r < b,
            b > 0,
    ;
    assert(q < hi || (q == hi && r == 0)) by (nonlinear_arith)
        requires
            q * b + r <= hi * b,
            0 <= r < b,
            b > 0,
    ;
}

/// `a / b` rounded to the nearest whole number, halves to the even neighbour.
pub fn round_even_to(a: u128, b: u128) -> (q: u128)
    requires
        0 < b <= 0x4000_0000_0000_0000_0000_0000_0000_0000,
        a < 0x4000_0000_0000_0000_0000_0000_0000_0000,
    ensures
        q == round_even(a as nat, b as nat),
        q <= a + 1,
{
    let q: u128 = a / b;
    let r: u128 = a % b;
    assert(q <= a) by (nonlinear_arith)
        requires
            q == a / b,
            b > 0,
    ;
    if 2 * r < b || (2 * r == b && q % 2 == 0) {
        q
    } else {
        q + 1
    }
}

fn spacing_of(a: u128) -> (spacing: u128)
    requires
        a < 0x4000_0000_0000_0000_0000_0000_0000_0000,
    ensures
        spacing == double_spacing(a as nat),
        0 < spacing,
        spacing == 1 || spacing * 0x10_0000_0000_0000 <= a,
    decreases a,
{
    if a < 0x20_0000_0000_0000 {
        1
    } else {
        let half: u128 = spacing_of(a / 2);
        2 * half
    }
}

/// The whole number `a` as a double holds it.
pub fn round_as_double(a: u128) -> (rounded: u128)
    requires
        a < 0x4000_0000_0000_0000_0000_0000_0000_0000,
    ensures
        rounded == double_rounded(a as nat),
        rounded <= 2 * a,
{
    let spacing: u128 = spacing_of(a);
    let q: u128 = round_even_to(a, spacing);
    proof {
        let x = a as nat;
        let b = spacing as nat;
        let quotient = x / b;
        vstd::arithmetic::div_mod::lemma_fundamental_div_mod(x as int, b as int);
        assert(quotient * b <= x) by (nonlinear_arith)
            requires
                x == b * quotient + x % b,
        ;
        assert((quotient + 1) * b == quotient * b + b) by (nonlinear_arith);
        if b == 1 {
            assert(x % 1 == 0 && x / 1 == x);
            assert(round_even(x, 1) == x);
            assert(q == x);
        }
    }
    q * spacing
}

/// `factor` times the double, rounded to a double, and then cut down to a whole number that fits:
/// zero for what is negative or not a number, the largest number for what is too large.
pub open spec fn product_floor(factor: nat, bits: u64) -> nat {
    if is_nan(bits) || bits >= SIGN_BIT {
        0
    } else if bits == INFINITY_BITS {
        if factor > 0 {
            u64::MAX as nat
        } else {
            0
        }
    } else {
        let rounded = double_rounded(factor * significand(bits));
        let exponent = raised_exponent(bits);
        let whole = if exponent >= 1075 {
            rounded * pow2((exponent - 1075) as nat)
        } else {
            rounded / pow2((1075 - exponent) as nat)
        };
        if whole <= u64::MAX {
            whole
        } else {
            u64::MAX as nat
        }
    }
}

/// `factor` times the double, rounded to a double, and then cut down to a whole number that fits.
pub fn whole_product(factor: u64, bits: u64) -> (whole: u64)
    requires
        factor <= 0x10_0000_0000,
    ensures
        whole == product_floor(factor as nat, bits),
{
    if nan(bits) || bits >= SIGN_BIT {
        return 0;
    }
    if bits == INFINITY_BITS {
        return if factor > 0 {
            u64::MAX
        } else {
            0
        };
    }
    let (significand_part, exponent): (u64, u64) = split(bits);
    let product: u128 = exact_product(factor, significand_part);
    let rounded: u128 = round_as_double(product);
    if exponent >= 1075 {
        let shift: u64 = exponent - 1075;
        if rounded == 0 {
            assert(0 * pow2(shift as nat) == 0) by (nonlinear_arith);
            0
        } else if shift >= 64 {
            proof {
                vstd::arithmetic::power2::lemma2_to64_rest();
                if shift > 64 {
                    vstd::arithmetic::power2::lemma_pow2_strictly_increases(64, shift as nat);
                }
                let power = pow2(shift as nat);
                assert(rounded * power > u64::MAX) by (nonlinear_arith)
                    requires
                        power > u64::MAX,
                        rounded >= 1,
                ;
            }
            u64::MAX
        } else {
            let power: u128 = power_of_two(shift);
            proof {
                lemma_pow2_pos(shift as nat);
                lemma_product_over(rounded as nat, u64::MAX as nat, power as nat);
            }
            if rounded > (u64::MAX as u128) / power {
                u64::MAX
            } else {
                (rounded * power) as u64
            }
        }
    } else {
        let shift: u64 = 1075 - exponent;
        if shift >= 120 {
            proof {
                lemma_pow2_adds(60, 60);
                vstd::arithmetic::power2::lemma2_to64_rest();
                if shift > 120 {
                    vstd::arithmetic::power2::lemma_pow2_strictly_increases(120, shift as nat);
                }
                assert(pow2(60) * pow2(60) == 0x1000_0000_0000_0000nat * 0x1000_0000_0000_0000nat);
                vstd::arithmetic::div_mod::lemma_basic_div(
                    rounded as int,
                    pow2(shift as nat) as int,
                );
            }
            0
        } else {
            let first: u64 = if shift < 60 {
                shift
            } else {
                60
            };
            let second: u64 = shift - first;
            let low: u128 = power_of_two(first);
            let high: u128 = power_of_two(second);
            proof {
                lemma_pow2_pos(first as nat);
                lemma_pow2_pos(second as nat);
                lemma_pow2_adds(first as nat, second as nat);
                vstd::arithmetic::div_mod::lemma_div_denominator(
                    rounded as int,
                    low as int,
                    high as int,
                );
            }
            let whole: u128 = (rounded / low) / high;
            if whole <= u64::MAX as u128 {
                whole as u64
            } else {
                u64::MAX
            }
        }
    }
}

impl Double {
    /// The double one.
    pub fn one() -> (d: Double)
        ensures
            d.bits == ONE_BITS,
            d.text@ == "1"@,
            d.tenths@ == "1.0"@,
    {
        Double { bits: ONE_BITS, text: "1".to_owned(), tenths: "1.0".to_owned() }
    }

    /// The double zero.
    pub fn zero() -> (d: Double)
        ensures
            d.bits == 0,
            d.text@ == "0"@,
            d.tenths@ == "0.0"@,
    {
        Double { bits: 0, text: "0".to_owned(), tenths: "0.0".to_owned() }
    }
}

impl Clone for Double {
    fn clone(&self) -> (copy: Self)
        ensures
            copy == *self,
    {
        Double { bits: self.bits, text: self.text.clone(), tenths: self.tenths.clone() }
    }
}

} // verus!
