//! How close doubles come to the numbers that they stand for.
use crate::binary::{
    lemma_round_even_scaled, lemma_short_is_kept, lemma_spacing_exponent, lemma_spacing_reaches,
    less, not_positive, number_of, share, share_units, size, sum, Number,
};
use crate::double::{
    double_rounded, double_spacing, equal_doubles, lemma_round_even_between, nan, not_above_zero,
    product_exceeds_cap, product_floor, raised_exponent, round_even, significand, SIGN_BIT,
};
use crate::quotient::{lemma_nothing_over, lemma_whole_below, quotient, rounded_ratio, seconds};
use vstd::arithmetic::div_mod::lemma_fundamental_div_mod;
use vstd::arithmetic::power2::{lemma_pow2_adds, lemma_pow2_pos, pow2};
use vstd::prelude::*;

verus! {

/// The distance between two whole numbers.
pub open spec fn apart(a: int, b: int) -> int {
    if a < b {
        b - a
    } else {
        a - b
    }
}

/// A quotient is rounded to a nearest whole number: no whole number is nearer, and of two that are
/// equally near it is the even one.
pub proof fn quotients_are_rounded_to_the_nearest(a: nat, b: nat, other: int)
    requires
        b > 0,
    ensures
        2 * apart((round_even(a, b) * b) as int, a as int) <= b,
        2 * apart((round_even(a, b) * b) as int, a as int) == b ==> round_even(a, b) % 2 == 0,
        apart((round_even(a, b) * b) as int, a as int) <= apart(other * b, a as int),
{
    let q = (a / b) as int;
    let r = (a % b) as int;
    lemma_fundamental_div_mod(a as int, b as int);
    assert((q + 1) * b == q * b + b) by (nonlinear_arith);
    assert(q * b == b * q) by (nonlinear_arith);
    assert(a == q * b + r);
    if other <= q {
        assert(other * b <= q * b) by (nonlinear_arith)
            requires
                other <= q,
                b > 0,
        ;
    } else {
        assert(other * b >= (q + 1) * b) by (nonlinear_arith)
            requires
                other >= q + 1,
                b > 0,
        ;
    }
}

proof fn lemma_spacing_is_small(a: nat)
    ensures
        double_spacing(a) >= 1,
        a < 0x20_0000_0000_0000 ==> double_spacing(a) == 1,
        a >= 0x20_0000_0000_0000 ==> 0x10_0000_0000_0000 * double_spacing(a) <= a,
    decreases a,
{
    if a >= 0x20_0000_0000_0000 {
        lemma_spacing_is_small(a / 2);
    }
}

/// A whole number is rounded by at most one part in 2^53, and not at all below 2^53.
pub proof fn rounding_is_close(x: nat)
    ensures
        0x20_0000_0000_0000 * apart(double_rounded(x) as int, x as int) <= x,
        x < 0x20_0000_0000_0000 ==> double_rounded(x) == x,
{
    lemma_spacing_is_small(x);
    let s = double_spacing(x);
    quotients_are_rounded_to_the_nearest(x, s, 0);
    if x < 0x20_0000_0000_0000 {
        assert(x % 1 == 0 && x / 1 == x);
    }
}

/// The sum of two finite doubles that does not overflow is off by at most one part in 2^53.
pub proof fn sums_are_close(x: int, y: int)
    ensures
        sum(Number::Finite(x), Number::Finite(y)) matches Number::Finite(z) ==> 0x20_0000_0000_0000
            * apart(z, x + y) <= size(x + y),
        sum(Number::Finite(x), Number::Finite(y)) == sum(Number::Finite(y), Number::Finite(x)),
        size(x + y) < 0x20_0000_0000_0000 ==> sum(Number::Finite(x), Number::Finite(y))
            == Number::Finite(x + y),
{
    rounding_is_close(size(x + y));
    if size(x + y) < 0x20_0000_0000_0000 {
        vstd::arithmetic::power2::lemma2_to64();
        vstd::arithmetic::power2::lemma2_to64_rest();
        vstd::arithmetic::power2::lemma_pow2_strictly_increases(60, 2098);
    }
}

/// A share of a number of units is off by at most one part in 2^53 and half a unit.
pub proof fn shares_are_close(steps: nat, units: nat)
    ensures
        0x20_0000_0000_0000 * apart(
            (0x20_0000_0000_0000 * share_units(steps, units)) as int,
            (steps * units) as int,
        ) <= steps * units + 0x10_0000_0000_0000 * 0x20_0000_0000_0000,
{
    let limit = 0x20_0000_0000_0000nat;
    let p = steps * units;
    let floor = p / limit;
    let spacing = double_spacing(floor);
    lemma_spacing_is_small(floor);
    let q = round_even(p, limit * spacing);
    quotients_are_rounded_to_the_nearest(p, limit * spacing, 0);
    assert(q * (limit * spacing) == limit * (q * spacing)) by (nonlinear_arith);
    let gap = apart((limit * (q * spacing)) as int, p as int);
    assert(2 * gap <= limit * spacing);
    assert(limit * floor <= p);
    if floor >= limit {
        assert(limit * (2 * gap) <= limit * (limit * spacing)) by (nonlinear_arith)
            requires
                2 * gap <= limit * spacing,
        ;
        assert(limit * (limit * spacing) == 2 * (limit * (0x10_0000_0000_0000 * spacing)))
            by (nonlinear_arith)
            requires
                limit == 0x20_0000_0000_0000,
        ;
        assert(limit * (0x10_0000_0000_0000 * spacing) <= limit * floor) by (nonlinear_arith)
            requires
                0x10_0000_0000_0000 * spacing <= floor,
        ;
    }
}

/// A bit pattern below that of infinity stands for its fraction, with a leading one from 2^52 on,
/// times the power of two that its exponent gives, in units of 2^-1074. The highest bit is the
/// sign.
pub proof fn bit_patterns_stand_for_numbers(exponent: nat, fraction: nat)
    requires
        exponent < 2047,
        fraction < 0x10_0000_0000_0000,
    ensures
        ({
            let bits = (exponent * 0x10_0000_0000_0000 + fraction) as u64;
            let negative = (0x8000_0000_0000_0000 + bits) as u64;
            let units = if exponent == 0 {
                fraction as int
            } else {
                ((0x10_0000_0000_0000 + fraction) * pow2((exponent - 1) as nat)) as int
            };
            &&& number_of(bits) == Number::Finite(units)
            &&& number_of(negative) == Number::Finite(-units)
        }),
        number_of(0x7FF0_0000_0000_0000) == (Number::Infinite { negative: false }),
        number_of(0xFFF0_0000_0000_0000) == (Number::Infinite { negative: true }),
        exponent < 2047 && fraction > 0 ==> number_of((0x7FF0_0000_0000_0000 + fraction) as u64)
            == Number::NotANumber,
{
    let bits = (exponent * 0x10_0000_0000_0000 + fraction) as u64;
    let negative = (0x8000_0000_0000_0000 + bits) as u64;
    assert(bits == exponent * 0x10_0000_0000_0000 + fraction);
    assert(negative == 0x8000_0000_0000_0000 + bits);
    vstd::arithmetic::power2::lemma2_to64();
    if exponent > 0 {
        vstd::arithmetic::div_mod::lemma_fundamental_div_mod_converse(
            bits as int,
            0x10_0000_0000_0000,
            exponent as int,
            fraction as int,
        );
        assert(significand(bits) == 0x10_0000_0000_0000 + fraction);
        assert(significand(negative) == significand(bits));
        assert(raised_exponent(bits) == exponent);
        assert(raised_exponent(negative) == exponent);
    } else {
        assert(significand(bits) == fraction && raised_exponent(bits) == 1);
        assert(significand(negative) == fraction && raised_exponent(negative) == 1);
        assert(fraction * 1 == fraction);
    }
}

/// A product with a double exceeds the cap exactly if it lies above 100,000 by more than half the
/// spacing of doubles there, which is 2^-37. An infinite factor exceeds it unless the other one is
/// zero; what is negative or not a number does not.
pub proof fn the_cap_is_a_hundred_thousand(factor: nat, bits: u64)
    ensures
        match number_of(bits) {
            Number::Finite(n) => product_exceeds_cap(factor, bits) <==> factor * n > 100_000 * pow2(
                1074,
            ) + pow2(1037),
            Number::Infinite { negative } => product_exceeds_cap(factor, bits) <==> !negative
                && factor > 0,
            Number::NotANumber => !product_exceeds_cap(factor, bits),
        },
{
    if number_of(bits) is Finite {
        let n = number_of(bits)->Finite_0;
        let sig = significand(bits);
        let e = raised_exponent(bits);
        let cap = 100_000 * pow2(1074) + pow2(1037);
        lemma_pow2_pos(1074);
        lemma_pow2_pos(1037);
        lemma_pow2_pos((e - 1) as nat);
        lemma_pow2_adds(1, (e - 1) as nat);
        lemma_pow2_adds(1, 1037);
        lemma_pow2_adds(37, 1037);
        vstd::arithmetic::power2::lemma2_to64();
        vstd::arithmetic::power2::lemma2_to64_rest();
        assert(sig * pow2((e - 1) as nat) >= 0) by (nonlinear_arith)
            requires
                sig >= 0,
                pow2((e - 1) as nat) > 0,
        ;
        if bits >= SIGN_BIT {
            assert(factor * n <= 0) by (nonlinear_arith)
                requires
                    factor >= 0,
                    n <= 0,
            ;
        } else {
            let half = pow2((e - 1) as nat);
            assert(factor * sig * pow2(e) == 2 * (factor * n)) by (nonlinear_arith)
                requires
                    pow2(e) == 2 * half,
                    n == sig * half,
            ;
            assert(13_743_895_347_200_001 * pow2(1038) == 2 * cap) by (nonlinear_arith)
                requires
                    pow2(1038) == 2 * pow2(1037),
                    pow2(1074) == 137_438_953_472 * pow2(1037),
                    cap == 100_000 * pow2(1074) + pow2(1037),
            ;
        }
    }
}

/// A product with a finite double that is not negative, cut down to a whole number, is the whole
/// part of the product but for one part in 2^53, as long as it fits.
pub proof fn whole_products_are_close(factor: nat, bits: u64, n: int)
    requires
        number_of(bits) == Number::Finite(n),
        bits < 0x8000_0000_0000_0000,
    ensures
        ({
            let whole = product_floor(factor, bits);
            let exact = factor * n;
            let limit = 0x20_0000_0000_0000int;
            &&& whole * pow2(1074) * limit <= exact * (limit + 1)
            &&& whole < u64::MAX ==> (whole + 1) * pow2(1074) * limit > exact * (limit - 1)
        }),
{
    let limit = 0x20_0000_0000_0000int;
    let sig = significand(bits);
    let e = raised_exponent(bits);
    let x = factor * sig;
    let r = double_rounded(x) as int;
    rounding_is_close(x);
    let low = pow2((e - 1) as nat) as int;
    lemma_pow2_pos((e - 1) as nat);
    let exact = factor * n;
    assert(exact == x * low) by (nonlinear_arith)
        requires
            exact == factor * n,
            n == sig * low,
            x == factor * sig,
    ;
    let big = pow2(1074) as int;
    lemma_pow2_pos(1074);
    // The rounded product in units of 2^-1074.
    let u = r * low;
    assert(u * limit <= exact * (limit + 1)) by (nonlinear_arith)
        requires
            u == r * low,
            exact == x * low,
            r * limit <= x * (limit + 1),
            low > 0,
    ;
    assert(u * limit >= exact * (limit - 1)) by (nonlinear_arith)
        requires
            u == r * low,
            exact == x * low,
            r * limit >= x * (limit - 1),
            low > 0,
    ;
    let whole = if e >= 1075 {
        r * pow2((e - 1075) as nat)
    } else {
        r / pow2((1075 - e) as nat) as int
    };
    if e >= 1075 {
        let shift = (e - 1075) as nat;
        lemma_pow2_adds(shift, 1074);
        let up = pow2(shift) as int;
        assert(whole * big == u) by (nonlinear_arith)
            requires
                whole == r * up,
                u == r * low,
                low == up * big,
        ;
    } else {
        let shift = (1075 - e) as nat;
        lemma_pow2_adds(shift, (e - 1) as nat);
        let down = pow2(shift) as int;
        lemma_pow2_pos(shift);
        lemma_fundamental_div_mod(r, down);
        let rest = r % down;
        assert(whole * big <= u) by (nonlinear_arith)
            requires
                r == down * whole + rest,
                rest >= 0,
                u == r * low,
                big == down * low,
                low > 0,
        ;
        assert((whole + 1) * big > u) by (nonlinear_arith)
            requires
                r == down * whole + rest,
                rest < down,
                u == r * low,
                big == down * low,
                low > 0,
        ;
    }
    assert((whole + 1) * big == whole * big + big) by (nonlinear_arith);
    assert(whole * big * limit <= exact * (limit + 1)) by (nonlinear_arith)
        requires
            whole * big <= u,
            u * limit <= exact * (limit + 1),
            limit > 0,
    ;
    assert((whole + 1) * big * limit > exact * (limit - 1)) by (nonlinear_arith)
        requires
            (whole + 1) * big > u,
            u * limit >= exact * (limit - 1),
            limit > 0,
    ;
    let most = u64::MAX as int;
    if whole > most {
        assert(most * big * limit <= whole * big * limit) by (nonlinear_arith)
            requires
                most <= whole,
                big > 0,
                limit > 0,
        ;
    }
}

/// Doubles are compared as the numbers that they stand for: finite ones by their units, infinite
/// ones beyond all finite ones, and what is not a number not at all.
pub proof fn comparisons_follow_the_numbers(x: int, y: int, a: Number)
    ensures
        less(Number::Finite(x), Number::Finite(y)) <==> x < y,
        less(Number::Finite(x), Number::Infinite { negative: false }),
        !less(Number::Finite(x), Number::Infinite { negative: true }),
        less(Number::Infinite { negative: true }, Number::Finite(x)),
        !less(Number::Infinite { negative: false }, a),
        !less(a, Number::Infinite { negative: true }),
        !less(a, Number::NotANumber),
        !less(Number::NotANumber, a),
        !less(a, a),
        not_positive(Number::Finite(x)) <==> x <= 0,
        not_positive(Number::Infinite { negative: true }),
        !not_positive(Number::Infinite { negative: false }),
        !not_positive(Number::NotANumber),
{
}

/// Sums and shares of what is infinite or not a number stay so. Opposite infinities, and no part
/// of an infinity, are not a number.
pub proof fn infinities_are_kept(x: int, a: Number, negative: bool, steps: nat)
    ensures
        sum(Number::NotANumber, a) == Number::NotANumber,
        sum(a, Number::NotANumber) == Number::NotANumber,
        sum(Number::Infinite { negative }, Number::Finite(x)) == (Number::Infinite { negative }),
        sum(Number::Finite(x), Number::Infinite { negative }) == (Number::Infinite { negative }),
        sum(Number::Infinite { negative }, Number::Infinite { negative }) == (Number::Infinite {
            negative,
        }),
        sum(Number::Infinite { negative }, Number::Infinite { negative: !negative })
            == Number::NotANumber,
        share(steps, Number::NotANumber) == Number::NotANumber,
        steps > 0 ==> share(steps, Number::Infinite { negative }) == (Number::Infinite {
            negative,
        }),
        share(0, Number::Infinite { negative }) == Number::NotANumber,
        share(steps, Number::Finite(x)) == Number::Finite(
            if x < 0 {
                -(share_units(steps, size(x)) as int)
            } else {
                share_units(steps, size(x)) as int
            },
        ),
{
}

/// Bit patterns are compared as numbers: those beyond infinity are no number and equal nothing, and
/// both zeros are equal and not above zero.
pub proof fn bit_patterns_compare_as_numbers(
    a: u64,
    b: u64,
    none: bool,
    same: bool,
    low: bool,
)
    requires
        call_ensures(nan, (a,), none),
        call_ensures(equal_doubles, (a, b), same),
        call_ensures(not_above_zero, (a,), low),
    ensures
        none <==> 0x7FF0_0000_0000_0000 < a < 0x8000_0000_0000_0000 || a > 0xFFF0_0000_0000_0000,
        a == b && !none ==> same,
        a == 0 && b == 0x8000_0000_0000_0000 ==> same,
        none ==> !same,
        a != b && (a != 0 && a != 0x8000_0000_0000_0000) ==> !same,
        a != b && (b != 0 && b != 0x8000_0000_0000_0000) ==> !same,
        low <==> a == 0 || 0x8000_0000_0000_0000 <= a <= 0xFFF0_0000_0000_0000,
{
}

/// A product with a double below zero or with no number comes to nothing, one with infinity to the
/// largest number that fits, unless the other factor is zero.
pub proof fn other_products_are_limited(factor: nat, bits: u64)
    ensures
        bits >= 0x8000_0000_0000_0000 ==> product_floor(factor, bits) == 0,
        number_of(bits) is NotANumber ==> product_floor(factor, bits) == 0,
        bits == 0x7FF0_0000_0000_0000 && factor > 0 ==> product_floor(factor, bits)
            == 0xFFFF_FFFF_FFFF_FFFF,
        bits == 0x7FF0_0000_0000_0000 && factor == 0 ==> product_floor(factor, bits) == 0,
{
}

proof fn lemma_multiple_is_short(a: nat, b: nat)
    requires
        b > 0,
        a < 0x20_0000_0000_0000 * b,
    ensures
        round_even(a, b) <= 0x20_0000_0000_0000,
{
    lemma_round_even_between(a, b, 0, 0x20_0000_0000_0000);
}

/// A rounded number is a significand of at most 53 bits times a power of two. The power is the
/// least that leaves room for the number, and the significand the nearest one to it.
pub proof fn rounded_numbers_have_53_bits(x: nat) -> (parts: (nat, nat))
    ensures
        double_rounded(x) == parts.0 * pow2(parts.1),
        parts.0 <= 0x20_0000_0000_0000,
        x < 0x20_0000_0000_0000 * pow2(parts.1),
        parts.1 > 0 ==> x >= 0x10_0000_0000_0000 * pow2(parts.1),
        2 * apart(double_rounded(x) as int, x as int) <= pow2(parts.1),
{
    let k = lemma_spacing_exponent(x);
    lemma_pow2_pos(k);
    lemma_spacing_reaches(x);
    lemma_spacing_is_small(x);
    lemma_multiple_is_short(x, pow2(k));
    quotients_are_rounded_to_the_nearest(x, pow2(k), 0);
    if k > 0 {
        lemma_pow2_adds(1, (k - 1) as nat);
        lemma_pow2_pos((k - 1) as nat);
        vstd::arithmetic::power2::lemma2_to64();
    }
    (round_even(x, pow2(k)), k)
}

/// A quotient of doubles is again a significand of at most 53 bits times a power of two, the
/// nearest one to the exact quotient.
pub proof fn rounded_quotients_have_53_bits(p: nat, q: nat) -> (parts: (nat, nat))
    requires
        q > 0,
    ensures
        rounded_ratio(p, q) == parts.0 * pow2(parts.1),
        parts.0 <= 0x20_0000_0000_0000,
        parts.1 > 0 ==> p >= 0x10_0000_0000_0000 * pow2(parts.1) * q,
        2 * apart((rounded_ratio(p, q) * q) as int, p as int) <= pow2(parts.1) * q,
{
    let x = p / q;
    let k = lemma_spacing_exponent(x);
    let s = pow2(k);
    lemma_pow2_pos(k);
    lemma_spacing_reaches(x);
    lemma_spacing_is_small(x);
    lemma_fundamental_div_mod(p as int, q as int);
    let r = p % q;
    assert(p == q * x + r);
    assert(q * s > 0) by (nonlinear_arith)
        requires
            q > 0,
            s > 0,
    ;
    assert(p < 0x20_0000_0000_0000 * (q * s)) by (nonlinear_arith)
        requires
            p == q * x + r,
            r < q,
            x + 1 <= 0x20_0000_0000_0000 * s,
            q > 0,
    ;
    lemma_multiple_is_short(p, q * s);
    quotients_are_rounded_to_the_nearest(p, q * s, 0);
    let m = round_even(p, q * s);
    assert((m * s) * q == m * (q * s)) by (nonlinear_arith);
    assert(s * q == q * s) by (nonlinear_arith);
    if k > 0 {
        lemma_pow2_adds(1, (k - 1) as nat);
        lemma_pow2_pos((k - 1) as nat);
        vstd::arithmetic::power2::lemma2_to64();
        assert(0x10_0000_0000_0000 * s * q <= p) by (nonlinear_arith)
            requires
                0x10_0000_0000_0000 * s <= x,
                p == q * x + r,
                r >= 0,
                q > 0,
        ;
    }
    (m, k)
}

/// Whole seconds are exact, and so is a duration over another that it is a multiple of, where both
/// are whole seconds.
pub proof fn whole_seconds_are_exact(count: nat, each: nat)
    requires
        0 < each,
        0 < count,
        count * each < 0x8_0000_0000,
    ensures
        seconds(each * 1_000_000_000) == each * pow2(1074),
        seconds((count * each) * 1_000_000_000) == (count * each) * pow2(1074),
        quotient(seconds((count * each) * 1_000_000_000), seconds(each * 1_000_000_000)) == count
            * pow2(1074),
{
    let unit = pow2(1074);
    lemma_pow2_pos(1074);
    let total = count * each;
    assert(each <= total && count <= total) by (nonlinear_arith)
        requires
            total == count * each,
            0 < each,
            0 < count,
    ;
    lemma_second_is_exact(each);
    lemma_second_is_exact(total);
    let q = each * unit;
    let x = count * unit;
    assert(q > 0) by (nonlinear_arith)
        requires
            q == each * unit,
            each > 0,
            unit > 0,
    ;
    let p = (total * unit) * unit;
    assert(p == q * x && p == x * q) by (nonlinear_arith)
        requires
            p == (total * unit) * unit,
            q == each * unit,
            x == count * unit,
            total == count * each,
    ;
    vstd::arithmetic::div_mod::lemma_fundamental_div_mod_converse(
        p as int,
        q as int,
        x as int,
        0,
    );
    let s = double_spacing(x);
    lemma_spacing_is_small(x);
    lemma_round_even_scaled(x, s, q);
    lemma_short_is_kept(count, 1074);
}

proof fn lemma_second_is_exact(n: nat)
    requires
        n < 0x8_0000_0000,
    ensures
        seconds(n * 1_000_000_000) == n * pow2(1074),
{
    let nanos = n * 1_000_000_000;
    assert(nanos / 1_000_000_000nat == n && nanos % 1_000_000_000nat == 0);
    lemma_nothing_over();
    vstd::arithmetic::power2::lemma2_to64_rest();
    lemma_whole_below(n, 35);
    lemma_short_is_kept(n, 1074);
}

} // verus!
