//! Sums, shares and comparison of doubles, rounded as the hardware rounds them.
//!
//! Every finite double is a whole number of units of 2^-1074. A sum is the exact sum of units,
//! rounded to 53 significant bits with halves to the even neighbour.
use crate::double::{
    double_rounded, double_spacing, is_nan, lemma_round_even_between, magnitude, power_of_two, raised_exponent, round_even, round_even_to,
    significand, EXPONENT_UNIT, INFINITY_BITS, SIGN_BIT,
};
use vstd::arithmetic::div_mod::{
    lemma_fundamental_div_mod, lemma_fundamental_div_mod_converse,
};
use vstd::arithmetic::power2::{
    lemma_pow2_adds, lemma_pow2_pos, lemma_pow2_strictly_increases, lemma_pow2_unfold, pow2,
};
use vstd::prelude::*;

verus! {

/// Two to the power of 53.
pub const SIGNIFICAND_LIMIT: u64 = 0x20_0000_0000_0000;

/// Two to the power of 52.
pub const SIGNIFICAND_LEAST: u64 = 0x10_0000_0000_0000;

/// The largest exponent of a finite double.
pub const EXPONENT_MOST: u64 = 2045;

/// What a double stands for: no number, an infinity, or a whole number of units of 2^-1074.
pub enum Number {
    NotANumber,
    Infinite { negative: bool },
    Finite(int),
}

/// The value with a sign.
pub open spec fn signed(negative: bool, units: nat) -> int {
    if negative {
        -(units as int)
    } else {
        units as int
    }
}

/// The distance from zero.
pub open spec fn size(n: int) -> nat {
    if n < 0 {
        (-n) as nat
    } else {
        n as nat
    }
}

/// What a bit pattern stands for.
pub open spec fn number_of(bits: u64) -> Number {
    if is_nan(bits) {
        Number::NotANumber
    } else if magnitude(bits) == INFINITY_BITS {
        Number::Infinite { negative: bits >= SIGN_BIT }
    } else {
        Number::Finite(
            signed(
                bits >= SIGN_BIT,
                significand(bits) * pow2((raised_exponent(bits) - 1) as nat),
            ),
        )
    }
}

/// A whole number of units as a double holds it. What is too large becomes an infinity.
pub open spec fn held(n: int) -> Number {
    let m = double_rounded(size(n));
    if m >= pow2(2098) {
        Number::Infinite { negative: n < 0 }
    } else {
        Number::Finite(signed(n < 0, m))
    }
}

/// The sum of two doubles.
pub open spec fn sum(a: Number, b: Number) -> Number {
    match (a, b) {
        (Number::NotANumber, _) => Number::NotANumber,
        (_, Number::NotANumber) => Number::NotANumber,
        (Number::Infinite { negative: x }, Number::Infinite { negative: y }) => if x == y {
            a
        } else {
            Number::NotANumber
        },
        (Number::Infinite { .. }, _) => a,
        (_, Number::Infinite { .. }) => b,
        (Number::Finite(x), Number::Finite(y)) => held(x + y),
    }
}

/// `steps` of 2^-53 of a number of units, rounded to a double.
pub open spec fn share_units(steps: nat, units: nat) -> nat {
    let p = steps * units;
    let spacing = double_spacing(p / 0x20_0000_0000_0000);
    round_even(p, 0x20_0000_0000_0000 * spacing) * spacing
}

/// `steps` of 2^-53 of a double, rounded to a double.
pub open spec fn share(steps: nat, whole: Number) -> Number {
    match whole {
        Number::NotANumber => Number::NotANumber,
        Number::Infinite { .. } => if steps == 0 {
            Number::NotANumber
        } else {
            whole
        },
        Number::Finite(n) => Number::Finite(signed(n < 0, share_units(steps, size(n)))),
    }
}

/// Whether the first double is less than the second.
pub open spec fn less(a: Number, b: Number) -> bool {
    match (a, b) {
        (Number::NotANumber, _) => false,
        (_, Number::NotANumber) => false,
        (Number::Infinite { negative: x }, Number::Infinite { negative: y }) => x && !y,
        (Number::Infinite { negative }, _) => negative,
        (_, Number::Infinite { negative }) => !negative,
        (Number::Finite(x), Number::Finite(y)) => x < y,
    }
}

/// Whether a double is zero or less.
pub open spec fn not_positive(a: Number) -> bool {
    a !is NotANumber && !less(Number::Finite(0), a)
}

/// A double, taken apart. A finite one is its significand times two to its exponent, in units of
/// 2^-1074.
#[derive(Clone, Copy, PartialEq, Eq, Structural, Debug)]
pub enum Binary {
    NotANumber,
    Infinite { negative: bool },
    Finite { negative: bool, significand: u64, exponent: u64 },
}

impl View for Binary {
    type V = Number;

    open spec fn view(&self) -> Number {
        match *self {
            Binary::NotANumber => Number::NotANumber,
            Binary::Infinite { negative } => Number::Infinite { negative },
            Binary::Finite { negative, significand, exponent } => Number::Finite(
                signed(negative, (significand * pow2(exponent as nat)) as nat),
            ),
        }
    }
}

impl Binary {
    /// The significand is as long as the exponent allows.
    pub open spec fn well_formed(&self) -> bool {
        match *self {
            Binary::Finite { negative, significand, exponent } => {
                &&& significand < SIGNIFICAND_LIMIT
                &&& exponent <= EXPONENT_MOST
                &&& exponent > 0 ==> significand >= SIGNIFICAND_LEAST
            },
            _ => true,
        }
    }

    /// Takes a double apart.
    pub fn of(bits: u64) -> (binary: Binary)
        ensures
            binary.well_formed(),
            binary@ == number_of(bits),
    {
        let negative: bool = bits >= SIGN_BIT;
        let m: u64 = if negative {
            bits - SIGN_BIT
        } else {
            bits
        };
        if m > INFINITY_BITS {
            Binary::NotANumber
        } else if m == INFINITY_BITS {
            Binary::Infinite { negative }
        } else if m < EXPONENT_UNIT {
            Binary::Finite { negative, significand: m, exponent: 0 }
        } else {
            Binary::Finite {
                negative,
                significand: m % EXPONENT_UNIT + EXPONENT_UNIT,
                exponent: m / EXPONENT_UNIT - 1,
            }
        }
    }
}

/// What has at most 53 bits is not changed by rounding.
pub(crate) proof fn lemma_whole_is_kept(s: nat)
    requires
        s < 0x20_0000_0000_0000,
    ensures
        double_rounded(s) == s,
{
    assert(double_spacing(s) == 1);
    assert(s % 1 == 0 && s / 1 == s);
    assert(round_even(s, 1) == s);
    assert(s * 1 == s);
}

/// Doubling before and after rounding is the same.
proof fn lemma_rounded_twice(x: nat)
    ensures
        double_rounded(2 * x) == 2 * double_rounded(x),
{
    if 2 * x < 0x20_0000_0000_0000 {
        lemma_whole_is_kept(2 * x);
        lemma_whole_is_kept(x);
    } else {
        let spacing = double_spacing(x);
        lemma_spacing_positive(x);
        assert(double_spacing(2 * x) == 2 * spacing);
        let q = x / spacing;
        let r = x % spacing;
        lemma_fundamental_div_mod(x as int, spacing as int);
        assert(2 * x == q * (2 * spacing) + 2 * r) by (nonlinear_arith)
            requires
                x == spacing * q + r,
        ;
        lemma_fundamental_div_mod_converse(
            (2 * x) as int,
            (2 * spacing) as int,
            q as int,
            (2 * r) as int,
        );
        assert(round_even(2 * x, 2 * spacing) == round_even(x, spacing));
        let n = round_even(x, spacing);
        assert(n * (2 * spacing) == 2 * (n * spacing)) by (nonlinear_arith);
    }
}

pub(crate) proof fn lemma_spacing_positive(x: nat)
    ensures
        double_spacing(x) > 0,
    decreases x,
{
    if x >= 0x20_0000_0000_0000 {
        lemma_spacing_positive(x / 2);
    }
}

/// A power of two can be taken out of rounding.
pub(crate) proof fn lemma_rounded_scaled(x: nat, e: nat)
    ensures
        double_rounded(x * pow2(e)) == double_rounded(x) * pow2(e),
    decreases e,
{
    if e == 0 {
        vstd::arithmetic::power2::lemma2_to64();
        assert(x * pow2(0) == x);
        assert(double_rounded(x) * pow2(0) == double_rounded(x));
    } else {
        lemma_rounded_scaled(x, (e - 1) as nat);
        lemma_pow2_unfold(e);
        let half = pow2((e - 1) as nat);
        assert(x * pow2(e) == 2 * (x * half)) by (nonlinear_arith)
            requires
                pow2(e) == 2 * half,
        ;
        lemma_rounded_twice(x * half);
        let d = double_rounded(x);
        assert(d * pow2(e) == 2 * (d * half)) by (nonlinear_arith)
            requires
                pow2(e) == 2 * half,
        ;
    }
}

/// A number between two to the power of 52 and 53, times a power of two, is spaced by the power.
pub(crate) proof fn lemma_spacing_window(x: nat, e: nat)
    requires
        0x10_0000_0000_0000 * pow2(e) <= x < 0x20_0000_0000_0000 * pow2(e),
    ensures
        double_spacing(x) == pow2(e),
    decreases e,
{
    if e == 0 {
        vstd::arithmetic::power2::lemma2_to64();
    } else {
        lemma_pow2_unfold(e);
        let half = pow2((e - 1) as nat);
        lemma_pow2_pos((e - 1) as nat);
        assert(x >= 0x20_0000_0000_0000) by (nonlinear_arith)
            requires
                x >= 0x10_0000_0000_0000 * pow2(e),
                pow2(e) == 2 * half,
                half >= 1,
        ;
        assert(0x10_0000_0000_0000 * half <= x / 2 < 0x20_0000_0000_0000 * half);
        lemma_spacing_window(x / 2, (e - 1) as nat);
    }
}

/// What 53 bits hold is not changed by rounding.
pub(crate) proof fn lemma_short_is_kept(s: nat, e: nat)
    requires
        s < 0x20_0000_0000_0000,
    ensures
        double_rounded(s * pow2(e)) == s * pow2(e),
{
    lemma_rounded_scaled(s, e);
    lemma_whole_is_kept(s);
}

/// The spacing of doubles around a whole number, and its exponent.
fn spacing_with_exponent(x: u128) -> (found: (u128, u64))
    requires
        x < 0x4000_0000_0000_0000_0000_0000_0000_0000,
    ensures
        found.0 == double_spacing(x as nat),
        found.0 == pow2(found.1 as nat),
        0 < found.0,
        found.1 <= 75,
        x < 0x20_0000_0000_0000 * found.0,
        found.1 > 0 ==> 0x10_0000_0000_0000 * found.0 <= x,
{
    let mut spacing: u128 = 1;
    let mut exponent: u64 = 0;
    let mut rest: u128 = x;
    proof {
        vstd::arithmetic::power2::lemma2_to64();
        lemma_fundamental_div_mod(x as int, 1);
    }
    while rest >= 0x20_0000_0000_0000
        invariant
            x < 0x4000_0000_0000_0000_0000_0000_0000_0000,
            spacing == pow2(exponent as nat),
            rest * spacing <= x < (rest + 1) * spacing,
            spacing > 0,
            exponent <= 75,
            exponent > 0 ==> rest >= 0x10_0000_0000_0000,
            double_spacing(x as nat) == spacing * double_spacing(rest as nat),
        decreases rest,
    {
        proof {
            lemma_pow2_unfold((exponent + 1) as nat);
            assert(0x20_0000_0000_0000 * spacing <= x) by (nonlinear_arith)
                requires
                    rest * spacing <= x,
                    rest >= 0x20_0000_0000_0000,
                    spacing > 0,
            ;
            lemma_exponent_bound(exponent as nat, spacing as nat, x as nat);
            let d = double_spacing((rest / 2) as nat);
            assert(spacing * (2 * d) == (2 * spacing) * d) by (nonlinear_arith);
            let half = (rest / 2) as int;
            assert(half * (2 * spacing) <= x < (half + 1) * (2 * spacing)) by (nonlinear_arith)
                requires
                    rest * spacing <= x < (rest + 1) * spacing,
                    2 * half <= rest <= 2 * half + 1,
                    spacing > 0,
            ;
        }
        spacing = spacing * 2;
        exponent = exponent + 1;
        rest = rest / 2;
    }
    proof {
        assert(double_spacing(rest as nat) == 1);
        assert(spacing * double_spacing(rest as nat) == spacing) by (nonlinear_arith)
            requires
                double_spacing(rest as nat) == 1,
        ;
        assert(x < 0x20_0000_0000_0000 * spacing) by (nonlinear_arith)
            requires
                x < (rest + 1) * spacing,
                rest < 0x20_0000_0000_0000,
                spacing > 0,
        ;
        if exponent > 0 {
            assert(0x10_0000_0000_0000 * spacing <= x) by (nonlinear_arith)
                requires
                    rest * spacing <= x,
                    rest >= 0x10_0000_0000_0000,
                    spacing > 0,
            ;
        }
    }
    (spacing, exponent)
}

/// A quotient, shortened to at most 53 bits: the rounded quotient by its spacing, and the exponent
/// of the spacing.
pub(crate) fn shorten(n: u128, down: u128) -> (short: (u64, u64))
    requires
        n < 0x4000_0000_0000_0000_0000_0000_0000_0000,
        0 < down <= 0x20_0000_0000_0000,
    ensures
        short.0 <= SIGNIFICAND_LIMIT,
        short.1 <= 75,
        ({
            let spacing = double_spacing((n / down) as nat);
            short.0 * pow2(short.1 as nat) == round_even(n as nat, (down * spacing) as nat)
                * spacing
        }),
{
    let x: u128 = n / down;
    assert(x <= n) by (nonlinear_arith)
        requires
            x == n / down,
            down > 0,
    ;
    let (spacing, exponent): (u128, u64) = spacing_with_exponent(x);
    let ghost over = (n as int) % (down as int);
    proof {
        lemma_fundamental_div_mod(n as int, down as int);
        assert(n < 0x20_0000_0000_0000 * (down * spacing)) by (nonlinear_arith)
            requires
                n == down * x + over,
                0 <= over < down,
                x + 1 <= 0x20_0000_0000_0000 * spacing,
        ;
        assert(0 < down * spacing) by (nonlinear_arith)
            requires
                down > 0,
                spacing > 0,
        ;
        if exponent > 0 {
            assert(down * spacing <= n) by (nonlinear_arith)
                requires
                    n == down * x + over,
                    0 <= over,
                    0x10_0000_0000_0000 * spacing <= x,
                    down > 0,
                    spacing > 0,
            ;
        } else {
            vstd::arithmetic::power2::lemma2_to64();
            assert(spacing == 1);
            assert(down * 1 == down);
        }
    }
    let divisor: u128 = down * spacing;
    let q: u128 = round_even_to(n, divisor);
    proof {
        lemma_round_even_between(n as nat, divisor as nat, 0, 0x20_0000_0000_0000);
    }
    (q as u64, exponent)
}

proof fn lemma_exponent_bound(e: nat, spacing: nat, n: nat)
    requires
        spacing == pow2(e),
        0x20_0000_0000_0000 * spacing <= n,
        n < 0x4000_0000_0000_0000_0000_0000_0000_0000,
    ensures
        e < 75,
{
    if e >= 75 {
        vstd::arithmetic::power2::lemma2_to64_rest();
        lemma_pow2_adds(64, 11);
        vstd::arithmetic::power2::lemma2_to64();
        if e > 75 {
            lemma_pow2_strictly_increases(75, e);
        }
    }
}

/// The finite double with a significand and an exponent, or the infinity beyond.
fn compose(negative: bool, significand: u64, exponent: u64) -> (binary: Binary)
    requires
        significand <= SIGNIFICAND_LIMIT,
        exponent <= 5000,
    ensures
        binary.well_formed(),
        ({
            let units = significand * pow2(exponent as nat);
            binary@ == if units >= pow2(2098) {
                Number::Infinite { negative }
            } else {
                Number::Finite(signed(negative, units as nat))
            }
        }),
{
    let ghost units = significand * pow2(exponent as nat);
    let mut s: u64 = significand;
    let mut e: u64 = exponent;
    if s == SIGNIFICAND_LIMIT {
        s = SIGNIFICAND_LEAST;
        e = e + 1;
        proof {
            lemma_pow2_unfold(e as nat);
            let half = pow2(exponent as nat);
            assert(0x10_0000_0000_0000 * pow2(e as nat) == 0x20_0000_0000_0000 * half)
                by (nonlinear_arith)
                requires
                    pow2(e as nat) == 2 * half,
            ;
        }
    }
    if s == 0 {
        proof {
            lemma_zero(0, e as nat);
            lemma_zero(0, 0);
        }
        e = 0;
    }
    while s < SIGNIFICAND_LEAST && e > 0
        invariant
            s < SIGNIFICAND_LIMIT,
            s * pow2(e as nat) == units,
            e <= 5001,
        decreases e,
    {
        proof {
            lemma_pow2_unfold(e as nat);
            let half = pow2((e - 1) as nat);
            assert((2 * s) * half == s * pow2(e as nat)) by (nonlinear_arith)
                requires
                    pow2(e as nat) == 2 * half,
            ;
        }
        s = s * 2;
        e = e - 1;
    }
    proof {
        lemma_limit(s as nat, e as nat);
    }
    if e > EXPONENT_MOST {
        Binary::Infinite { negative }
    } else {
        Binary::Finite { negative, significand: s, exponent: e }
    }
}

/// Exactly the doubles with an exponent beyond the largest are too large.
proof fn lemma_limit(s: nat, e: nat)
    requires
        s < 0x20_0000_0000_0000,
        e > 0 ==> s >= 0x10_0000_0000_0000,
    ensures
        s * pow2(e) >= pow2(2098) <==> e > 2045,
{
    vstd::arithmetic::power2::lemma2_to64_rest();
    lemma_pow2_adds(52, 2046);
    lemma_pow2_adds(53, 2045);
    lemma_pow2_pos(e);
    if e > 2045 {
        if e > 2046 {
            lemma_pow2_strictly_increases(2046, e);
        }
        assert(s * pow2(e) >= 0x10_0000_0000_0000 * pow2(2046)) by (nonlinear_arith)
            requires
                s >= 0x10_0000_0000_0000,
                pow2(e) >= pow2(2046),
        ;
    } else {
        if e < 2045 {
            lemma_pow2_strictly_increases(e, 2045);
        }
        assert(s * pow2(e) < 0x20_0000_0000_0000 * pow2(2045)) by (nonlinear_arith)
            requires
                s < 0x20_0000_0000_0000,
                0 < pow2(e) <= pow2(2045),
        ;
    }
}

/// Of two doubles with whole significands the one with the larger exponent is larger, and for equal
/// exponents the one with the larger significand.
proof fn lemma_order(s1: nat, e1: nat, s2: nat, e2: nat)
    requires
        s1 < 0x20_0000_0000_0000,
        s2 < 0x20_0000_0000_0000,
        e1 > 0 ==> s1 >= 0x10_0000_0000_0000,
        e2 > 0 ==> s2 >= 0x10_0000_0000_0000,
    ensures
        s1 * pow2(e1) < s2 * pow2(e2) <==> (e1 < e2 || (e1 == e2 && s1 < s2)),
{
    lemma_pow2_pos(e1);
    lemma_pow2_pos(e2);
    if e1 < e2 {
        lemma_lower_exponent(s1, e1, s2, e2);
    } else if e2 < e1 {
        lemma_lower_exponent(s2, e2, s1, e1);
    } else {
        let p = pow2(e1);
        if s1 < s2 {
            assert(s1 * p < s2 * p) by (nonlinear_arith)
                requires
                    s1 < s2,
                    p > 0,
            ;
        } else {
            assert(s1 * p >= s2 * p) by (nonlinear_arith)
                requires
                    s1 >= s2,
                    p > 0,
            ;
        }
    }
}

proof fn lemma_lower_exponent(s1: nat, e1: nat, s2: nat, e2: nat)
    requires
        s1 < 0x20_0000_0000_0000,
        s2 >= 0x10_0000_0000_0000,
        e1 < e2,
    ensures
        s1 * pow2(e1) < s2 * pow2(e2),
{
    lemma_pow2_pos(e1);
    lemma_pow2_unfold(e1 + 1);
    if e1 + 1 < e2 {
        lemma_pow2_strictly_increases(e1 + 1, e2);
    }
    let p = pow2(e1);
    let q = pow2(e2);
    assert(s1 * p < s2 * q) by (nonlinear_arith)
        requires
            s1 < 0x20_0000_0000_0000,
            s2 >= 0x10_0000_0000_0000,
            q >= 2 * p,
            p > 0,
    ;
}

impl Binary {
    /// Whether this double is less than the other.
    pub fn below(&self, other: &Binary) -> (yes: bool)
        requires
            self.well_formed(),
            other.well_formed(),
        ensures
            yes == less(self@, other@),
    {
        match (*self, *other) {
            (Binary::NotANumber, _) => false,
            (_, Binary::NotANumber) => false,
            (Binary::Infinite { negative: x }, Binary::Infinite { negative: y }) => x && !y,
            (Binary::Infinite { negative }, _) => negative,
            (_, Binary::Infinite { negative }) => !negative,
            (
                Binary::Finite { negative: n1, significand: s1, exponent: e1 },
                Binary::Finite { negative: n2, significand: s2, exponent: e2 },
            ) => {
                proof {
                    lemma_order(s1 as nat, e1 as nat, s2 as nat, e2 as nat);
                    lemma_order(s2 as nat, e2 as nat, s1 as nat, e1 as nat);
                    lemma_zero(s1 as nat, e1 as nat);
                    lemma_zero(s2 as nat, e2 as nat);
                }
                if n1 && n2 {
                    e2 < e1 || (e2 == e1 && s2 < s1)
                } else if n1 {
                    s1 > 0 || s2 > 0
                } else if n2 {
                    false
                } else {
                    e1 < e2 || (e1 == e2 && s1 < s2)
                }
            },
        }
    }
}

impl Binary {
    /// Whether this double is zero or less.
    pub fn is_not_positive(&self) -> (yes: bool)
        requires
            self.well_formed(),
        ensures
            yes == not_positive(self@),
    {
        match *self {
            Binary::NotANumber => false,
            Binary::Infinite { negative } => negative,
            Binary::Finite { negative, significand, exponent } => {
                proof {
                    lemma_zero(significand as nat, exponent as nat);
                }
                negative || significand == 0
            },
        }
    }
}

/// Far apart doubles: the smaller one is lost in the sum.
proof fn lemma_far_sum(s1: nat, e1: nat, y: nat)
    requires
        0x10_0000_0000_0000 <= s1 < 0x20_0000_0000_0000,
        4 * y < pow2(e1),
    ensures
        double_rounded(s1 * pow2(e1) + y) == s1 * pow2(e1),
{
    let p = pow2(e1);
    let x = s1 * p + y;
    assert(0x10_0000_0000_0000 * p <= x < 0x20_0000_0000_0000 * p) by (nonlinear_arith)
        requires
            x == s1 * p + y,
            0x10_0000_0000_0000 <= s1 < 0x20_0000_0000_0000,
            4 * y < p,
    ;
    lemma_spacing_window(x, e1);
    lemma_fundamental_div_mod_converse(x as int, p as int, s1 as int, y as int);
}

/// Far apart doubles: the smaller one is lost in the difference.
proof fn lemma_far_difference(s1: nat, e1: nat, y: nat)
    requires
        0x10_0000_0000_0000 <= s1 < 0x20_0000_0000_0000,
        e1 > 0,
        4 * y < pow2(e1),
    ensures
        s1 * pow2(e1) > y,
        double_rounded((s1 * pow2(e1) - y) as nat) == s1 * pow2(e1),
{
    let p = pow2(e1);
    assert(s1 * p >= 0x10_0000_0000_0000 * p) by (nonlinear_arith)
        requires
            s1 >= 0x10_0000_0000_0000,
    ;
    let x = (s1 * p - y) as nat;
    if y == 0 {
        lemma_short_is_kept(s1, e1);
    } else if s1 > 0x10_0000_0000_0000 {
        assert(0x10_0000_0000_0000 * p <= x < 0x20_0000_0000_0000 * p) by (nonlinear_arith)
            requires
                x == s1 * p - y,
                0x10_0000_0000_0001 <= s1 < 0x20_0000_0000_0000,
                0 < y,
                4 * y < p,
        ;
        lemma_spacing_window(x, e1);
        assert(x == (s1 - 1) * p + (p - y)) by (nonlinear_arith)
            requires
                x == s1 * p - y,
        ;
        lemma_fundamental_div_mod_converse(x as int, p as int, s1 - 1, p - y);
    } else {
        lemma_pow2_unfold(e1);
        let half = pow2((e1 - 1) as nat);
        assert(0x10_0000_0000_0000 * half <= x < 0x20_0000_0000_0000 * half) by (nonlinear_arith)
            requires
                x == 0x10_0000_0000_0000 * p - y,
                p == 2 * half,
                0 < y,
                4 * y < p,
        ;
        lemma_spacing_window(x, (e1 - 1) as nat);
        assert(x == 0x1F_FFFF_FFFF_FFFF * half + (half - y)) by (nonlinear_arith)
            requires
                x == 0x10_0000_0000_0000 * p - y,
                p == 2 * half,
        ;
        lemma_fundamental_div_mod_converse(
            x as int,
            half as int,
            0x1F_FFFF_FFFF_FFFF,
            half - y,
        );
        assert(round_even(x, half) == 0x20_0000_0000_0000);
        assert(0x20_0000_0000_0000 * half == s1 * p) by (nonlinear_arith)
            requires
                s1 == 0x10_0000_0000_0000,
                p == 2 * half,
        ;
    }
}

/// A double that is more than sixty exponents lower is far below.
proof fn lemma_far(s2: nat, e2: nat, e1: nat)
    requires
        s2 < 0x20_0000_0000_0000,
        e2 + 60 < e1,
    ensures
        4 * (s2 * pow2(e2)) < pow2(e1),
{
    lemma_pow2_pos(e2);
    lemma_pow2_adds(e2, 60);
    vstd::arithmetic::power2::lemma2_to64_rest();
    lemma_pow2_strictly_increases(e2 + 60, e1);
    let p = pow2(e2);
    assert(4 * (s2 * p) < p * 0x1000_0000_0000_0000) by (nonlinear_arith)
        requires
            s2 < 0x20_0000_0000_0000,
            p > 0,
    ;
}

/// The sum or difference of two sizes, the first of which is the larger one, rounded. Both are
/// given by significand and exponent.
fn combine(negative: bool, subtract: bool, s1: u64, e1: u64, s2: u64, e2: u64) -> (binary: Binary)
    requires
        s1 < SIGNIFICAND_LIMIT,
        s2 < SIGNIFICAND_LIMIT,
        e2 <= e1 <= EXPONENT_MOST,
        e1 > 0 ==> s1 >= SIGNIFICAND_LEAST,
        subtract ==> s1 * pow2(e1 as nat) >= s2 * pow2(e2 as nat),
    ensures
        binary.well_formed(),
        ({
            let x = s1 * pow2(e1 as nat);
            let y = s2 * pow2(e2 as nat);
            let n = if subtract {
                x - y
            } else {
                x + y
            };
            let m = double_rounded(n as nat);
            binary@ == if m >= pow2(2098) {
                Number::Infinite { negative }
            } else {
                Number::Finite(signed(negative, m))
            }
        }),
{
    let ghost x = s1 * pow2(e1 as nat);
    let ghost y = s2 * pow2(e2 as nat);
    let gap: u64 = e1 - e2;
    if gap > 60 {
        proof {
            lemma_far(s2 as nat, e2 as nat, e1 as nat);
            if subtract {
                lemma_far_difference(s1 as nat, e1 as nat, y as nat);
            } else {
                lemma_far_sum(s1 as nat, e1 as nat, y as nat);
            }
        }
        return compose(negative, s1, e1);
    }
    let power: u128 = power_of_two(gap);
    let ghost low = pow2(e2 as nat);
    proof {
        lemma_pow2_adds(gap as nat, e2 as nat);
        lemma_pow2_pos(e2 as nat);
        assert(s1 * power <= 0x20_0000_0000_0000 * 0x8000_0000_0000_0000) by (nonlinear_arith)
            requires
                s1 < 0x20_0000_0000_0000,
                0 <= power <= 0x8000_0000_0000_0000,
        ;
        assert((s1 * power) * low == x) by (nonlinear_arith)
            requires
                x == s1 * (power * low),
        ;
        if subtract {
            assert(s1 * power >= s2) by (nonlinear_arith)
                requires
                    (s1 * power) * low >= s2 * low,
                    low > 0,
            ;
        }
    }
    let wide: u128 = s1 as u128 * power;
    let n: u128 = if subtract {
        wide - s2 as u128
    } else {
        wide + s2 as u128
    };
    proof {
        if subtract {
            assert(n * low == x - y) by (nonlinear_arith)
                requires
                    n == wide - s2,
                    wide * low == x,
                    y == s2 * low,
            ;
        } else {
            assert(n * low == x + y) by (nonlinear_arith)
                requires
                    n == wide + s2,
                    wide * low == x,
                    y == s2 * low,
            ;
        }
        lemma_rounded_scaled(n as nat, e2 as nat);
    }
    let (q, k): (u64, u64) = shorten(n, 1);
    proof {
        lemma_pow2_adds(k as nat, e2 as nat);
        let a = pow2(k as nat);
        assert((q * a) * low == q * (a * low)) by (nonlinear_arith);
    }
    compose(negative, q, k + e2)
}

impl Binary {
    /// The sum of this double and the other.
    pub fn plus(&self, other: &Binary) -> (total: Binary)
        requires
            self.well_formed(),
            other.well_formed(),
        ensures
            total.well_formed(),
            total@ == sum(self@, other@),
    {
        match (*self, *other) {
            (Binary::NotANumber, _) => Binary::NotANumber,
            (_, Binary::NotANumber) => Binary::NotANumber,
            (Binary::Infinite { negative: x }, Binary::Infinite { negative: y }) => if x == y {
                *self
            } else {
                Binary::NotANumber
            },
            (Binary::Infinite { .. }, _) => *self,
            (_, Binary::Infinite { .. }) => *other,
            (
                Binary::Finite { negative: n1, significand: s1, exponent: e1 },
                Binary::Finite { negative: n2, significand: s2, exponent: e2 },
            ) => {
                let first_larger: bool = e1 > e2 || (e1 == e2 && s1 >= s2);
                proof {
                    lemma_order(s1 as nat, e1 as nat, s2 as nat, e2 as nat);
                    lemma_zero(s1 as nat, e1 as nat);
                    lemma_zero(s2 as nat, e2 as nat);
                    lemma_whole_is_kept(0);
                    lemma_pow2_pos(2098);
                }
                let subtract: bool = n1 != n2;
                if first_larger {
                    combine(n1, subtract, s1, e1, s2, e2)
                } else {
                    combine(n2, subtract, s2, e2, s1, e1)
                }
            },
        }
    }
}

/// A factor in both the number and the divisor can be taken out of rounding.
pub(crate) proof fn lemma_round_even_scaled(a: nat, b: nat, c: nat)
    requires
        b > 0,
        c > 0,
    ensures
        round_even(c * a, c * b) == round_even(a, b),
{
    let q = a / b;
    let r = a % b;
    lemma_fundamental_div_mod(a as int, b as int);
    assert(c * a == q * (c * b) + c * r) by (nonlinear_arith)
        requires
            a == b * q + r,
    ;
    assert(0 <= c * r < c * b) by (nonlinear_arith)
        requires
            0 <= r < b,
            c > 0,
    ;
    assert(c * b > 0) by (nonlinear_arith)
        requires
            b > 0,
            c > 0,
    ;
    lemma_fundamental_div_mod_converse((c * a) as int, (c * b) as int, q as int, (c * r) as int);
    assert(2 * (c * r) < c * b <==> 2 * r < b) by (nonlinear_arith)
        requires
            c > 0,
    ;
    assert(2 * (c * r) == c * b <==> 2 * r == b) by (nonlinear_arith)
        requires
            c > 0,
    ;
}

/// The share of a double with a high exponent: the exact product of significands, rounded.
proof fn lemma_high_share(steps: nat, s: nat, e: nat)
    requires
        e >= 53,
    ensures
        share_units(steps, s * pow2(e)) == double_rounded(steps * s) * pow2((e - 53) as nat),
{
    vstd::arithmetic::power2::lemma2_to64_rest();
    let low = pow2((e - 53) as nat);
    lemma_pow2_adds(53, (e - 53) as nat);
    lemma_pow2_pos((e - 53) as nat);
    let x = (steps * s) * low;
    let p = steps * (s * pow2(e));
    assert(p == 0x20_0000_0000_0000 * x) by (nonlinear_arith)
        requires
            p == steps * (s * pow2(e)),
            pow2(e) == 0x20_0000_0000_0000 * low,
            x == (steps * s) * low,
    ;
    assert(p / 0x20_0000_0000_0000 == x);
    lemma_spacing_positive(x);
    lemma_round_even_scaled(x, double_spacing(x), 0x20_0000_0000_0000);
    lemma_rounded_scaled(steps * s, (e - 53) as nat);
}

/// The share of a double with a low exponent: the exact product of significands, divided and
/// rounded at once.
proof fn lemma_low_share(steps: nat, s: nat, e: nat, down: nat)
    requires
        e < 53,
        down == pow2((53 - e) as nat),
    ensures
        share_units(steps, s * pow2(e)) == round_even(
            steps * s,
            down * double_spacing((steps * s) / down),
        ) * double_spacing((steps * s) / down),
        down > 0,
{
    vstd::arithmetic::power2::lemma2_to64_rest();
    lemma_pow2_adds(e, (53 - e) as nat);
    lemma_pow2_pos(e);
    lemma_pow2_pos((53 - e) as nat);
    let up = pow2(e);
    let w = steps * s;
    let p = steps * (s * up);
    assert(p == up * w) by (nonlinear_arith)
        requires
            p == steps * (s * up),
            w == steps * s,
    ;
    assert(up * down == 0x20_0000_0000_0000);
    let x = w / down;
    lemma_fundamental_div_mod(w as int, down as int);
    let over = w % down;
    assert(p == x * 0x20_0000_0000_0000 + up * over) by (nonlinear_arith)
        requires
            p == up * w,
            w == down * x + over,
            up * down == 0x20_0000_0000_0000,
    ;
    assert(0 <= up * over < 0x20_0000_0000_0000) by (nonlinear_arith)
        requires
            0 <= over < down,
            up > 0,
            up * down == 0x20_0000_0000_0000,
    ;
    lemma_fundamental_div_mod_converse(
        p as int,
        0x20_0000_0000_0000,
        x as int,
        (up * over) as int,
    );
    lemma_spacing_positive(x);
    let spacing = double_spacing(x);
    assert(up * (down * spacing) == 0x20_0000_0000_0000 * spacing) by (nonlinear_arith)
        requires
            up * down == 0x20_0000_0000_0000,
    ;
    assert(down * spacing > 0) by (nonlinear_arith)
        requires
            down > 0,
            spacing > 0,
    ;
    lemma_round_even_scaled(w, down * spacing, up);
}

impl Binary {
    /// `steps` of 2^-53 of this double.
    pub fn part(&self, steps: u64) -> (part: Binary)
        requires
            self.well_formed(),
            steps < SIGNIFICAND_LIMIT,
        ensures
            part.well_formed(),
            part@ == share(steps as nat, self@),
    {
        match *self {
            Binary::NotANumber => Binary::NotANumber,
            Binary::Infinite { .. } => if steps == 0 {
                Binary::NotANumber
            } else {
                *self
            },
            Binary::Finite { negative, significand, exponent } => {
                let ghost units = significand * pow2(exponent as nat);
                proof {
                    lemma_zero(significand as nat, exponent as nat);
                    assert(steps * significand < 0x20_0000_0000_0000 * 0x20_0000_0000_0000)
                        by (nonlinear_arith)
                        requires
                            0 <= steps < 0x20_0000_0000_0000,
                            0 <= significand < 0x20_0000_0000_0000,
                    ;
                    lemma_share_fits(steps as nat, significand as nat, exponent as nat);
                    lemma_share_of_nothing(steps as nat);
                }
                let product: u128 = steps as u128 * significand as u128;
                if exponent >= 53 {
                    let (q, k): (u64, u64) = shorten(product, 1);
                    proof {
                        lemma_high_share(steps as nat, significand as nat, exponent as nat);
                        lemma_pow2_adds(k as nat, (exponent - 53) as nat);
                        let a = pow2(k as nat);
                        let low = pow2((exponent - 53) as nat);
                        assert((q * a) * low == q * (a * low)) by (nonlinear_arith);
                    }
                    compose(negative, q, k + (exponent - 53))
                } else {
                    let down: u128 = power_of_two(53 - exponent);
                    proof {
                        vstd::arithmetic::power2::lemma2_to64_rest();
                        lemma_pow2_pos((53 - exponent) as nat);
                        if exponent > 0 {
                            lemma_pow2_strictly_increases((53 - exponent) as nat, 53);
                        }
                    }
                    let (q, k): (u64, u64) = shorten(product, down);
                    proof {
                        lemma_low_share(
                            steps as nat,
                            significand as nat,
                            exponent as nat,
                            down as nat,
                        );
                    }
                    compose(negative, q, k)
                }
            },
        }
    }
}

/// The share of nothing is nothing.
proof fn lemma_share_of_nothing(steps: nat)
    ensures
        share_units(steps, 0) == 0,
{
    let p = steps * 0;
    assert(p == 0);
    assert(double_spacing(0) == 1);
    assert(round_even(0, 0x20_0000_0000_0000) == 0);
}

/// The spacing below a power of two is a lower power.
proof fn lemma_spacing_power(x: nat, e: nat) -> (j: nat)
    requires
        x < 0x20_0000_0000_0000 * pow2(e),
    ensures
        j <= e,
        double_spacing(x) == pow2(j),
    decreases e,
{
    vstd::arithmetic::power2::lemma2_to64();
    if x < 0x20_0000_0000_0000 {
        0
    } else {
        if e == 0 {
            assert(false);
        }
        lemma_pow2_unfold(e);
        let j = lemma_spacing_power(x / 2, (e - 1) as nat);
        lemma_pow2_unfold(j + 1);
        j + 1
    }
}

/// A share is at most the whole.
proof fn lemma_share_at_most(steps: nat, s: nat, e: nat)
    requires
        steps < 0x20_0000_0000_0000,
        s < 0x20_0000_0000_0000,
    ensures
        share_units(steps, s * pow2(e)) <= s * pow2(e),
{
    let n = s * pow2(e);
    let p = steps * n;
    lemma_pow2_pos(e);
    assert(p <= 0x20_0000_0000_0000 * n) by (nonlinear_arith)
        requires
            p == steps * n,
            steps < 0x20_0000_0000_0000,
            n >= 0,
    ;
    let x = p / 0x20_0000_0000_0000;
    assert(x <= n);
    assert(n < 0x20_0000_0000_0000 * pow2(e)) by (nonlinear_arith)
        requires
            n == s * pow2(e),
            s < 0x20_0000_0000_0000,
            pow2(e) > 0,
    ;
    let j = lemma_spacing_power(x, e);
    let spacing = pow2(j);
    lemma_pow2_pos(j);
    lemma_pow2_adds(j, (e - j) as nat);
    let h = s * pow2((e - j) as nat);
    assert(n == h * spacing) by (nonlinear_arith)
        requires
            n == s * pow2(e),
            pow2(e) == spacing * pow2((e - j) as nat),
            h == s * pow2((e - j) as nat),
    ;
    let divisor = 0x20_0000_0000_0000 * spacing;
    assert(p <= h * divisor) by (nonlinear_arith)
        requires
            p <= 0x20_0000_0000_0000 * n,
            n == h * spacing,
            divisor == 0x20_0000_0000_0000 * spacing,
    ;
    lemma_round_even_between(p, divisor, 0, h);
    let q = round_even(p, divisor);
    assert(q * spacing <= h * spacing) by (nonlinear_arith)
        requires
            q <= h,
            spacing > 0,
    ;
}

/// A share is never too large.
proof fn lemma_share_fits(steps: nat, s: nat, e: nat)
    requires
        steps < 0x20_0000_0000_0000,
        s < 0x20_0000_0000_0000,
        e <= 2045,
    ensures
        share_units(steps, s * pow2(e)) < pow2(2098),
{
    let n = s * pow2(e);
    let limit = 0x20_0000_0000_0000nat;
    lemma_share_at_most(steps, s, e);
    lemma_pow2_pos(e);
    if e < 2045 {
        lemma_pow2_strictly_increases(e, 2045);
    }
    lemma_pow2_adds(53, 2045);
    vstd::arithmetic::power2::lemma2_to64_rest();
    assert(n < limit * pow2(2045)) by (nonlinear_arith)
        requires
            n == s * pow2(e),
            s < limit,
            0 < pow2(e) <= pow2(2045),
    ;
}

/// A double is zero exactly if its significand is.
proof fn lemma_zero(s: nat, e: nat)
    ensures
        s * pow2(e) == 0 <==> s == 0,
        s * pow2(e) >= 0,
{
    lemma_pow2_pos(e);
    let p = pow2(e);
    assert(s * p == 0 <==> s == 0) by (nonlinear_arith)
        requires
            p > 0,
    ;
}

/// A number is less than 53 bits of its spacing.
pub(crate) proof fn lemma_spacing_reaches(x: nat)
    ensures
        x < 0x20_0000_0000_0000 * double_spacing(x),
    decreases x,
{
    if x >= 0x20_0000_0000_0000 {
        lemma_spacing_reaches(x / 2);
    }
}

/// A spacing is a power of two.
pub(crate) proof fn lemma_spacing_exponent(x: nat) -> (k: nat)
    ensures
        double_spacing(x) == pow2(k),
    decreases x,
{
    if x < 0x20_0000_0000_0000 {
        vstd::arithmetic::power2::lemma2_to64();
        0
    } else {
        let k = lemma_spacing_exponent(x / 2);
        lemma_pow2_unfold(k + 1);
        k + 1
    }
}

/// A double can hold a number of units: its bits, from the first to the last that is set, are at
/// most 53.
pub open spec fn is_held(units: nat) -> bool {
    double_rounded(units) == units
}

/// What was rounded is held by a double, so that rounding again changes nothing.
pub proof fn rounding_is_idempotent(x: nat)
    ensures
        is_held(double_rounded(x)),
{
    let k = lemma_spacing_exponent(x);
    lemma_pow2_pos(k);
    let q = round_even(x, pow2(k));
    lemma_spacing_reaches(x);
    lemma_round_even_between(x, pow2(k), 0, 0x20_0000_0000_0000);
    if q < 0x20_0000_0000_0000 {
        lemma_short_is_kept(q, k);
    } else {
        lemma_pow2_unfold(k + 1);
        assert(0x20_0000_0000_0000 * pow2(k) == 0x10_0000_0000_0000 * pow2(k + 1))
            by (nonlinear_arith)
            requires
                pow2(k + 1) == 2 * pow2(k),
        ;
        lemma_short_is_kept(0x10_0000_0000_0000, k + 1);
    }
}

/// Every double's units are held by a double.
pub proof fn doubles_are_held(bits: u64)
    ensures
        number_of(bits) matches Number::Finite(n) ==> is_held(size(n)),
{
    if number_of(bits) is Finite {
        let e = (raised_exponent(bits) - 1) as nat;
        lemma_short_is_kept(significand(bits), e);
        lemma_zero(significand(bits), e);
    }
}

/// The units of a finite double are below the limit.
pub proof fn finite_doubles_are_limited(bits: u64)
    ensures
        number_of(bits) matches Number::Finite(n) ==> size(n) < pow2(2098),
{
    if number_of(bits) is Finite {
        let e = (raised_exponent(bits) - 1) as nat;
        lemma_zero(significand(bits), e);
        lemma_limit(significand(bits), e);
    }
}

/// The sum with zero is the other number.
pub proof fn adding_zero_changes_nothing(n: int)
    requires
        is_held(size(n)),
        size(n) < pow2(2098),
    ensures
        sum(Number::Finite(n), Number::Finite(0)) == Number::Finite(n),
{
}

/// A share of a positive double that is not among the tiniest is less than the whole, although it
/// is rounded.
pub proof fn shares_are_less_than_the_whole(steps: nat, units: nat)
    requires
        steps < 0x20_0000_0000_0000,
        is_held(units),
        units >= 0x20_0000_0000_0000,
    ensures
        share_units(steps, units) < units,
{
    let limit = 0x20_0000_0000_0000nat;
    let t = units;
    let k = lemma_spacing_exponent(t);
    let whole = pow2(k);
    lemma_pow2_pos(k);
    let q = t / whole;
    lemma_fundamental_div_mod(t as int, whole as int);
    let n = round_even(t, whole);
    assert(t == n * whole);
    assert((n * whole) % whole == 0) by {
        vstd::arithmetic::div_mod::lemma_mod_multiples_basic(n as int, whole as int);
    }
    assert(t == q * whole) by (nonlinear_arith)
        requires
            t == whole * q,
    ;
    lemma_spacing_reaches(t);
    assert(q < limit) by (nonlinear_arith)
        requires
            q * whole < limit * whole,
            whole > 0,
    ;
    lemma_spacing_least(t);
    assert(q >= 0x10_0000_0000_0000) by (nonlinear_arith)
        requires
            q * whole >= 0x10_0000_0000_0000 * whole,
            whole > 0,
    ;
    assert(k > 0) by {
        if k == 0 {
            vstd::arithmetic::power2::lemma2_to64();
        }
    }
    lemma_pow2_unfold(k);
    let half = pow2((k - 1) as nat);
    lemma_pow2_pos((k - 1) as nat);
    let p = steps * t;
    assert(p <= (limit - 1) * t) by (nonlinear_arith)
        requires
            p == steps * t,
            steps <= limit - 1,
            t >= 0,
    ;
    let x = p / limit;
    if q > 0x10_0000_0000_0000 && x >= 0x10_0000_0000_0000 * whole {
        assert(x < limit * whole) by (nonlinear_arith)
            requires
                x * limit <= p,
                p <= (limit - 1) * t,
                t < limit * whole,
                limit > 0,
        ;
        lemma_spacing_window(x, k);
        let divisor = limit * whole;
        lemma_just_below(p, q, divisor, whole);
        assert(round_even(p, divisor) * whole < q * whole) by (nonlinear_arith)
            requires
                round_even(p, divisor) < q,
                whole > 0,
        ;
    } else {
        // The share is at most `bound`, which a double holds and which is less than the whole.
        let most = if q > 0x10_0000_0000_0000 {
            limit
        } else {
            (limit - 1) as nat
        };
        let bound = most * half;
        assert(bound < t) by (nonlinear_arith)
            requires
                t == q * whole,
                whole == 2 * half,
                bound == most * half,
                half > 0,
                q >= 0x10_0000_0000_0000,
                q > 0x10_0000_0000_0000 ==> most == limit,
                q == 0x10_0000_0000_0000 ==> most == limit - 1,
                limit == 0x20_0000_0000_0000,
        ;
        assert(p <= bound * limit) by {
            if q > 0x10_0000_0000_0000 {
                assert(x < limit * half) by (nonlinear_arith)
                    requires
                        x < 0x10_0000_0000_0000 * whole,
                        whole == 2 * half,
                        limit == 0x20_0000_0000_0000,
                ;
                assert(p < (x + 1) * limit);
                assert((x + 1) * limit <= bound * limit) by (nonlinear_arith)
                    requires
                        x + 1 <= bound,
                        limit > 0,
                ;
            } else {
                assert((limit - 1) * t == bound * limit) by (nonlinear_arith)
                    requires
                        t == 0x10_0000_0000_0000 * (2 * half),
                        bound == (limit - 1) * half,
                        limit == 0x20_0000_0000_0000,
                ;
            }
        }
        assert(x < limit * half) by {
            if q == 0x10_0000_0000_0000 {
                assert(x <= bound) by (nonlinear_arith)
                    requires
                        x * limit <= p,
                        p <= bound * limit,
                        limit > 0,
                ;
                assert(bound < limit * half) by (nonlinear_arith)
                    requires
                        bound == (limit - 1) * half,
                        half > 0,
                ;
            }
        }
        let j = lemma_spacing_power(x, (k - 1) as nat);
        let spacing = pow2(j);
        lemma_pow2_pos(j);
        lemma_pow2_adds(j, (k - 1 - j) as nat);
        let h = most * pow2((k - 1 - j) as nat);
        assert(bound == h * spacing) by (nonlinear_arith)
            requires
                bound == most * half,
                half == spacing * pow2((k - 1 - j) as nat),
                h == most * pow2((k - 1 - j) as nat),
        ;
        let divisor = limit * spacing;
        assert(p <= h * divisor) by (nonlinear_arith)
            requires
                p <= bound * limit,
                bound == h * spacing,
                divisor == limit * spacing,
        ;
        lemma_round_even_between(p, divisor, 0, h);
        assert(round_even(p, divisor) * spacing <= h * spacing) by (nonlinear_arith)
            requires
                round_even(p, divisor) <= h,
                spacing > 0,
        ;
    }
}

/// A number of at least 53 bits has at least 52 bits of its spacing.
pub(crate) proof fn lemma_spacing_least(x: nat)
    requires
        x >= 0x20_0000_0000_0000,
    ensures
        x >= 0x10_0000_0000_0000 * double_spacing(x),
        double_spacing(x) >= 2,
    decreases x,
{
    if x / 2 >= 0x20_0000_0000_0000 {
        lemma_spacing_least(x / 2);
    } else {
        assert(double_spacing(x / 2) == 1);
        assert(double_spacing(x) == 2);
    }
}

/// A product that misses `q` divisors by more than half a divisor rounds to less than `q`.
proof fn lemma_just_below(p: nat, q: nat, divisor: nat, whole: nat)
    requires
        q > 0x10_0000_0000_0000,
        whole > 0,
        divisor == 0x20_0000_0000_0000 * whole,
        p <= 0x1F_FFFF_FFFF_FFFF * (q * whole),
    ensures
        round_even(p, divisor) < q,
{
    let a = p / divisor;
    let r = p % divisor;
    lemma_fundamental_div_mod(p as int, divisor as int);
    assert(0x1F_FFFF_FFFF_FFFF * (q * whole) == q * divisor - q * whole) by (nonlinear_arith)
        requires
            divisor == 0x20_0000_0000_0000 * whole,
    ;
    assert(2 * (q * whole) > divisor) by (nonlinear_arith)
        requires
            divisor == 0x20_0000_0000_0000 * whole,
            q > 0x10_0000_0000_0000,
            whole > 0,
    ;
    assert(a < q) by (nonlinear_arith)
        requires
            p == divisor * a + r,
            r >= 0,
            p <= q * divisor - q * whole,
            q * whole > 0,
            divisor > 0,
    ;
    if a == q - 1 {
        assert(2 * r < divisor) by (nonlinear_arith)
            requires
                p == divisor * a + r,
                a == q - 1,
                p <= q * divisor - q * whole,
                2 * (q * whole) > divisor,
        ;
    }
}

} // verus!
