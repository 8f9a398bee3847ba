//! Quotients of doubles, rounded as the hardware rounds them.
//!
//! A double is again a whole number of units of 2^-1074. Here all doubles are positive and far from
//! the ends of their range.
use crate::binary::{
    lemma_round_even_scaled, lemma_rounded_scaled, lemma_short_is_kept, lemma_spacing_least,
    lemma_spacing_positive, lemma_spacing_window, lemma_whole_is_kept, rounding_is_idempotent,
    shorten, SIGNIFICAND_LEAST, SIGNIFICAND_LIMIT,
};
use crate::double::{
    double_rounded, double_spacing, lemma_round_even_between, power_of_two, round_even,
    round_even_to,
};
use vstd::arithmetic::div_mod::{lemma_fundamental_div_mod, lemma_fundamental_div_mod_converse};
use vstd::arithmetic::power2::{
    lemma_pow2_adds, lemma_pow2_pos, lemma_pow2_strictly_increases, lemma_pow2_unfold, pow2,
};
use vstd::prelude::*;

verus! {

/// Nanoseconds in a second.
pub const SECOND: u64 = 1_000_000_000;

/// The units that make up one.
pub open spec fn one() -> nat {
    pow2(1074)
}

/// The double nearest to `p / q` units.
pub open spec fn rounded_ratio(p: nat, q: nat) -> nat {
    let spacing = double_spacing(p / q);
    round_even(p, q * spacing) * spacing
}

/// The double nearest to a whole number.
pub open spec fn whole(n: nat) -> nat {
    double_rounded(n) * one()
}

/// The quotient of two doubles.
pub open spec fn quotient(a: nat, b: nat) -> nat {
    rounded_ratio(a * one(), b)
}

/// A duration in seconds as a double: its whole seconds, plus the quotient of the nanoseconds that
/// are left.
pub open spec fn seconds(nanos: nat) -> nat {
    double_rounded(
        whole(nanos / SECOND as nat) + quotient(
            whole(nanos % SECOND as nat),
            whole(SECOND as nat),
        ),
    )
}

/// A double cut down to a whole number.
pub open spec fn floor_of(units: nat) -> nat {
    units / one()
}

/// A double brought up to a whole number.
pub open spec fn ceiling_of(units: nat) -> nat {
    if units % one() == 0 {
        units / one()
    } else {
        units / one() + 1
    }
}

/// The whole number nearest to a double, the even one half way.
pub open spec fn nearest_of(units: nat) -> nat {
    round_even(units, one())
}

/// A number, or the largest that fits.
pub open spec fn capped(n: nat, most: nat) -> nat {
    if n <= most {
        n
    } else {
        most
    }
}

/// A positive double: its significand times two to its exponent, in units of 2^-1074.
#[derive(Clone, Copy, PartialEq, Eq, Structural, Debug)]
pub struct Positive {
    pub significand: u64,
    pub exponent: u64,
}

impl View for Positive {
    type V = nat;

    open spec fn view(&self) -> nat {
        (self.significand * pow2(self.exponent as nat)) as nat
    }
}

proof fn lemma_rounded_is_positive(m: nat)
    requires
        m > 0,
    ensures
        double_rounded(m) > 0,
{
    if m < 0x20_0000_0000_0000 {
        lemma_whole_is_kept(m);
    } else {
        lemma_spacing_least(m);
        let spacing = double_spacing(m);
        assert(1 * spacing <= m <= m * spacing) by (nonlinear_arith)
            requires
                m >= 0x10_0000_0000_0000 * spacing,
                spacing >= 2,
        ;
        lemma_round_even_between(m, spacing, 1, m);
        let n = round_even(m, spacing);
        assert(n * spacing > 0) by (nonlinear_arith)
            requires
                n >= 1,
                spacing >= 2,
        ;
    }
}

/// The double nearest to `m` times a power of two.
fn rounded(m: u128, exponent: u64) -> (double: Positive)
    requires
        0 < m < 0x4000_0000_0000_0000_0000_0000_0000_0000,
        200 <= exponent <= 1800,
    ensures
        double.well_formed(),
        double@ == double_rounded(m as nat) * pow2(exponent as nat),
        exponent - 52 <= double.exponent <= exponent + 76,
{
    let (first, shift): (u64, u64) = shorten(m, 1);
    let ghost goal = double_rounded(m as nat);
    let mut significand: u64 = first;
    let mut e: u64 = exponent + shift;
    proof {
        assert(m / 1 == m);
        let spacing = double_spacing(m as nat);
        assert(1 * spacing == spacing);
        assert(significand * pow2(shift as nat) == goal);
        lemma_rounded_is_positive(m as nat);
        if significand == 0 {
            assert(0 * pow2(shift as nat) == 0);
        }
        lemma_pow2_adds(exponent as nat, shift as nat);
        assert(significand * pow2(e as nat) == goal * pow2(exponent as nat)) by (nonlinear_arith)
            requires
                significand * pow2(shift as nat) == goal,
                pow2(e as nat) == pow2(exponent as nat) * pow2(shift as nat),
        ;
    }
    if significand == SIGNIFICAND_LIMIT {
        proof {
            lemma_pow2_unfold((e + 1) as nat);
            assert(0x10_0000_0000_0000 * pow2((e + 1) as nat) == 0x20_0000_0000_0000 * pow2(
                e as nat,
            )) by (nonlinear_arith)
                requires
                    pow2((e + 1) as nat) == 2 * pow2(e as nat),
            ;
        }
        return Positive { significand: SIGNIFICAND_LEAST, exponent: e + 1 };
    }
    let mut done: u64 = 0;
    let ghost top = e;
    proof {
        vstd::arithmetic::power2::lemma2_to64();
        vstd::arithmetic::power2::lemma2_to64_rest();
    }
    while significand < SIGNIFICAND_LEAST
        invariant
            0 < significand < SIGNIFICAND_LIMIT,
            done <= 52,
            pow2(52) == SIGNIFICAND_LEAST,
            significand >= pow2(done as nat),
            e == top - done,
            200 <= exponent <= top <= exponent + 75,
            significand * pow2(e as nat) == goal * pow2(exponent as nat),
        decreases SIGNIFICAND_LIMIT - significand,
    {
        proof {
            if done == 52 {
                assert(false);
            }
            lemma_pow2_unfold((done + 1) as nat);
            lemma_pow2_unfold(e as nat);
            assert((2 * significand) * pow2((e - 1) as nat) == significand * pow2(e as nat))
                by (nonlinear_arith)
                requires
                    pow2(e as nat) == 2 * pow2((e - 1) as nat),
            ;
        }
        significand = 2 * significand;
        e = e - 1;
        done = done + 1;
    }
    Positive { significand, exponent: e }
}

/// A number times a power of two.
fn shifted(n: u64, by: u64) -> (product: u128)
    requires
        n < SIGNIFICAND_LIMIT,
        by <= 70,
    ensures
        product == n * pow2(by as nat),
        product < 0x800_0000_0000_0000_0000_0000_0000_0000,
{
    proof {
        vstd::arithmetic::power2::lemma2_to64();
        vstd::arithmetic::power2::lemma2_to64_rest();
    }
    let low: u64 = if by <= 60 {
        by
    } else {
        60
    };
    let first: u128 = power_of_two(low);
    let second: u128 = power_of_two(by - low);
    proof {
        lemma_pow2_adds(low as nat, (by - low) as nat);
        if low < 60 {
            lemma_pow2_strictly_increases(low as nat, 60);
        }
        if by - low < 10 {
            lemma_pow2_strictly_increases((by - low) as nat, 10);
        }
        assert(n * first <= 0x1F_FFFF_FFFF_FFFF * 0x1000_0000_0000_0000) by (nonlinear_arith)
            requires
                0 <= n <= 0x1F_FFFF_FFFF_FFFF,
                0 <= first <= 0x1000_0000_0000_0000,
        ;
        let part = n * first;
        assert(part * second <= (0x1F_FFFF_FFFF_FFFF * 0x1000_0000_0000_0000) * 0x400)
            by (nonlinear_arith)
            requires
                0 <= part <= 0x1F_FFFF_FFFF_FFFF * 0x1000_0000_0000_0000,
                0 <= second <= 0x400,
        ;
        assert((n * first) * second == n * (first * second)) by (nonlinear_arith);
    }
    (n as u128 * first) * second
}

/// What is less than a power of two has an exponent 52 below.
proof fn lemma_exponent_at_most(double: Positive, limit: nat)
    requires
        double.well_formed(),
        limit >= 52,
        double@ < pow2(limit),
    ensures
        double.exponent < limit - 52,
{
    let e = double.exponent as nat;
    if e >= limit - 52 {
        vstd::arithmetic::power2::lemma2_to64_rest();
        lemma_pow2_adds(52, (limit - 52) as nat);
        if e > limit - 52 {
            lemma_pow2_strictly_increases((limit - 52) as nat, e);
        }
        let s = double.significand as int;
        assert(s * pow2(e) >= 0x10_0000_0000_0000 * pow2((limit - 52) as nat)) by (nonlinear_arith)
            requires
                s >= 0x10_0000_0000_0000,
                pow2(e) >= pow2((limit - 52) as nat),
                pow2((limit - 52) as nat) >= 0,
        ;
    }
}

/// What is at least a power of two has an exponent at most 52 below.
proof fn lemma_exponent_at_least(double: Positive, least: nat)
    requires
        double.well_formed(),
        least >= 52,
        double@ >= pow2(least),
    ensures
        double.exponent >= least - 52,
{
    let e = double.exponent as nat;
    if e < least - 52 {
        vstd::arithmetic::power2::lemma2_to64_rest();
        lemma_pow2_adds(53, e);
        if 53 + e < least {
            lemma_pow2_strictly_increases(53 + e, least);
        }
        lemma_pow2_pos(e);
        let s = double.significand as int;
        assert(s * pow2(e) < 0x20_0000_0000_0000 * pow2(e)) by (nonlinear_arith)
            requires
                s < 0x20_0000_0000_0000,
                pow2(e) > 0,
        ;
    }
}

impl Positive {
    /// The significand has 53 bits, and the exponent is far from its ends.
    pub open spec fn well_formed(&self) -> bool {
        &&& SIGNIFICAND_LEAST <= self.significand < SIGNIFICAND_LIMIT
        &&& 100 <= self.exponent <= 1950
    }

    /// The double nearest to a whole number.
    pub fn whole(n: u64) -> (double: Positive)
        requires
            n > 0,
        ensures
            double.well_formed(),
            double@ == whole(n as nat),
            1022 <= double.exponent <= 1086,
    {
        let double = rounded(n as u128, 1074);
        proof {
            lemma_whole_bounds(n as nat);
            lemma_pow2_strictly_increases(1138, 1139);
            lemma_exponent_at_most(double, 1139);
            lemma_exponent_at_least(double, 1074);
        }
        double
    }

    /// The sum of two doubles, the one with the larger exponent first.
    fn plus(&self, other: &Positive) -> (total: Positive)
        requires
            self.well_formed(),
            other.well_formed(),
            other.exponent <= self.exponent <= other.exponent + 70,
            200 <= other.exponent <= 1800,
        ensures
            total.well_formed(),
            total@ == double_rounded(self@ + other@),
            other.exponent - 52 <= total.exponent <= other.exponent + 76,
    {
        let high: u128 = shifted(self.significand, self.exponent - other.exponent);
        let n: u128 = high + other.significand as u128;
        proof {
            let e = other.exponent as nat;
            lemma_pow2_adds((self.exponent - other.exponent) as nat, e);
            lemma_rounded_scaled(n as nat, e);
            assert(n * pow2(e) == self@ + other@) by (nonlinear_arith)
                requires
                    n == high + other.significand,
                    high == self.significand * pow2((self.exponent - other.exponent) as nat),
                    pow2(self.exponent as nat) == pow2(
                        (self.exponent - other.exponent) as nat,
                    ) * pow2(e),
                    self@ == self.significand * pow2(self.exponent as nat),
                    other@ == other.significand * pow2(e),
            ;
        }
        rounded(n, other.exponent)
    }
}

proof fn lemma_whole_bounds(n: nat)
    requires
        0 < n <= u64::MAX,
    ensures
        pow2(1074) <= whole(n) <= pow2(1138),
{
    vstd::arithmetic::power2::lemma2_to64_rest();
    lemma_pow2_adds(64, 1074);
    lemma_rounded_is_positive(n);
    lemma_pow2_pos(1074);
    let d = double_rounded(n);
    assert(d <= 0x1_0000_0000_0000_0000) by {
        if n < 0x20_0000_0000_0000 {
            lemma_whole_is_kept(n);
        } else {
            lemma_rounded_up_to_power(n);
        }
    }
    assert(1 * one() <= d * one() <= 0x1_0000_0000_0000_0000 * one()) by (nonlinear_arith)
        requires
            1 <= d <= 0x1_0000_0000_0000_0000,
            one() > 0,
    ;
}

proof fn lemma_rounded_up_to_power(n: nat)
    requires
        0x20_0000_0000_0000 <= n <= u64::MAX,
    ensures
        double_rounded(n) <= 0x1_0000_0000_0000_0000,
{
    reveal_with_fuel(double_spacing, 13);
    let spacing = double_spacing(n);
    assert(spacing == 2 || spacing == 4 || spacing == 8 || spacing == 16 || spacing == 32 || spacing
        == 64 || spacing == 128 || spacing == 256 || spacing == 512 || spacing == 1024 || spacing
        == 2048);
    let high = 0x1_0000_0000_0000_0000nat / spacing;
    assert(high * spacing == 0x1_0000_0000_0000_0000nat);
    lemma_round_even_between(n, spacing, 0, high);
    let q = round_even(n, spacing);
    assert(q * spacing <= high * spacing) by (nonlinear_arith)
        requires
            q <= high,
    ;
}

/// The quotient of two doubles, by their significands: `up` is 2^52 or 2^53, whichever brings the
/// quotient of the significands to 53 bits.
proof fn lemma_quotient(a: Positive, b: Positive, k: nat, e: nat)
    requires
        a.well_formed(),
        b.well_formed(),
        k == 52 || k == 53,
        e + k + b.exponent == a.exponent + 1074,
        a.exponent + 1074 >= k,
        0x10_0000_0000_0000 * b.significand <= a.significand * pow2(k) < 0x20_0000_0000_0000
            * b.significand,
    ensures
        quotient(a@, b@) == round_even(
            (a.significand * pow2(k)) as nat,
            b.significand as nat,
        ) * pow2(e),
{
    let n = (a.significand * pow2(k)) as nat;
    let d = b.significand as nat;
    let c = pow2(b.exponent as nat + e);
    lemma_pow2_adds(b.exponent as nat, e);
    lemma_pow2_adds(a.exponent as nat, 1074);
    lemma_pow2_adds(k, (b.exponent + e) as nat);
    lemma_pow2_pos(b.exponent as nat + e);
    lemma_pow2_pos(b.exponent as nat);
    lemma_pow2_pos(e);
    let p = a@ * one();
    let q = b@;
    assert(p == c * n) by (nonlinear_arith)
        requires
            p == (a.significand * pow2(a.exponent as nat)) * pow2(1074),
            pow2(a.exponent as nat) * pow2(1074) == pow2(k) * c,
            n == a.significand * pow2(k),
    ;
    assert(q * pow2(e) == c * d) by (nonlinear_arith)
        requires
            q == d * pow2(b.exponent as nat),
            c == pow2(b.exponent as nat) * pow2(e),
    ;
    assert(q > 0) by (nonlinear_arith)
        requires
            q == d * pow2(b.exponent as nat),
            d > 0,
            pow2(b.exponent as nat) > 0,
    ;
    let x = p / q;
    let up = pow2(e);
    lemma_fundamental_div_mod(p as int, q as int);
    let r = p % q;
    assert(q * (0x10_0000_0000_0000 * up) <= p < q * (0x20_0000_0000_0000 * up)) by (nonlinear_arith)
        requires
            p == c * n,
            q * up == c * d,
            0x10_0000_0000_0000 * d <= n < 0x20_0000_0000_0000 * d,
            c > 0,
    ;
    assert(0x10_0000_0000_0000 * up <= x) by (nonlinear_arith)
        requires
            p == q * x + r,
            r < q,
            q * (0x10_0000_0000_0000 * up) <= p,
            q > 0,
    ;
    assert(x < 0x20_0000_0000_0000 * up) by (nonlinear_arith)
        requires
            p == q * x + r,
            0 <= r,
            p < q * (0x20_0000_0000_0000 * up),
            q > 0,
    ;
    lemma_spacing_window(x, e);
    lemma_round_even_scaled(n, d, c);
}

impl Positive {
    /// The quotient of two doubles.
    pub fn over(&self, other: &Positive) -> (ratio: Positive)
        requires
            self.well_formed(),
            other.well_formed(),
            900 <= self.exponent <= 1300,
            900 <= other.exponent <= 1300,
        ensures
            ratio.well_formed(),
            ratio@ == quotient(self@, other@),
            self.exponent + 1021 <= ratio.exponent + other.exponent <= self.exponent + 1023,
    {
        proof {
            vstd::arithmetic::power2::lemma2_to64_rest();
        }
        let k: u64 = if self.significand >= other.significand {
            52
        } else {
            53
        };
        let n: u128 = shifted(self.significand, k);
        let exponent: u64 = self.exponent + 1074 - other.exponent - k;
        let q: u128 = round_even_to(n, other.significand as u128);
        proof {
            lemma_quotient(*self, *other, k as nat, exponent as nat);
            lemma_round_even_between(
                n as nat,
                other.significand as nat,
                0x10_0000_0000_0000,
                0x20_0000_0000_0000,
            );
        }
        if q == SIGNIFICAND_LIMIT as u128 {
            proof {
                lemma_pow2_unfold((exponent + 1) as nat);
                assert(0x10_0000_0000_0000 * pow2((exponent + 1) as nat) == 0x20_0000_0000_0000
                    * pow2(exponent as nat)) by (nonlinear_arith)
                    requires
                        pow2((exponent + 1) as nat) == 2 * pow2(exponent as nat),
                ;
            }
            Positive { significand: SIGNIFICAND_LEAST, exponent: exponent + 1 }
        } else {
            Positive { significand: q as u64, exponent }
        }
    }

    /// The double nearest to sixty times a double.
    pub fn sixtyfold(&self) -> (product: Positive)
        requires
            self.well_formed(),
            200 <= self.exponent <= 1800,
        ensures
            product.well_formed(),
            product@ == double_rounded(60 * self@),
            product.exponent <= self.exponent + 76,
    {
        let n: u128 = 60 * (self.significand as u128);
        proof {
            let e = self.exponent as nat;
            lemma_rounded_scaled(n as nat, e);
            assert(n * pow2(e) == 60 * self@) by (nonlinear_arith)
                requires
                    n == 60 * self.significand,
                    self@ == self.significand * pow2(e),
            ;
        }
        rounded(n, self.exponent)
    }

    /// The parts of a double before and after the point: the whole number and, where there is one,
    /// what the significand is divided by.
    proof fn lemma_low(self, down: nat)
        requires
            self.well_formed(),
            self.exponent + down == 1074,
        ensures
            self@ / one() == self.significand as nat / pow2(down),
            self@ % one() == 0 <==> self.significand as nat % pow2(down) == 0,
            nearest_of(self@) == round_even(self.significand as nat, pow2(down)),
            pow2(down) > 0,
    {
        let s = self.significand as nat;
        let c = pow2(self.exponent as nat);
        let b = pow2(down);
        lemma_pow2_pos(self.exponent as nat);
        lemma_pow2_pos(down);
        lemma_pow2_adds(self.exponent as nat, down);
        lemma_round_even_scaled(s, b, c);
        let q = s / b;
        let r = s % b;
        lemma_fundamental_div_mod(s as int, b as int);
        assert(c * s == q * (c * b) + c * r) by (nonlinear_arith)
            requires
                s == b * q + r,
        ;
        assert(0 <= c * r < c * b) by (nonlinear_arith)
            requires
                0 <= r < b,
                c > 0,
        ;
        lemma_fundamental_div_mod_converse((c * s) as int, (c * b) as int, q as int, (c * r) as int);
        assert(c * r == 0 <==> r == 0) by (nonlinear_arith)
            requires
                c > 0,
        ;
        assert(c * s == s * c) by (nonlinear_arith);
    }

    proof fn lemma_high(self, up: nat)
        requires
            self.well_formed(),
            self.exponent == 1074 + up,
        ensures
            self@ / one() == self.significand * pow2(up),
            self@ % one() == 0,
            nearest_of(self@) == self.significand * pow2(up),
    {
        let n = self.significand * pow2(up);
        lemma_pow2_pos(1074);
        lemma_pow2_adds(1074, up);
        assert(self@ == n * one() + 0) by (nonlinear_arith)
            requires
                self@ == self.significand * pow2(self.exponent as nat),
                pow2(self.exponent as nat) == one() * pow2(up),
                n == self.significand * pow2(up),
        ;
        lemma_fundamental_div_mod_converse(self@ as int, one() as int, n, 0);
    }

    /// A small double is less than half, and so close to zero.
    proof fn lemma_tiny(self, down: nat)
        requires
            self.well_formed(),
            down >= 60,
        ensures
            self.significand as nat / pow2(down) == 0,
            self.significand as nat % pow2(down) != 0,
            round_even(self.significand as nat, pow2(down)) == 0,
    {
        vstd::arithmetic::power2::lemma2_to64_rest();
        if down > 60 {
            lemma_pow2_strictly_increases(60, down);
        }
        lemma_fundamental_div_mod_converse(
            self.significand as int,
            pow2(down) as int,
            0,
            self.significand as int,
        );
    }

    /// The double cut down to a whole number that fits.
    pub fn floor(&self) -> (n: u64)
        requires
            self.well_formed(),
        ensures
            n == capped(floor_of(self@), u64::MAX as nat),
    {
        if self.exponent >= 1074 {
            let up: u64 = self.exponent - 1074;
            proof {
                self.lemma_high(up as nat);
            }
            if up >= 12 {
                proof {
                    lemma_large(self.significand as nat, up as nat);
                }
                u64::MAX
            } else {
                let n: u128 = shifted(self.significand, up);
                if n <= u64::MAX as u128 {
                    n as u64
                } else {
                    u64::MAX
                }
            }
        } else {
            let down: u64 = 1074 - self.exponent;
            proof {
                self.lemma_low(down as nat);
            }
            if down >= 60 {
                proof {
                    self.lemma_tiny(down as nat);
                }
                0
            } else {
                let power: u128 = power_of_two(down);
                let n: u128 = self.significand as u128 / power;
                assert(n <= self.significand) by (nonlinear_arith)
                    requires
                        n == self.significand as u128 / power,
                        power > 0,
                ;
                n as u64
            }
        }
    }

    /// The double brought up to a whole number that fits.
    pub fn ceiling(&self) -> (n: u32)
        requires
            self.well_formed(),
        ensures
            n == capped(ceiling_of(self@), u32::MAX as nat),
    {
        if self.exponent >= 1074 {
            proof {
                let up = (self.exponent - 1074) as nat;
                self.lemma_high(up);
                lemma_pow2_pos(up);
                let s = self.significand as nat;
                assert(s * pow2(up) >= s) by (nonlinear_arith)
                    requires
                        pow2(up) >= 1,
                ;
            }
            u32::MAX
        } else {
            let down: u64 = 1074 - self.exponent;
            proof {
                self.lemma_low(down as nat);
            }
            if down >= 60 {
                proof {
                    self.lemma_tiny(down as nat);
                }
                1
            } else {
                let power: u128 = power_of_two(down);
                let low: u128 = self.significand as u128 / power;
                let rest: u128 = self.significand as u128 % power;
                assert(low <= self.significand) by (nonlinear_arith)
                    requires
                        low == self.significand as u128 / power,
                        power > 0,
                ;
                let n: u128 = if rest == 0 {
                    low
                } else {
                    low + 1
                };
                if n <= 0xFFFF_FFFF {
                    n as u32
                } else {
                    0xFFFF_FFFF
                }
            }
        }
    }

    /// The whole number nearest to the double, the even one half way.
    pub fn nearest(&self) -> (n: u128)
        requires
            self.well_formed(),
            self.exponent <= 1144,
        ensures
            n == nearest_of(self@),
    {
        if self.exponent >= 1074 {
            let up: u64 = self.exponent - 1074;
            proof {
                self.lemma_high(up as nat);
            }
            shifted(self.significand, up)
        } else {
            let down: u64 = 1074 - self.exponent;
            proof {
                self.lemma_low(down as nat);
            }
            if down >= 60 {
                proof {
                    self.lemma_tiny(down as nat);
                }
                0
            } else {
                let power: u128 = power_of_two(down);
                round_even_to(self.significand as u128, power)
            }
        }
    }

    /// A duration in seconds: the sum of its whole seconds and of what is left.
    fn seconds_unbounded(nanos: u64) -> (double: Positive)
        requires
            nanos > 0,
        ensures
            double.well_formed(),
            double@ == seconds(nanos as nat),
            double.exponent <= 1200,
    {
        let secs: u64 = nanos / SECOND;
        let rest: u64 = nanos % SECOND;
        proof {
            lemma_nothing_over();
            vstd::arithmetic::power2::lemma2_to64();
            vstd::arithmetic::power2::lemma2_to64_rest();
        }
        if rest == 0 {
            let double = Positive::whole(secs);
            proof {
                lemma_whole_is_double(secs as nat);
            }
            return double;
        }
        let nine = Positive::whole(SECOND);
        proof {
            lemma_whole_below(SECOND as nat, 30);
            lemma_exponent_at_most(nine, 1104);
        }
        let part = Positive::whole(rest);
        let fraction = part.over(&nine);
        if secs == 0 {
            proof {
                lemma_short_is_kept(fraction.significand as nat, fraction.exponent as nat);
                assert(fraction@ == fraction.significand as nat * pow2(fraction.exponent as nat));
            }
            return fraction;
        }
        let high = Positive::whole(secs);
        proof {
            lemma_whole_below(secs as nat, 35);
            lemma_exponent_at_most(high, 1109);
            lemma_whole_below(rest as nat, 30);
            lemma_exponent_at_most(part, 1104);
        }
        if high.exponent >= fraction.exponent {
            high.plus(&fraction)
        } else {
            fraction.plus(&high)
        }
    }

    /// A duration in seconds.
    pub fn seconds(nanos: u64) -> (double: Positive)
        requires
            nanos > 0,
        ensures
            double.well_formed(),
            double@ == seconds(nanos as nat),
            991 <= double.exponent <= 1200,
    {
        let double = Positive::seconds_unbounded(nanos);
        proof {
            lemma_seconds_least(nanos as nat);
            lemma_exponent_at_least(double, 1043);
        }
        double
    }
}

proof fn lemma_large(s: nat, up: nat)
    requires
        s >= 0x10_0000_0000_0000,
        up >= 12,
    ensures
        s * pow2(up) > u64::MAX,
{
    vstd::arithmetic::power2::lemma2_to64();
    if up > 12 {
        lemma_pow2_strictly_increases(12, up);
    }
    assert(s * pow2(up) >= 0x10_0000_0000_0000 * 4096) by (nonlinear_arith)
        requires
            s >= 0x10_0000_0000_0000,
            pow2(up) >= 4096,
    ;
}

pub(crate) proof fn lemma_nothing_over()
    ensures
        quotient(whole(0), whole(SECOND as nat)) == 0,
        whole(0) == 0,
{
    lemma_whole_is_kept(0);
    lemma_whole_bounds(SECOND as nat);
    lemma_pow2_pos(1074);
    assert(0 * one() == 0);
    let q = whole(SECOND as nat);
    lemma_fundamental_div_mod_converse(0, q as int, 0, 0);
    assert(q * 1 == q);
}

proof fn lemma_whole_is_double(n: nat)
    ensures
        double_rounded(whole(n)) == whole(n),
{
    rounding_is_idempotent(n);
    lemma_rounded_scaled(double_rounded(n), 1074);
}

/// A number of few bits is less than a power of two.
pub(crate) proof fn lemma_whole_below(n: nat, bits: nat)
    requires
        bits <= 52,
        n < pow2(bits),
    ensures
        whole(n) == n * one(),
        whole(n) < pow2(bits + 1074),
{
    vstd::arithmetic::power2::lemma2_to64_rest();
    if bits < 52 {
        lemma_pow2_strictly_increases(bits, 52);
    }
    lemma_whole_is_kept(n);
    lemma_pow2_adds(bits, 1074);
    lemma_pow2_pos(1074);
    assert(n * one() < pow2(bits) * one()) by (nonlinear_arith)
        requires
            n < pow2(bits),
            one() > 0,
    ;
}

/// How far two numbers are apart.
pub open spec fn distance(a: nat, b: nat) -> nat {
    if a <= b {
        (b - a) as nat
    } else {
        (a - b) as nat
    }
}

proof fn lemma_round_even_close(a: nat, b: nat)
    requires
        b > 0,
    ensures
        2 * distance(round_even(a, b) * b, a) <= b,
{
    let q = a / b;
    let r = a % b;
    lemma_fundamental_div_mod(a as int, b as int);
    assert(a == q * b + r) by (nonlinear_arith)
        requires
            a == b * q + r,
    ;
    assert((q + 1) * b == q * b + b) by (nonlinear_arith);
}

/// Rounding to a double moves a number by at most its 2^53rd part.
proof fn lemma_rounded_close(x: nat)
    ensures
        0x20_0000_0000_0000 * distance(double_rounded(x), x) <= x,
{
    if x < 0x20_0000_0000_0000 {
        lemma_whole_is_kept(x);
    } else {
        lemma_spacing_least(x);
        lemma_round_even_close(x, double_spacing(x));
    }
}

/// Rounding a quotient moves it by at most its 2^53rd part.
pub(crate) proof fn lemma_ratio_close(p: nat, q: nat)
    requires
        q > 0,
        p >= 0x10_0000_0000_0000 * q,
    ensures
        0x20_0000_0000_0000 * distance(rounded_ratio(p, q) * q, p) <= p,
{
    let x = p / q;
    let spacing = double_spacing(x);
    let r = p % q;
    lemma_fundamental_div_mod(p as int, q as int);
    lemma_spacing_positive(x);
    assert(x >= 0x10_0000_0000_0000) by (nonlinear_arith)
        requires
            p == q * x + r,
            r < q,
            p >= 0x10_0000_0000_0000 * q,
            q > 0,
    ;
    if x >= 0x20_0000_0000_0000 {
        lemma_spacing_least(x);
    }
    assert(x >= 0x10_0000_0000_0000 * spacing);
    assert(q * spacing > 0) by (nonlinear_arith)
        requires
            q > 0,
            spacing > 0,
    ;
    assert(p >= 0x10_0000_0000_0000 * (q * spacing)) by (nonlinear_arith)
        requires
            p == q * x + r,
            r >= 0,
            x >= 0x10_0000_0000_0000 * spacing,
            q > 0,
    ;
    lemma_round_even_close(p, q * spacing);
    let n = round_even(p, q * spacing);
    assert((n * spacing) * q == n * (q * spacing)) by (nonlinear_arith);
}

/// A duration in seconds, as a double, is off by at most its 2^51st part.
pub proof fn seconds_are_close(nanos: nat)
    requires
        0 < nanos <= u64::MAX,
    ensures
        0x8_0000_0000_0000 * distance(SECOND as nat * seconds(nanos), nanos * one()) <= nanos
            * one(),
{
    let secs = nanos / SECOND as nat;
    let rest = nanos % SECOND as nat;
    let unit = one();
    let second = SECOND as nat;
    lemma_pow2_pos(1074);
    vstd::arithmetic::power2::lemma2_to64();
    vstd::arithmetic::power2::lemma2_to64_rest();
    lemma_whole_below(secs, 35);
    lemma_whole_below(rest, 30);
    lemma_whole_below(second, 30);
    let fraction = quotient(whole(rest), whole(second));
    assert(0x20_0000_0000_0000 * distance(second * fraction, rest * unit) <= rest * unit) by {
        if rest == 0 {
            lemma_nothing_over();
            assert(second * 0 == 0 && 0 * unit == 0);
        } else {
            lemma_far_from_zero();
            let p = (rest * unit) * unit;
            let q = second * unit;
            assert(p >= 0x10_0000_0000_0000 * q) by (nonlinear_arith)
                requires
                    p == (rest * unit) * unit,
                    q == second * unit,
                    rest >= 1,
                    second == 1_000_000_000,
                    unit >= 0x4_0000_0000_0000_0000_0000_0000_0000,
            ;
            assert(q > 0) by (nonlinear_arith)
                requires
                    q == second * unit,
                    second > 0,
                    unit > 0,
            ;
            lemma_ratio_close(p, q);
            let near = second * fraction;
            let wanted = rest * unit;
            assert(fraction * q == near * unit) by (nonlinear_arith)
                requires
                    q == second * unit,
                    near == second * fraction,
            ;
            lemma_distance_scaled(near, wanted, unit);
            let gap = distance(near, wanted);
            assert(0x20_0000_0000_0000 * gap <= wanted) by (nonlinear_arith)
                requires
                    0x20_0000_0000_0000 * (gap * unit) <= wanted * unit,
                    unit > 0,
            ;
        }
    }
    let total = secs * unit + fraction;
    lemma_rounded_close(total);
    assert(nanos * unit == second * (secs * unit) + rest * unit) by (nonlinear_arith)
        requires
            nanos == second * secs + rest,
    ;
    assert(second * total == second * (secs * unit) + second * fraction) by (nonlinear_arith)
        requires
            total == secs * unit + fraction,
    ;
    assert(0 <= second * (secs * unit)) by (nonlinear_arith);
    lemma_distance_scaled(double_rounded(total), total, second);
    assert(second * double_rounded(total) == double_rounded(total) * second);
}

proof fn lemma_distance_scaled(a: nat, b: nat, c: nat)
    ensures
        distance(a * c, b * c) == distance(a, b) * c,
{
    assert(a * c - b * c == (a - b) * c) by (nonlinear_arith);
    assert(b * c - a * c == (b - a) * c) by (nonlinear_arith);
    if a <= b {
        assert(a * c <= b * c) by (nonlinear_arith)
            requires
                a <= b,
        ;
    } else {
        assert(b * c <= a * c) by (nonlinear_arith)
            requires
                b <= a,
        ;
    }
}

pub(crate) proof fn lemma_far_from_zero()
    ensures
        one() >= 0x1000_0000_0000_0000_0000_0000_0000_0000,
{
    vstd::arithmetic::power2::lemma2_to64_rest();
    lemma_pow2_adds(64, 60);
    lemma_pow2_strictly_increases(124, 1074);
}

/// No duration comes to nothing in seconds.
pub(crate) proof fn lemma_seconds_least(nanos: nat)
    requires
        0 < nanos <= u64::MAX,
    ensures
        seconds(nanos) >= pow2(1043),
{
    let unit = one();
    seconds_are_close(nanos);
    vstd::arithmetic::power2::lemma2_to64();
    lemma_pow2_adds(31, 1043);
    lemma_pow2_pos(1043);
    assert(nanos * unit >= unit) by (nonlinear_arith)
        requires
            nanos >= 1,
    ;
}

/// Nothing over something is nothing.
pub proof fn nothing_over_a_duration(nanos: nat)
    requires
        0 < nanos <= u64::MAX,
    ensures
        quotient(whole(0), seconds(nanos)) == 0,
{
    lemma_whole_is_kept(0);
    lemma_seconds_least(nanos);
    lemma_pow2_pos(1043);
    assert(0 * one() == 0);
    let q = seconds(nanos);
    lemma_fundamental_div_mod_converse(0, q as int, 0, 0);
    assert(q * 1 == q);
}

/// The quotient of two durations, each first brought to seconds as a double, is off by at most its
/// 2^49th part.
pub proof fn quotients_of_seconds_are_close(a: nat, b: nat)
    requires
        0 < a <= u64::MAX,
        0 < b <= u64::MAX,
    ensures
        0x2_0000_0000_0000 * distance(quotient(seconds(a), seconds(b)) * b, a * one()) <= a * one(),
{
    let unit = one();
    let second = SECOND as nat;
    let sa = seconds(a);
    let sb = seconds(b);
    let r = quotient(sa, sb);
    let au = a * unit;
    let bu = b * unit;
    let na = second * sa;
    let nb = second * sb;
    lemma_pow2_pos(1074);
    lemma_far_from_zero();
    seconds_are_close(a);
    seconds_are_close(b);
    assert(unit <= au && unit <= bu <= 0x1_0000_0000_0000_0000 * unit) by (nonlinear_arith)
        requires
            au == a * unit,
            bu == b * unit,
            1 <= a,
            1 <= b <= 0xFFFF_FFFF_FFFF_FFFF,
            unit > 0,
    ;
    assert(sb > 0 && sa >= 0x100_0000_0000_0000_0000_0000);
    assert(sb <= 0x10_0000_0000 * unit);
    assert(sa * unit >= 0x10_0000_0000_0000 * sb) by (nonlinear_arith)
        requires
            sa >= 0x100_0000_0000_0000_0000_0000,
            sb <= 0x10_0000_0000 * unit,
            unit > 0,
    ;
    lemma_ratio_close(sa * unit, sb);
    let c51 = 0x8_0000_0000_0000int;
    let c53 = 0x20_0000_0000_0000int;
    let rs = r * sb;
    let su = sa * unit;
    assert(c53 * rs <= (c53 + 1) * su && c53 * rs >= (c53 - 1) * su);
    // Above: r * b * unit * (2^51 - 1) * 2^53 is at most a * unit * unit * (2^51 + 1) * (2^53 + 1).
    let ru = r * bu;
    let au2 = au * unit;
    assert(second * rs == r * nb) by (nonlinear_arith)
        requires
            rs == r * sb,
            nb == second * sb,
    ;
    assert(second * su == na * unit) by (nonlinear_arith)
        requires
            su == sa * unit,
            na == second * sa,
    ;
    assert((c51 - 1) * ru <= c51 * (r * nb)) by (nonlinear_arith)
        requires
            (c51 - 1) * bu <= c51 * nb,
            ru == r * bu,
            r >= 0,
    ;
    assert((c51 + 1) * ru >= c51 * (r * nb)) by (nonlinear_arith)
        requires
            (c51 + 1) * bu >= c51 * nb,
            ru == r * bu,
            r >= 0,
    ;
    assert(c51 * (na * unit) <= (c51 + 1) * au2) by (nonlinear_arith)
        requires
            c51 * na <= (c51 + 1) * au,
            au2 == au * unit,
            unit > 0,
    ;
    assert(c51 * (na * unit) >= (c51 - 1) * au2) by (nonlinear_arith)
        requires
            c51 * na >= (c51 - 1) * au,
            au2 == au * unit,
            unit > 0,
    ;
    assert(0x2_0000_0000_0000 * ru <= 0x2_0000_0000_0001 * au2);
    assert(0x2_0000_0000_0000 * ru >= 0x1_FFFF_FFFF_FFFF * au2);
    let rb = r * b;
    assert(ru == rb * unit) by (nonlinear_arith)
        requires
            ru == r * bu,
            bu == b * unit,
            rb == r * b,
    ;
    assert(0x2_0000_0000_0000 * rb <= 0x2_0000_0000_0001 * au && 0x2_0000_0000_0000 * rb
        >= 0x1_FFFF_FFFF_FFFF * au) by (nonlinear_arith)
        requires
            0x2_0000_0000_0000 * (rb * unit) <= 0x2_0000_0000_0001 * (au * unit),
            0x2_0000_0000_0000 * (rb * unit) >= 0x1_FFFF_FFFF_FFFF * (au * unit),
            unit > 0,
    ;
}

} // verus!
