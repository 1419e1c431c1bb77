//! Positive 32-bit floats and the roundings that IEEE 754 prescribes for them.

use vstd::arithmetic::power2::{lemma_pow2, lemma_pow2_pos, lemma_pow2_unfold, pow2};
use vstd::prelude::*;

verus! {

/// A positive number `mantissa * 2^exponent` with a mantissa of 24 bits.
#[derive(Clone, Copy, Debug, PartialEq, Eq, Structural)]
pub struct Binary32 {
    pub mantissa: u32,
    pub exponent: i32,
}

impl Binary32 {
    /// The mantissa has its leading bit, and the exponent is far from the
    /// limits of its type.
    pub open spec fn wf(self) -> bool {
        0x80_0000 <= self.mantissa < 0x100_0000 && -1000 <= self.exponent <= 1000
    }

    /// The mantissa and the exponent.
    pub open spec fn parts(self) -> (int, int) {
        (self.mantissa as int, self.exponent as int)
    }

    /// Whether the number lies in the format's normal range.
    pub open spec fn is_normal(self) -> bool {
        self.wf() && -149 <= self.exponent <= 104
    }
}

/// A quotient rounded to the nearest integer, a tie to the even one.
pub open spec fn half_even(n: int, d: int) -> int {
    let quotient = n / d;
    let remainder = n % d;
    if 2 * remainder > d || (2 * remainder == d && quotient % 2 == 1) {
        quotient + 1
    } else {
        quotient
    }
}

/// The number nearest to `n / d * 2^exponent`, where `n / d` has 24 bits before
/// the point.
pub open spec fn nearest(n: int, d: int, exponent: int) -> (int, int) {
    let mantissa = half_even(n, d);
    if mantissa == 0x100_0000 {
        (0x80_0000, exponent + 1)
    } else {
        (mantissa, exponent)
    }
}

/// The number nearest to `n / 2^exponent * 2^exponent`, with the least exponent
/// that leaves 24 bits before the point.
pub open spec fn wide_integer(n: int, d: int, exponent: int) -> (int, int)
    decreases n / d,
{
    if d <= 0 || n / d < 0x100_0000 {
        nearest(n, d, exponent)
    } else {
        proof {
            lemma_halved(n, d);
        }
        wide_integer(n, 2 * d, exponent + 1)
    }
}

/// Doubling the divisor of a quotient of more than 24 bits keeps 24 bits.
pub proof fn lemma_halved(n: int, d: int)
    requires
        d > 0,
        n / d >= 0x100_0000,
    ensures
        0 <= n / (2 * d) < n / d,
        n / (2 * d) >= 0x80_0000,
{
    assert(n >= 0) by (nonlinear_arith)
        requires
            d > 0,
            n / d >= 0,
    ;
    vstd::arithmetic::div_mod::lemma_div_denominator(n, d, 2);
    assert(d * 2 == 2 * d);
    assert(n / (2 * d) == (n / d) / 2);
}

/// The number nearest to a positive integer.
pub open spec fn integer(n: int) -> (int, int)
    decreases
            (if n < 0x80_0000 {
                0x80_0000 - n
            } else {
                0
            }),
{
    if n <= 0 {
        (0x80_0000, 0)
    } else if n < 0x80_0000 {
        let (mantissa, exponent) = integer(2 * n);
        (mantissa, exponent - 1)
    } else {
        wide_integer(n, 1, 0)
    }
}

/// The rounded quotient of two numbers.
pub open spec fn quotient(a: (int, int), b: (int, int)) -> (int, int) {
    if a.0 >= b.0 {
        nearest(a.0 * 0x80_0000, b.0, a.1 - b.1 - 23)
    } else {
        nearest(a.0 * 0x100_0000, b.0, a.1 - b.1 - 24)
    }
}

/// The rounded product of two numbers.
pub open spec fn rounded_product(a: (int, int), b: (int, int)) -> (int, int) {
    if a.0 * b.0 >= 0x8000_0000_0000 {
        nearest(a.0 * b.0, 0x100_0000, a.1 + b.1 + 24)
    } else {
        nearest(a.0 * b.0, 0x80_0000, a.1 + b.1 + 23)
    }
}

/// The least integer that is not below a number.
pub open spec fn ceiling(a: (int, int)) -> (int, int) {
    if a.1 >= 0 {
        a
    } else if a.1 <= -24 {
        integer(1)
    } else {
        let unit = pow2((-a.1) as nat) as int;
        integer((a.0 + unit - 1) / unit)
    }
}

/// Whether a number is at least another one.
pub open spec fn at_least(a: (int, int), b: (int, int)) -> bool {
    a.1 > b.1 || (a.1 == b.1 && a.0 >= b.0)
}

/// The greater of two numbers.
pub open spec fn greater(a: (int, int), b: (int, int)) -> (int, int) {
    if at_least(a, b) {
        a
    } else {
        b
    }
}

fn nearest_to(n: u64, d: u64, exponent: i32) -> (result: Binary32)
    requires
        0 < d <= 0x8000_0000_0000_0000,
        0x80_0000 <= n as int / d as int,
        n as int / (d as int) < 0x100_0000,
        -900 <= exponent <= 900,
    ensures
        result.parts() == nearest(n as int, d as int, exponent as int),
        0x80_0000 <= result.mantissa < 0x100_0000,
        exponent <= result.exponent <= exponent + 1,
{
    let quotient: u64 = n / d;
    let remainder: u64 = n % d;
    let rest: u64 = d - remainder;
    let mantissa: u64 = if remainder > rest || (remainder == rest && quotient % 2 == 1) {
        quotient + 1
    } else {
        quotient
    };
    if mantissa == 0x100_0000 {
        Binary32 { mantissa: 0x80_0000, exponent: exponent + 1 }
    } else {
        Binary32 { mantissa: mantissa as u32, exponent }
    }
}

proof fn lemma_doubled(n: int, k: nat)
    requires
        n > 0,
        k > 0,
        n * pow2((k - 1) as nat) < 0x80_0000,
    ensures
        integer(n) == (integer(n * pow2(k)).0, integer(n * pow2(k)).1 - k),
    decreases k,
{
    lemma_pow2_unfold(k);
    if k == 1 {
        lemma_pow2_unfold(1);
        assert(pow2(0) == 1) by {
            lemma_pow2(0);
            reveal_with_fuel(vstd::arithmetic::power::pow, 1);
        }
        assert(n * pow2(0) == n) by (nonlinear_arith)
            requires
                pow2(0) == 1,
        ;
        assert(n * pow2(1) == 2 * n) by (nonlinear_arith)
            requires
                pow2(1) == 2,
        ;
    } else {
        let low = pow2((k - 1) as nat) as int;
        let lower = pow2((k - 2) as nat) as int;
        lemma_pow2_unfold((k - 1) as nat);
        lemma_pow2_pos((k - 2) as nat);
        assert(2 * n * lower == n * low) by (nonlinear_arith)
            requires
                low == 2 * lower,
        ;
        assert(n < 0x80_0000) by (nonlinear_arith)
            requires
                n * low < 0x80_0000,
                low == 2 * lower,
                lower > 0,
                n > 0,
        ;
        lemma_doubled(2 * n, (k - 1) as nat);
        let high = pow2(k) as int;
        assert(2 * n * low == n * high) by (nonlinear_arith)
            requires
                high == 2 * low,
        ;
    }
}

proof fn lemma_scaled(n: int, k: nat, half: int, power: int)
    requires
        n > 0,
        k > 0,
        pow2((k - 1) as nat) == half,
        pow2(k) == power,
        n * half < 0x80_0000,
    ensures
        integer(n) == (integer(n * power).0, integer(n * power).1 - k),
{
    lemma_doubled(n, k);
}

proof fn lemma_powers()
    ensures
        pow2(0) == 1,
        pow2(1) == 2,
        pow2(2) == 4,
        pow2(3) == 8,
        pow2(4) == 16,
        pow2(7) == 128,
        pow2(8) == 256,
        pow2(15) == 0x8000,
        pow2(16) == 0x1_0000,
{
    vstd::arithmetic::power2::lemma2_to64();
}

/// A 64-bit integer, rounded.
pub fn from_integer(n: u64) -> (result: Binary32)
    requires
        n > 0,
    ensures
        result.parts() == integer(n as int),
        result.wf(),
        -23 <= result.exponent <= 41,
{
    if n < 0x100_0000 {
        let mut m: u64 = n;
        let mut exponent: i32 = 0;
        proof {
            lemma_powers();
        }
        if m < 0x100 {
            proof {
                lemma_scaled(m as int, 16, 0x8000, 0x1_0000);
            }
            m = m * 0x1_0000;
            exponent = exponent - 16;
        }
        if m < 0x1_0000 {
            proof {
                lemma_scaled(m as int, 8, 128, 256);
            }
            m = m * 0x100;
            exponent = exponent - 8;
        }
        if m < 0x10_0000 {
            proof {
                lemma_scaled(m as int, 4, 8, 16);
            }
            m = m * 16;
            exponent = exponent - 4;
        }
        if m < 0x40_0000 {
            proof {
                lemma_scaled(m as int, 2, 2, 4);
            }
            m = m * 4;
            exponent = exponent - 2;
        }
        if m < 0x80_0000 {
            proof {
                lemma_scaled(m as int, 1, 1, 2);
            }
            m = m * 2;
            exponent = exponent - 1;
        }
        assert(integer(m as int) == (m as int, 0int));
        Binary32 { mantissa: m as u32, exponent }
    } else {
        let mut d: u64 = 1;
        let mut exponent: i32 = 0;
        proof {
            lemma_powers();
        }
        while n / d >= 0x100_0000
            invariant
                0 < d,
                n / d >= 0x80_0000,
                d == pow2(exponent as nat),
                0 <= exponent <= 40,
                integer(n as int) == wide_integer(n as int, d as int, exponent as int),
            decreases n / d,
        {
            proof {
                lemma_halved(n as int, d as int);
                lemma_pow2_unfold((exponent + 1) as nat);
                if exponent == 40 {
                    vstd::arithmetic::power2::lemma2_to64();
                    assert(pow2(40) == 0x100_0000_0000) by {
                        vstd::arithmetic::power2::lemma2_to64_rest();
                    }
                    assert(n / d < 0x100_0000) by (nonlinear_arith)
                        requires
                            d == 0x100_0000_0000,
                    ;
                }
                assert(d <= 0x100_0000_0000) by {
                    if exponent < 40 {
                        vstd::arithmetic::power2::lemma_pow2_strictly_increases(
                            exponent as nat,
                            40,
                        );
                    }
                    vstd::arithmetic::power2::lemma2_to64_rest();
                }
            }
            d = 2 * d;
            exponent = exponent + 1;
        }
        proof {
            if exponent < 40 {
                vstd::arithmetic::power2::lemma_pow2_strictly_increases(exponent as nat, 40);
            }
            vstd::arithmetic::power2::lemma2_to64_rest();
        }
        nearest_to(n, d, exponent)
    }
}

/// The rounded quotient of two numbers.
pub fn divide(a: Binary32, b: Binary32) -> (result: Binary32)
    requires
        a.wf(),
        b.wf(),
        -400 <= a.exponent <= 400,
        -400 <= b.exponent <= 400,
    ensures
        result.parts() == quotient(a.parts(), b.parts()),
        result.wf(),
        a.exponent - b.exponent - 24 <= result.exponent <= a.exponent - b.exponent - 22,
{
    let x: u64 = a.mantissa as u64;
    let y: u64 = b.mantissa as u64;
    if x >= y {
        assert(0x80_0000 <= (x * 0x80_0000) as int / (y as int) < 0x100_0000) by (nonlinear_arith)
            requires
                x >= y,
                0x80_0000 <= y,
                x < 0x100_0000,
        ;
        nearest_to(x * 0x80_0000, y, a.exponent - b.exponent - 23)
    } else {
        assert(0x80_0000 <= (x * 0x100_0000) as int / (y as int) < 0x100_0000) by (nonlinear_arith)
            requires
                x < y,
                0x80_0000 <= x,
                y < 0x100_0000,
        ;
        nearest_to(x * 0x100_0000, y, a.exponent - b.exponent - 24)
    }
}

/// The rounded product of two numbers.
pub fn multiply(a: Binary32, b: Binary32) -> (result: Binary32)
    requires
        a.wf(),
        b.wf(),
        -400 <= a.exponent <= 400,
        -400 <= b.exponent <= 400,
    ensures
        result.parts() == rounded_product(a.parts(), b.parts()),
        result.wf(),
        a.exponent + b.exponent + 23 <= result.exponent <= a.exponent + b.exponent + 25,
{
    let x: u64 = a.mantissa as u64;
    let y: u64 = b.mantissa as u64;
    assert(0x4000_0000_0000 <= x * y < 0x1_0000_0000_0000) by (nonlinear_arith)
        requires
            0x80_0000 <= x < 0x100_0000,
            0x80_0000 <= y < 0x100_0000,
    ;
    let p: u64 = x * y;
    if p >= 0x8000_0000_0000 {
        nearest_to(p, 0x100_0000, a.exponent + b.exponent + 24)
    } else {
        nearest_to(p, 0x80_0000, a.exponent + b.exponent + 23)
    }
}

/// The least integer that is not below a number.
pub fn ceil(a: Binary32) -> (result: Binary32)
    requires
        a.wf(),
    ensures
        result.parts() == ceiling(a.parts()),
        result.wf(),
        result.exponent >= -23,
        a.exponent >= 0 ==> result == a,
        a.exponent < 0 ==> result.exponent <= 41,
        a.exponent <= -24 ==> result.parts() == (0x80_0000int, -23int),
{
    if a.exponent >= 0 {
        a
    } else if a.exponent <= -24 {
        proof {
            lemma_one();
        }
        from_integer(1)
    } else {
        let mut unit: u64 = 1;
        let mut k: i32 = 0;
        proof {
            lemma_powers();
        }
        while k < -a.exponent
            invariant
                0 <= k <= -a.exponent,
                -23 <= a.exponent < 0,
                unit == pow2(k as nat),
                1 <= unit <= 0x80_0000,
            decreases -a.exponent - k,
        {
            proof {
                lemma_pow2_unfold((k + 1) as nat);
                if k + 1 < 23 {
                    vstd::arithmetic::power2::lemma_pow2_strictly_increases((k + 1) as nat, 23);
                }
                vstd::arithmetic::power2::lemma2_to64();
            }
            unit = 2 * unit;
            k = k + 1;
        }
        let sum: u64 = a.mantissa as u64 + unit - 1;
        assert(sum as int / unit as int >= 1) by (nonlinear_arith)
            requires
                sum >= unit,
                unit >= 1,
        ;
        from_integer(sum / unit)
    }
}

proof fn lemma_one()
    ensures
        integer(1) == (0x80_0000int, -23int),
{
    vstd::arithmetic::power2::lemma2_to64();
    lemma_scaled(1, 23, 0x40_0000, 0x80_0000);
    assert(integer(0x80_0000) == (0x80_0000int, 0int));
}

/// Whether a number is at least another one.
pub fn not_below(a: Binary32, b: Binary32) -> (result: bool)
    ensures
        result == at_least(a.parts(), b.parts()),
{
    a.exponent > b.exponent || (a.exponent == b.exponent && a.mantissa >= b.mantissa)
}

} // verus!
