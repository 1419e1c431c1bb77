//! 32-bit floats are rounded to the nearest one, ties to the even one.

use super::splitting::is_cover;
use crate::kernels::attention::binary32::{
    ceil, divide, from_integer, half_even, integer, lemma_halved, multiply, nearest, not_below,
    wide_integer, Binary32,
};
use vstd::arithmetic::power2::{
    lemma2_to64, lemma_pow2_adds, lemma_pow2_pos, lemma_pow2_unfold, pow2,
};
use vstd::prelude::*;

verus! {

/// `scaled` of `units` is within half a unit of `exact`, and in the middle between two numbers
/// it is the even one.
pub open spec fn is_nearest(exact: int, mantissa: int, unit: int) -> bool {
    &&& -unit <= 2 * (exact - mantissa * unit) <= unit
    &&& 2 * (exact - mantissa * unit) == unit || 2 * (exact - mantissa * unit) == -unit ==> mantissa
        % 2 == 0
}

proof fn lemma_half_even(n: int, d: int)
    requires
        d > 0,
    ensures
        is_nearest(n, half_even(n, d), d),
{
    vstd::arithmetic::div_mod::lemma_fundamental_div_mod(n, d);
    vstd::arithmetic::div_mod::lemma_mod_bound(n, d);
    let q = n / d;
    assert(d * q == q * d && (q + 1) * d == q * d + d) by (nonlinear_arith);
}

proof fn lemma_nearest(n: int, d: int, exponent: int)
    requires
        d > 0,
        0x80_0000 <= n / d < 0x100_0000,
    ensures
        ({
            let (mantissa, e) = nearest(n, d, exponent);
            &&& 0x80_0000 <= mantissa < 0x100_0000
            &&& e == exponent ==> is_nearest(n, mantissa, d)
            &&& e == exponent || (e == exponent + 1 && mantissa == 0x80_0000 && is_nearest(
                n,
                2 * mantissa,
                d,
            ))
        }),
{
    lemma_half_even(n, d);
}

/// A rounded quotient times the divisor is within half a unit in the last place of the
/// dividend.
pub proof fn lemma_quotient_is_nearest(a: Binary32, b: Binary32, result: Binary32, shift: nat)
    requires
        call_ensures(divide, (a, b), result),
        a.wf(),
        b.wf(),
        shift == a.exponent - b.exponent - result.exponent,
    ensures
        0x80_0000 <= result.mantissa < 0x100_0000,
        22 <= shift <= 24,
        -b.mantissa <= 2 * (a.mantissa * pow2(shift) - result.mantissa * b.mantissa) <= b.mantissa,
        result.mantissa > 0x80_0000 ==> is_nearest(
            a.mantissa * pow2(shift),
            result.mantissa as int,
            b.mantissa as int,
        ),
{
    lemma2_to64();
    let (x, y) = (a.mantissa as int, b.mantissa as int);
    if x >= y {
        assert(0x80_0000 <= (x * 0x80_0000) / y < 0x100_0000) by (nonlinear_arith)
            requires
                x >= y,
                0x80_0000 <= y,
                x < 0x100_0000,
        ;
        lemma_nearest(x * 0x80_0000, y, a.exponent - b.exponent - 23);
    } else {
        assert(0x80_0000 <= (x * 0x100_0000) / y < 0x100_0000) by (nonlinear_arith)
            requires
                x < y,
                0x80_0000 <= x,
                y < 0x100_0000,
        ;
        lemma_nearest(x * 0x100_0000, y, a.exponent - b.exponent - 24);
    }
    let m = result.mantissa as int;
    assert(2 * m * y == 2 * (m * y)) by (nonlinear_arith);
    let power = pow2(shift) as int;
    assert(power == 0x40_0000 ==> x * power == x * 0x40_0000) by (nonlinear_arith);
    assert(power == 0x80_0000 ==> x * power == x * 0x80_0000) by (nonlinear_arith);
    assert(power == 0x100_0000 ==> x * power == x * 0x100_0000) by (nonlinear_arith);
    assert(shift == 22 || shift == 23 || shift == 24);
    assert(power == 0x40_0000 || power == 0x80_0000 || power == 0x100_0000);
}

/// A rounded product is within half a unit in the last place of the product.
pub proof fn lemma_product_is_nearest(a: Binary32, b: Binary32, result: Binary32, shift: nat)
    requires
        call_ensures(multiply, (a, b), result),
        a.wf(),
        b.wf(),
        shift == result.exponent - a.exponent - b.exponent,
    ensures
        0x80_0000 <= result.mantissa < 0x100_0000,
        23 <= shift <= 25,
        -pow2(shift) <= 2 * (a.mantissa * b.mantissa - result.mantissa * pow2(shift)) <= pow2(
            shift,
        ),
        result.mantissa > 0x80_0000 ==> is_nearest(
            a.mantissa * b.mantissa,
            result.mantissa as int,
            pow2(shift) as int,
        ),
{
    lemma2_to64();
    let (x, y) = (a.mantissa as int, b.mantissa as int);
    assert(0x4000_0000_0000 <= x * y < 0x1_0000_0000_0000) by (nonlinear_arith)
        requires
            0x80_0000 <= x < 0x100_0000,
            0x80_0000 <= y < 0x100_0000,
    ;
    let p = x * y;
    if p >= 0x8000_0000_0000 {
        lemma_nearest(p, 0x100_0000, a.exponent + b.exponent + 24);
    } else {
        lemma_nearest(p, 0x80_0000, a.exponent + b.exponent + 23);
    }
    assert(pow2(25) == 0x200_0000);
    let m = result.mantissa as int;
    let power = pow2(shift) as int;
    assert(power == 0x80_0000 ==> m * power == m * 0x80_0000) by (nonlinear_arith);
    assert(power == 0x100_0000 ==> m * power == m * 0x100_0000) by (nonlinear_arith);
    assert(power == 0x200_0000 ==> m * power == m * 0x200_0000) by (nonlinear_arith);
    assert(shift == 23 || shift == 24 || shift == 25);
    assert(power == 0x80_0000 || power == 0x100_0000 || power == 0x200_0000);
}

proof fn lemma_wide(n: int, d: int, exponent: int)
    requires
        exponent >= 0,
        d == pow2(exponent as nat),
        n / d >= 0x80_0000,
    ensures
        ({
            let (mantissa, e) = wide_integer(n, d, exponent);
            &&& 0x80_0000 <= mantissa < 0x100_0000
            &&& e >= 0
            &&& -pow2(e as nat) <= 2 * (n - mantissa * pow2(e as nat)) <= pow2(e as nat)
        }),
    decreases n / d,
{
    lemma_pow2_pos(exponent as nat);
    lemma_pow2_unfold((exponent + 1) as nat);
    if n / d >= 0x100_0000 {
        lemma_halved(n, d);
        lemma_wide(n, 2 * d, exponent + 1);
    } else {
        lemma_nearest(n, d, exponent);
        assert(0x80_0000 * (2 * d) == 2 * 0x80_0000 * d) by (nonlinear_arith);
    }
}

proof fn lemma_integer(n: int)
    requires
        n > 0,
    ensures
        ({
            let (mantissa, e) = integer(n);
            &&& 0x80_0000 <= mantissa < 0x100_0000
            &&& n < 0x100_0000 ==> e <= 0
            &&& e <= 0 ==> mantissa == n * pow2((-e) as nat)
            &&& e > 0 ==> -pow2(e as nat) <= 2 * (n - mantissa * pow2(e as nat)) <= pow2(e as nat)
        }),
    decreases
            (if n < 0x80_0000 {
                0x80_0000 - n
            } else {
                0
            }),
{
    lemma2_to64();
    if n < 0x80_0000 {
        lemma_integer(2 * n);
        let (mantissa, e) = integer(2 * n);
        let less = (-e) as nat;
        lemma_pow2_unfold((less + 1) as nat);
        assert(2 * n * pow2(less) == n * (2 * pow2(less))) by (nonlinear_arith);
    } else {
        assert(n / 1 == n);
        lemma_wide(n, 1, 0);
        let (mantissa, e) = wide_integer(n, 1, 0);
        if n < 0x100_0000 {
            assert(half_even(n, 1) == n);
        }
        assert(pow2(0) == 1 ==> mantissa * pow2(0) == mantissa && n * pow2(0) == n)
            by (nonlinear_arith);
    }
}

/// An integer of up to 24 bits is exact. A longer one is within half a unit in the last place.
pub proof fn lemma_integers_are_nearest(n: u64, result: Binary32)
    requires
        call_ensures(from_integer, (n,), result),
        n > 0,
    ensures
        0x80_0000 <= result.mantissa < 0x100_0000,
        n < 0x100_0000 ==> result.exponent <= 0,
        result.exponent <= 0 ==> result.mantissa == n * pow2((-result.exponent) as nat),
        result.exponent > 0 ==> -pow2(result.exponent as nat) <= 2 * (n - result.mantissa * pow2(
            result.exponent as nat,
        )) <= pow2(result.exponent as nat),
{
    lemma_integer(n as int);
}

/// A number that is rounded up becomes the least integer that is not below it.
pub proof fn lemma_ceiling_is_least(a: Binary32, result: Binary32, count: int, exact: Binary32)
    requires
        call_ensures(ceil, (a,), result),
        a.wf(),
        a.exponent < 0 ==> is_cover(a.mantissa as int, pow2((-a.exponent) as nat) as int, count),
        0 < count <= u64::MAX,
        call_ensures(from_integer, (count as u64,), exact),
    ensures
        a.exponent >= 0 ==> result == a,
        a.exponent < 0 ==> result == exact,
{
    if a.exponent < 0 {
        let shift = (-a.exponent) as nat;
        let unit = pow2(shift) as int;
        lemma_pow2_pos(shift);
        let m = a.mantissa as int;
        if a.exponent <= -24 {
            if shift > 24 {
                vstd::arithmetic::power2::lemma_pow2_strictly_increases(24, shift);
            }
            lemma2_to64();
            assert(unit >= 0x100_0000);
            assert(count == 1) by (nonlinear_arith)
                requires
                    unit * (count - 1) < m <= unit * count,
                    0 < m < unit,
            ;
        } else {
            assert((m + unit - 1) / unit == count) by (nonlinear_arith)
                requires
                    unit > 0,
                    unit * (count - 1) < m <= unit * count,
            ;
        }
    }
}

/// Numbers are compared by their values.
pub proof fn lemma_comparison_is_by_value(a: Binary32, b: Binary32, result: bool, shift: nat)
    requires
        call_ensures(not_below, (a, b), result),
        a.wf(),
        b.wf(),
        a.exponent + shift >= 0,
        b.exponent + shift >= 0,
    ensures
        result <==> a.mantissa * pow2((a.exponent + shift) as nat) >= b.mantissa * pow2(
            (b.exponent + shift) as nat,
        ),
{
    let (p, q) = ((a.exponent + shift) as nat, (b.exponent + shift) as nat);
    lemma_pow2_pos(p);
    lemma_pow2_pos(q);
    let (x, y) = (a.mantissa as int, b.mantissa as int);
    let (u, v) = (pow2(p) as int, pow2(q) as int);
    if p > q {
        let more = (p - q) as nat;
        lemma_pow2_adds(more, q);
        lemma_pow2_unfold(more);
        lemma_pow2_pos((more - 1) as nat);
        let w = pow2(more) as int;
        assert(x * u >= y * v) by (nonlinear_arith)
            requires
                u == w * v,
                w >= 2,
                v > 0,
                0x80_0000 <= x,
                0 <= y < 0x100_0000,
        ;
    } else if q > p {
        let more = (q - p) as nat;
        lemma_pow2_adds(more, p);
        lemma_pow2_unfold(more);
        lemma_pow2_pos((more - 1) as nat);
        let w = pow2(more) as int;
        assert(y * v > x * u) by (nonlinear_arith)
            requires
                v == w * u,
                w >= 2,
                u > 0,
                0x80_0000 <= y,
                0 <= x < 0x100_0000,
        ;
    } else {
        assert(x * u >= y * u <==> x >= y) by (nonlinear_arith)
            requires
                u > 0,
        ;
    }
}

} // verus!
