//! Decimal arithmetic on integers of millionths.

use vstd::arithmetic::div_mod::*;
use vstd::prelude::*;

verus! {

/// What an amount in millionths is multiplied with when it is compared with an amount in
/// millionths times a percentage in millionths.
pub const PERCENT_SCALE: i128 = 100_000_000;

/// The smallest integer that is not below `num / den`.
pub open spec fn ceil_ratio(num: int, den: int) -> int {
    -((-num) / den)
}

/// The larger of two integers.
pub open spec fn larger(a: int, b: int) -> int {
    if a >= b { a } else { b }
}

/// The smaller of two integers.
pub open spec fn smaller(a: int, b: int) -> int {
    if a <= b { a } else { b }
}

/// Whether an amount can be held in 64 bits.
pub open spec fn fits(x: int) -> bool {
    i64::MIN <= x <= i64::MAX
}

/// `num / den`, rounded down.
pub fn floor_div(num: i128, den: i128) -> (r: i128)
    requires
        den > 0,
    ensures
        r == num as int / den as int,
{
    proof {
        lemma_floor_in_range(num as int, den as int);
    }
    match num.checked_div_euclid(den) {
        Some(q) => q,
        None => 0,
    }
}

/// A quotient by a positive integer lies between its dividend and 0.
pub proof fn lemma_floor_in_range(num: int, den: int)
    requires
        den > 0,
    ensures
        num >= 0 ==> 0 <= num / den <= num,
        num < 0 ==> num <= num / den < 0,
{
    assert(num >= 0 ==> 0 <= num / den <= num) by (nonlinear_arith)
        requires
            den > 0,
    ;
    assert(num < 0 ==> num <= num / den < 0) by (nonlinear_arith)
        requires
            den > 0,
    ;
}

/// `num / den`, rounded up.
pub fn ceil_div(num: i128, den: i128) -> (r: i128)
    requires
        den > 0,
        num > i128::MIN,
    ensures
        r == ceil_ratio(num as int, den as int),
{
    proof {
        lemma_floor_in_range(-num as int, den as int);
    }
    -floor_div(-num, den)
}

/// A ratio rounded up stays at or below an integer exactly when the ratio does.
pub proof fn lemma_ceil_at_most(num: int, den: int, bound: int)
    requires
        den > 0,
    ensures
        ceil_ratio(num, den) <= bound <==> num <= bound * den,
{
    let q = (-num) / den;
    lemma_fundamental_div_mod(-num, den);
    assert(-num == den * q + (-num) % den);
    assert(0 <= (-num) % den < den);
    if -q <= bound {
        assert(num <= bound * den) by (nonlinear_arith)
            requires
                -num >= den * q,
                -q <= bound,
                den > 0,
        ;
    }
    if num <= bound * den {
        assert(-q <= bound) by (nonlinear_arith)
            requires
                -num < den * q + den,
                num <= bound * den,
                den > 0,
        ;
    }
}

/// A ratio rounded down stays at or above an integer exactly when the ratio does.
pub proof fn lemma_floor_at_least(num: int, den: int, bound: int)
    requires
        den > 0,
    ensures
        bound <= num / den <==> bound * den <= num,
{
    let q = num / den;
    lemma_fundamental_div_mod(num, den);
    assert(num == den * q + num % den);
    if bound <= q {
        assert(bound * den <= num) by (nonlinear_arith)
            requires
                num >= den * q,
                bound <= q,
                den > 0,
        ;
    }
    if bound * den <= num {
        assert(bound <= q) by (nonlinear_arith)
            requires
                num < den * q + den,
                bound * den <= num,
                den > 0,
        ;
    }
}

/// The amount in 64 bits, where it fits.
pub fn narrow(x: i128) -> (r: Option<i64>)
    ensures
        r is Some <==> fits(x as int),
        r matches Some(v) ==> v == x,
{
    if i64::MIN as i128 <= x && x <= i64::MAX as i128 {
        Some(x as i64)
    } else {
        None
    }
}

/// `x` rounded to two places, halves away from 0.
pub open spec fn rounded2(x: int) -> int {
    if x >= 0 {
        (x + 5_000) / 10_000 * 10_000
    } else {
        -((-x + 5_000) / 10_000 * 10_000)
    }
}

/// Rounds to two places, halves away from 0.
pub fn round2(x: i128) -> (r: i128)
    requires
        -0x7fff_ffff_ffff_ffff_ffff_ffff_ffff_0000 <= x <= 0x7fff_ffff_ffff_ffff_ffff_ffff_ffff_0000,
    ensures
        r == rounded2(x as int),
{
    if x >= 0 {
        floor_div(x + 5_000, 10_000) * 10_000
    } else {
        -(floor_div(-x + 5_000, 10_000) * 10_000)
    }
}

/// `num / den` as a percentage in millionths, rounded to two places, halves away from 0.
pub open spec fn percent2(num: int, den: int) -> int {
    if num >= 0 {
        (num * PERCENT_SCALE + 5_000 * den) / (10_000 * den) * 10_000
    } else {
        -((-num * PERCENT_SCALE + 5_000 * den) / (10_000 * den) * 10_000)
    }
}

/// Expresses a ratio as a percentage to two places.
pub fn percent2_of(num: i128, den: i128) -> (r: i128)
    requires
        0 < den <= 0x8000_0000_0000_0000,
        -0x1_0000_0000_0000_0000 <= num <= 0x1_0000_0000_0000_0000,
    ensures
        r == percent2(num as int, den as int),
        -0x1000_0000_0000_0000_0000_0000_0000 <= r <= 0x1000_0000_0000_0000_0000_0000_0000,
{
    if num >= 0 {
        let top: i128 = num * PERCENT_SCALE + 5_000 * den;
        proof {
            lemma_floor_in_range(top as int, 10_000 * den);
        }
        floor_div(top, 10_000 * den) * 10_000
    } else {
        let top: i128 = -num * PERCENT_SCALE + 5_000 * den;
        proof {
            lemma_floor_in_range(top as int, 10_000 * den);
        }
        -(floor_div(top, 10_000 * den) * 10_000)
    }
}

/// The product of two 64-bit amounts fits in 128 bits, with room to spare.
pub proof fn lemma_product_in_range(a: int, b: int)
    requires
        fits(a),
        fits(b),
    ensures
        -0x4000_0000_0000_0000_0000_0000_0000_0000 <= a * b
            <= 0x4000_0000_0000_0000_0000_0000_0000_0000,
{
    assert(-0x4000_0000_0000_0000_0000_0000_0000_0000 <= a * b
        <= 0x4000_0000_0000_0000_0000_0000_0000_0000) by (nonlinear_arith)
        requires
            -0x8000_0000_0000_0000 <= a <= 0x7fff_ffff_ffff_ffff,
            -0x8000_0000_0000_0000 <= b <= 0x7fff_ffff_ffff_ffff,
    ;
}

/// The larger of two integers is one of them and not below either; the smaller is the other.
pub proof fn law_larger_and_smaller_bound_both(a: int, b: int)
    ensures
        larger(a, b) == a || larger(a, b) == b,
        larger(a, b) >= a,
        larger(a, b) >= b,
        larger(a, b) + smaller(a, b) == a + b,
{
}

/// A ratio rounded up is the integer that the ratio does not pass, and that one less is passed
/// by.
pub proof fn law_rounding_up_is_tight(num: int, den: int)
    requires
        den > 0,
    ensures
        (ceil_ratio(num, den) - 1) * den < num <= ceil_ratio(num, den) * den,
{
    lemma_ceil_at_most(num, den, ceil_ratio(num, den));
    lemma_ceil_at_most(num, den, ceil_ratio(num, den) - 1);
}

/// Rounding to the cent gives whole cents, none nearer; between two it goes away from 0, and
/// gains and losses are rounded alike.
pub proof fn law_cents_are_the_nearest(x: int)
    ensures
        rounded2(x) % 10_000 == 0,
        -5_000 <= rounded2(x) - x <= 5_000,
        x >= 0 && x % 10_000 == 5_000 ==> rounded2(x) > x,
        x < 0 && (-x) % 10_000 == 5_000 ==> rounded2(x) < x,
        rounded2(-x) == -rounded2(x),
{
}

/// A percentage to two places is a whole number of hundredths of a percent, none nearer to the
/// ratio; between two it goes away from 0, and gains and losses are rounded alike.
pub proof fn law_percentages_are_the_nearest(num: int, den: int)
    requires
        den > 0,
    ensures
        percent2(num, den) % 10_000 == 0,
        -5_000 * den <= percent2(num, den) * den - num * 100_000_000 <= 5_000 * den,
        num >= 0 ==> percent2(num, den) * den - num * 100_000_000 > -5_000 * den,
        percent2(-num, den) == -percent2(num, den),
{
    let m = if num >= 0 { num } else { -num };
    let top = m * 100_000_000 + 5_000 * den;
    let q = top / (10_000 * den);
    lemma_floor_at_least(top, 10_000 * den, q);
    lemma_floor_at_least(top, 10_000 * den, q + 1);
    assert(q * (10_000 * den) == q * 10_000 * den) by (nonlinear_arith);
    assert((q + 1) * (10_000 * den) == q * 10_000 * den + 10_000 * den) by (nonlinear_arith);
    assert(-q * 10_000 * den == -(q * 10_000 * den)) by (nonlinear_arith);
    assert(-(q * 10_000) * den == -(q * 10_000 * den)) by (nonlinear_arith);
    lemma_floor_at_least(top, 10_000 * den, 0);
    lemma_floor_at_least(top, 10_000 * den, 1);
}

} // verus!
