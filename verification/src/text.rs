//! Texts: decimal numbers as they are shown, and the few operations on strings that the
//! rest of the library needs.

use vstd::prelude::*;

verus! {

/// `String::push` appends one character.
pub assume_specification[ String::push ](s: &mut String, c: char)
    ensures
        final(s)@ == old(s)@.push(c),
;

/// The decimal digit `d`.
pub open spec fn digit(d: int) -> char {
    (48 + d) as char
}

/// The decimal digits of `n`, without leading zeros.
pub open spec fn digits(n: nat) -> Seq<char>
    decreases n,
{
    if n < 10 {
        seq![digit(n as int)]
    } else {
        digits(n / 10).push(digit((n % 10) as int))
    }
}

/// `x / unit` rounded to the nearest integer, halves to the even one.
pub open spec fn nearest_even(x: nat, unit: nat) -> nat {
    let q = x / unit;
    let rest = x % unit;
    if 2 * rest < unit || (2 * rest == unit && q % 2 == 0) {
        q
    } else {
        (q + 1) as nat
    }
}

/// The distance of `x` from 0.
pub open spec fn magnitude(x: int) -> nat {
    if x >= 0 { x as nat } else { (-x) as nat }
}

/// The sign that a number is shown with.
pub open spec fn sign(x: int) -> Seq<char> {
    if x < 0 { seq!['-'] } else { seq![] }
}

/// A number in millionths shown without decimals.
pub open spec fn fixed0(x: int) -> Seq<char> {
    sign(x) + digits(nearest_even(magnitude(x), 1_000_000))
}

/// A number in millionths shown with two decimals.
pub open spec fn fixed2(x: int) -> Seq<char> {
    let cents = nearest_even(magnitude(x), 10_000);
    (sign(x) + digits(cents / 100)).push('.').push(digit((cents / 10 % 10) as int)).push(
        digit((cents % 10) as int),
    )
}

/// The last `k` digits of `n`, leading zeros kept.
pub open spec fn last_digits(n: nat, k: nat) -> Seq<char>
    decreases k,
{
    if k == 0 {
        seq![]
    } else {
        last_digits(n / 10, (k - 1) as nat).push(digit((n % 10) as int))
    }
}

/// The digits of the fraction `n / 10^k`, trailing zeros dropped.
pub open spec fn fraction_digits(n: nat, k: nat) -> Seq<char>
    decreases k,
{
    if k == 0 {
        seq![]
    } else if n % 10 == 0 {
        fraction_digits(n / 10, (k - 1) as nat)
    } else {
        last_digits(n, k)
    }
}

/// A number in millionths shown with as many decimals as it needs.
pub open spec fn decimal(x: int) -> Seq<char> {
    let whole = sign(x) + digits(magnitude(x) / 1_000_000);
    let part = magnitude(x) % 1_000_000;
    if part == 0 {
        whole
    } else {
        whole.push('.') + fraction_digits(part, 6)
    }
}

fn digit_char(d: u8) -> (c: char)
    requires
        d < 10,
    ensures
        c == digit(d as int),
{
    (48 + d) as char
}

/// Appends the digits of `n`.
pub fn push_digits(out: &mut String, n: u128)
    ensures
        final(out)@ == old(out)@ + digits(n as nat),
    decreases n,
{
    if n >= 10 {
        push_digits(out, n / 10);
    }
    out.push(digit_char((n % 10) as u8));
}

fn abs_value(x: i128) -> (r: u128)
    ensures
        r == magnitude(x as int),
{
    if x >= 0 {
        x as u128
    } else {
        (-(x + 1)) as u128 + 1
    }
}

fn round_even(x: u128, unit: u128) -> (r: u128)
    requires
        unit == 10_000 || unit == 1_000_000,
    ensures
        r == nearest_even(x as nat, unit as nat),
{
    let q: u128 = x / unit;
    let rest: u128 = x % unit;
    if 2 * rest < unit || (2 * rest == unit && q % 2 == 0) {
        q
    } else {
        q + 1
    }
}

fn signed(x: i128) -> (r: String)
    ensures
        r@ == sign(x as int),
{
    let mut out = String::new();
    if x < 0 {
        out.push('-');
    }
    out
}

/// Shows a number without decimals, halves to even.
pub fn fixed0_text(x: i128) -> (r: String)
    ensures
        r@ == fixed0(x as int),
{
    let mut out = signed(x);
    push_digits(&mut out, round_even(abs_value(x), 1_000_000));
    out
}

/// Shows a number with two decimals, halves to even.
pub fn fixed2_text(x: i128) -> (r: String)
    ensures
        r@ == fixed2(x as int),
{
    let mut out = signed(x);
    let cents: u128 = round_even(abs_value(x), 10_000);
    push_digits(&mut out, cents / 100);
    out.push('.');
    out.push(digit_char((cents / 10 % 10) as u8));
    out.push(digit_char((cents % 10) as u8));
    out
}

fn push_last_digits(out: &mut String, n: u128, k: u32)
    ensures
        final(out)@ == old(out)@ + last_digits(n as nat, k as nat),
    decreases k,
{
    if k > 0 {
        push_last_digits(out, n / 10, k - 1);
        out.push(digit_char((n % 10) as u8));
    }
}

fn push_fraction(out: &mut String, n: u128, k: u32)
    ensures
        final(out)@ == old(out)@ + fraction_digits(n as nat, k as nat),
    decreases k,
{
    if k > 0 {
        if n % 10 == 0 {
            push_fraction(out, n / 10, k - 1);
        } else {
            push_last_digits(out, n, k);
        }
    }
}

/// Shows a number with as many decimals as it needs.
pub fn decimal_text(x: i128) -> (r: String)
    ensures
        r@ == decimal(x as int),
{
    let mut out = signed(x);
    let m: u128 = abs_value(x);
    push_digits(&mut out, m / 1_000_000);
    let part: u128 = m % 1_000_000;
    if part != 0 {
        out.push('.');
        push_fraction(&mut out, part, 6);
    }
    out
}

/// Shows a count.
pub fn count_text(n: u32) -> (r: String)
    ensures
        r@ == digits(n as nat),
{
    let mut out = String::new();
    push_digits(&mut out, n as u128);
    out
}

/// Whether two texts are the same.
pub fn same(a: &str, b: &str) -> (r: bool)
    ensures
        r == (a@ == b@),
{
    a.to_owned() == b.to_owned()
}

/// The character sequences of texts.
pub open spec fn views(s: Seq<String>) -> Seq<Seq<char>> {
    s.map_values(|t: String| t@)
}

} // verus!
