//! What holds of every number that is shown: it can be read back.

use vstd::prelude::*;

use crate::text;

verus! {

/// Whether a character is a decimal digit.
pub open spec fn is_digit(c: char) -> bool {
    '0' <= c <= '9'
}

/// The number that digits are read as.
pub open spec fn read_digits(s: Seq<char>) -> nat
    decreases s.len(),
{
    if s.len() == 0 {
        0
    } else {
        (10 * read_digits(s.drop_last()) + (s.last() as u32 - '0' as u32)) as nat
    }
}

/// Ten times itself, `k` times over.
pub open spec fn ten_to(k: nat) -> nat
    decreases k,
{
    if k == 0 {
        1
    } else {
        10 * ten_to((k - 1) as nat)
    }
}

proof fn lemma_digit(d: int)
    requires
        0 <= d < 10,
    ensures
        is_digit(text::digit(d)),
        text::digit(d) as u32 - '0' as u32 == d,
{
}

proof fn lemma_read_push(s: Seq<char>, d: int)
    requires
        0 <= d < 10,
    ensures
        read_digits(s.push(text::digit(d))) == 10 * read_digits(s) + d,
{
    lemma_digit(d);
    assert(s.push(text::digit(d)).drop_last() =~= s);
}

/// A count is shown with decimal digits, without leading zeros, and is what they are read as.
pub proof fn law_counts_read_back(n: nat)
    ensures
        read_digits(text::digits(n)) == n,
        text::digits(n).len() >= 1,
        forall|i: int| 0 <= i < text::digits(n).len() ==> is_digit(#[trigger] text::digits(n)[i]),
        n > 0 ==> text::digits(n)[0] != '0',
    decreases n,
{
    if n < 10 {
        lemma_digit(n as int);
        let s = text::digits(n);
        assert(s.drop_last() =~= seq![]);
        assert(read_digits(s.drop_last()) == 0);
    } else {
        let front = text::digits(n / 10);
        law_counts_read_back(n / 10);
        lemma_digit((n % 10) as int);
        lemma_read_push(front, (n % 10) as int);
        let s = text::digits(n);
        assert forall|i: int| 0 <= i < s.len() implies is_digit(#[trigger] s[i]) by {
            if i < front.len() {
                assert(s[i] == front[i]);
            }
        }
        assert(s[0] == front[0]);
    }
}

/// Different counts are shown differently.
pub proof fn law_counts_differ_as_shown(n: nat, m: nat)
    requires
        text::digits(n) == text::digits(m),
    ensures
        n == m,
{
    law_counts_read_back(n);
    law_counts_read_back(m);
}

/// Rounding to whole units gives a number of units that no other is nearer to, and the even one
/// of two that are equally near.
pub proof fn law_rounding_is_to_the_nearest(x: nat, unit: nat)
    requires
        unit > 0,
    ensures
        ({
            let r = text::nearest_even(x, unit);
            &&& 2 * x <= 2 * r * unit + unit
            &&& 2 * r * unit <= 2 * x + unit
            &&& 2 * x == 2 * r * unit + unit || 2 * r * unit == 2 * x + unit ==> r % 2 == 0
        }),
{
    let q = x / unit;
    let rest = x % unit;
    let r = text::nearest_even(x, unit);
    vstd::arithmetic::div_mod::lemma_fundamental_div_mod(x as int, unit as int);
    assert(unit * q == q * unit) by (nonlinear_arith);
    assert(2 * q * unit == 2 * (q * unit)) by (nonlinear_arith);
    assert(2 * (q + 1) * unit == 2 * (q * unit) + 2 * unit) by (nonlinear_arith);
    assert(0 <= rest < unit);
}

/// The sign of a number is a minus where it is negative, and nothing otherwise; what is behind
/// it is shown of its distance from 0.
pub proof fn law_only_losses_have_a_sign(x: int)
    ensures
        text::sign(x) == (if x < 0 { seq!['-'] } else { seq![] }),
        text::magnitude(x) == text::magnitude(-x),
        x >= 0 ==> text::magnitude(x) == x,
{
}

/// A number without decimals is shown as its sign and the whole number that it is nearest to.
pub proof fn law_whole_numbers_read_back(x: int)
    ensures
        ({
            let s = text::fixed0(x);
            let m = if x < 0 { -x } else { x };
            let shown = if x < 0 { s.skip(1) } else { s };
            let r = read_digits(shown);
            &&& x < 0 ==> s[0] == '-'
            &&& forall|i: int| 0 <= i < shown.len() ==> is_digit(#[trigger] shown[i])
            &&& shown.len() >= 1
            &&& -500_000 <= r * 1_000_000 - m <= 500_000
            &&& r * 1_000_000 - m == 500_000 || r * 1_000_000 - m == -500_000 ==> r % 2 == 0
        }),
{
    let s = text::fixed0(x);
    let n = text::nearest_even(text::magnitude(x), 1_000_000);
    law_counts_read_back(n);
    law_rounding_is_to_the_nearest(text::magnitude(x), 1_000_000);
    if x < 0 {
        assert(s.skip(1) =~= text::digits(n));
    } else {
        assert(s =~= text::digits(n));
    }
}

/// A number with two decimals is shown as its sign, whole number, point and two digits, and is
/// read as the hundredths that it is nearest to.
pub proof fn law_amounts_read_back(x: int)
    ensures
        ({
            let s = text::fixed2(x);
            let m = if x < 0 { -x } else { x };
            let shown = if x < 0 { s.skip(1) } else { s };
            let point = shown.len() - 3;
            let r = 100 * read_digits(shown.take(point)) + read_digits(shown.skip(point + 1));
            &&& x < 0 ==> s[0] == '-'
            &&& point >= 1
            &&& shown[point] == '.'
            &&& forall|i: int|
                0 <= i < shown.len() && i != point ==> is_digit(#[trigger] shown[i])
            &&& -5_000 <= r * 10_000 - m <= 5_000
            &&& r * 10_000 - m == 5_000 || r * 10_000 - m == -5_000 ==> r % 2 == 0
        }),
{
    let s = text::fixed2(x);
    let cents = text::nearest_even(text::magnitude(x), 10_000);
    let whole = text::digits(cents / 100);
    let a = (cents / 10 % 10) as int;
    let b = (cents % 10) as int;
    law_counts_read_back(cents / 100);
    law_rounding_is_to_the_nearest(text::magnitude(x), 10_000);
    lemma_digit(a);
    lemma_digit(b);
    let shown = whole.push('.').push(text::digit(a)).push(text::digit(b));
    if x < 0 {
        assert(s.skip(1) =~= shown);
    } else {
        assert(s =~= shown);
    }
    let point = shown.len() - 3;
    assert(shown.take(point) =~= whole);
    let empty = Seq::<char>::empty();
    lemma_read_push(empty, a);
    lemma_read_push(empty.push(text::digit(a)), b);
    assert(shown.skip(point + 1) =~= empty.push(text::digit(a)).push(text::digit(b)));
    assert(read_digits(empty) == 0);
    assert(cents == 100 * (cents / 100) + 10 * a + b);
    assert forall|i: int| 0 <= i < shown.len() && i != point implies is_digit(
        #[trigger] shown[i],
    ) by {
        if i < point {
            assert(shown[i] == whole[i]);
        }
    }
}

proof fn lemma_last_digits(n: nat, k: nat)
    requires
        n < ten_to(k),
    ensures
        text::last_digits(n, k).len() == k,
        read_digits(text::last_digits(n, k)) == n,
        forall|i: int|
            0 <= i < k ==> is_digit(#[trigger] text::last_digits(n, k)[i]),
    decreases k,
{
    if k > 0 {
        let front = text::last_digits(n / 10, (k - 1) as nat);
        lemma_last_digits(n / 10, (k - 1) as nat);
        lemma_digit((n % 10) as int);
        lemma_read_push(front, (n % 10) as int);
        let s = text::last_digits(n, k);
        assert forall|i: int| 0 <= i < k implies is_digit(#[trigger] s[i]) by {
            if i < front.len() {
                assert(s[i] == front[i]);
            }
        }
    }
}

proof fn lemma_fraction(n: nat, k: nat)
    requires
        0 < n < ten_to(k),
    ensures
        ({
            let f = text::fraction_digits(n, k);
            &&& 1 <= f.len() <= k
            &&& f.last() != '0'
            &&& read_digits(f) * ten_to((k - f.len()) as nat) == n
            &&& forall|i: int| 0 <= i < f.len() ==> is_digit(#[trigger] f[i])
        }),
    decreases k,
{
    if k > 0 {
        if n % 10 == 0 {
            lemma_fraction(n / 10, (k - 1) as nat);
            let f = text::fraction_digits(n, k);
            let r = read_digits(f);
            let t = ten_to((k - 1 - f.len()) as nat);
            assert(ten_to((k - f.len()) as nat) == 10 * t);
            assert(r * (10 * t) == 10 * (r * t)) by (nonlinear_arith);
        } else {
            lemma_last_digits(n, k);
            lemma_digit((n % 10) as int);
            let f = text::last_digits(n, k);
            assert(ten_to(0) == 1);
            assert(read_digits(f) * 1 == n);
        }
    }
}

/// A number with as many decimals as it needs is read back exactly: its sign, the whole number,
/// and where it is none a point and one to six digits, the last of them no zero.
pub proof fn law_decimals_read_back(x: int)
    ensures
        ({
            let s = text::decimal(x);
            let m = if x < 0 { -x } else { x };
            let shown = if x < 0 { s.skip(1) } else { s };
            let whole = text::digits((m / 1_000_000) as nat);
            let n = whole.len() as int;
            &&& x < 0 ==> s[0] == '-'
            &&& n >= 1
            &&& shown.take(n) == whole
            &&& read_digits(shown.take(n)) == m / 1_000_000
            &&& m % 1_000_000 == 0 <==> shown.len() == n
            &&& m % 1_000_000 != 0 ==> {
                let f = shown.skip(n + 1);
                &&& shown[n] == '.'
                &&& 1 <= f.len() <= 6
                &&& f.last() != '0'
                &&& forall|i: int| 0 <= i < f.len() ==> is_digit(#[trigger] f[i])
                &&& read_digits(f) * ten_to((6 - f.len()) as nat) == m % 1_000_000
            }
        }),
{
    let s = text::decimal(x);
    let m = text::magnitude(x);
    let whole = text::digits(m / 1_000_000);
    let part = m % 1_000_000;
    law_counts_read_back(m / 1_000_000);
    let shown = if x < 0 { s.skip(1) } else { s };
    if part == 0 {
        assert(shown =~= whole);
        assert(shown.take(whole.len() as int) =~= whole);
    } else {
        let f = text::fraction_digits(part, 6);
        reveal_with_fuel(ten_to, 7);
        assert(ten_to(6) == 1_000_000);
        lemma_fraction(part, 6);
        assert(shown =~= whole.push('.') + f);
        assert(shown.take(whole.len() as int) =~= whole);
        assert(shown.skip((whole.len() + 1) as int) =~= f);
    }
}

/// What is said of texts is said of each of them, in their order.
pub proof fn law_views_are_one_for_one(s: Seq<String>)
    ensures
        text::views(s).len() == s.len(),
        forall|i: int| 0 <= i < s.len() ==> #[trigger] text::views(s)[i] == s[i]@,
{
}

/// Numbers are written as they are shown.
pub proof fn law_numbers_are_written_as_shown(
    x: i128,
    whole: String,
    amount: String,
    exact: String,
    n: u32,
    count: String,
)
    requires
        call_ensures(text::fixed0_text, (x,), whole),
        call_ensures(text::fixed2_text, (x,), amount),
        call_ensures(text::decimal_text, (x,), exact),
        call_ensures(text::count_text, (n,), count),
    ensures
        whole@ == text::fixed0(x as int),
        amount@ == text::fixed2(x as int),
        exact@ == text::decimal(x as int),
        read_digits(count@) == n,
        x < 0 ==> whole@[0] == '-' && amount@[0] == '-' && exact@[0] == '-',
{
    law_counts_read_back(n as nat);
    law_whole_numbers_read_back(x as int);
    law_amounts_read_back(x as int);
    law_decimals_read_back(x as int);
}

/// Two texts are the same exactly where they have the same characters.
pub proof fn law_same_texts_have_the_same_characters(a: &str, b: &str, r: bool)
    requires
        call_ensures(text::same, (a, b), r),
    ensures
        r <==> a@.len() == b@.len() && forall|i: int| 0 <= i < a@.len() ==> a@[i] == b@[i],
{
    if a@.len() == b@.len() && forall|i: int| 0 <= i < a@.len() ==> a@[i] == b@[i] {
        assert(a@ =~= b@);
    }
}

} // verus!
