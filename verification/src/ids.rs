//! Random identifiers, from the `uuid` crate, held as 128-bit numbers.

use uuid::Uuid;
use vstd::prelude::*;

verus! {

/// Whether a number has the fixed bits of a random (version 4) UUID: the version, and the
/// variant of RFC 9562.
pub open spec fn is_random_uuid(id: u128) -> bool {
    &&& id / 0x1000_0000_0000_0000_0000 % 16 == 4
    &&& id / 0x4000_0000_0000_0000 % 4 == 2
}

/// The hexadecimal digit `d`, in lower case.
pub open spec fn hex_digit(d: int) -> char {
    if d < 10 { (48 + d) as char } else { (87 + d) as char }
}

/// The last `k` hexadecimal digits of `n`.
pub open spec fn hex_digits(n: nat, k: nat) -> Seq<char>
    decreases k,
{
    if k == 0 {
        seq![]
    } else {
        hex_digits(n / 16, (k - 1) as nat).push(hex_digit((n % 16) as int))
    }
}

/// A UUID in groups of 8, 4, 4, 4 and 12 hexadecimal digits.
pub open spec fn hyphenated(id: u128) -> Seq<char> {
    let d = hex_digits(id as nat, 32);
    d.subrange(0, 8).push('-') + d.subrange(8, 12).push('-') + d.subrange(12, 16).push('-')
        + d.subrange(16, 20).push('-') + d.subrange(20, 32)
}

/// Calls `Uuid::new_v4` for a random identifier. Every outcome is a version 4 UUID; which
/// one is left to chance. It needs a system that has random bytes to give.
#[verifier::external_body]
pub(crate) fn fresh_id() -> (id: u128)
    ensures
        is_random_uuid(id),
{
    Uuid::new_v4().as_u128()
}

/// Displays a `Uuid`: lower-case hexadecimal digits in hyphenated groups.
#[verifier::external_body]
pub(crate) fn id_text(id: u128) -> (text: String)
    ensures
        text@ == hyphenated(id),
{
    Uuid::from_u128(id).to_string()
}

/// Sixteen times itself, `k` times over.
pub open spec fn sixteen_to(k: nat) -> nat
    decreases k,
{
    if k == 0 {
        1
    } else {
        16 * sixteen_to((k - 1) as nat)
    }
}

proof fn lemma_sixteen_to(k: nat)
    ensures
        sixteen_to(k) > 0,
    decreases k,
{
    if k > 0 {
        lemma_sixteen_to((k - 1) as nat);
    }
}

/// A number is shown with as many hexadecimal digits as asked for: the one with `j` behind it is
/// that of the number's sixteenths to the `j`.
pub proof fn law_hex_digits_stand_in_their_places(n: nat, k: nat, j: nat)
    requires
        j < k,
    ensures
        hex_digits(n, k).len() == k,
        hex_digits(n, k)[k - 1 - j] == hex_digit((n / sixteen_to(j) % 16) as int),
    decreases k,
{
    let front = hex_digits(n / 16, (k - 1) as nat);
    lemma_sixteen_to(j);
    if k == 1 {
        assert(front.len() == 0);
        assert(n / 1 == n);
    } else {
        law_hex_digits_stand_in_their_places(n / 16, (k - 1) as nat, 0);
        if j > 0 {
            lemma_sixteen_to((j - 1) as nat);
            law_hex_digits_stand_in_their_places(n / 16, (k - 1) as nat, (j - 1) as nat);
            vstd::arithmetic::div_mod::lemma_div_denominator(
                n as int,
                16,
                sixteen_to((j - 1) as nat) as int,
            );
            assert(hex_digits(n, k)[k - 1 - j] == front[k - 1 - j]);
        } else {
            assert(n / 1 == n);
        }
    }
}

/// The text of a random identifier has 36 characters, hyphens behind the digits 8, 12, 16 and 20,
/// the version 4 in its place, and a variant digit from 8 to b in its place.
pub proof fn law_random_ids_look_random(id: u128)
    requires
        is_random_uuid(id),
    ensures
        ({
            let s = hyphenated(id);
            &&& s.len() == 36
            &&& s[8] == '-'
            &&& s[13] == '-'
            &&& s[18] == '-'
            &&& s[23] == '-'
            &&& s[14] == '4'
            &&& s[19] == '8' || s[19] == '9' || s[19] == 'a' || s[19] == 'b'
        }),
{
    let n = id as nat;
    let d = hex_digits(n, 32);
    law_hex_digits_stand_in_their_places(n, 32, 19);
    law_hex_digits_stand_in_their_places(n, 32, 15);
    reveal_with_fuel(sixteen_to, 20);
    assert(sixteen_to(19) == 0x1000_0000_0000_0000_0000);
    assert(sixteen_to(15) == 0x1000_0000_0000_0000);
    assert(d[12] == hex_digit(4));
    let v = (n / 0x1000_0000_0000_0000 % 16) as int;
    assert(v / 4 == n / 0x4000_0000_0000_0000 % 4);
    assert(d[16] == hex_digit(v));
    let s = hyphenated(id);
    assert(s[14] == d[12]);
    assert(s[19] == d[16]);
}

} // verus!
