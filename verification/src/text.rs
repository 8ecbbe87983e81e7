//! Decimal rendering of integers, as `{}` formats them.

use vstd::prelude::*;
use vstd::string::*;

verus! {

/// The ASCII digit for `d` (`d < 10`).
pub open spec fn digit_char(d: nat) -> char {
    if d == 0 { '0' }
    else if d == 1 { '1' }
    else if d == 2 { '2' }
    else if d == 3 { '3' }
    else if d == 4 { '4' }
    else if d == 5 { '5' }
    else if d == 6 { '6' }
    else if d == 7 { '7' }
    else if d == 8 { '8' }
    else { '9' }
}

/// Decimal digits of `n`, most significant first, no leading zeros.
pub open spec fn decimal(n: nat) -> Seq<char>
    decreases n,
{
    if n < 10 {
        seq![digit_char(n)]
    } else {
        decimal(n / 10).push(digit_char(n % 10))
    }
}

/// Two numbers below ten with the same digit are equal.
proof fn lemma_digit_char_injective(a: nat, b: nat)
    requires
        a < 10,
        b < 10,
        digit_char(a) == digit_char(b),
    ensures
        a == b,
{
}

/// A number's decimal rendering has one digit below ten and at least
/// two from ten on.
proof fn lemma_decimal_len(n: nat)
    ensures
        decimal(n).len() >= 1,
        n >= 10 ==> decimal(n).len() >= 2,
    decreases n,
{
    if n >= 10 {
        lemma_decimal_len(n / 10);
    }
}

/// Distinct numbers render as distinct decimal strings: the rendering
/// determines the number.
pub proof fn law_decimal_injective(n: nat, m: nat)
    requires
        decimal(n) == decimal(m),
    ensures
        n == m,
    decreases n,
{
    lemma_decimal_len(n);
    lemma_decimal_len(m);
    if n < 10 && m < 10 {
        assert(decimal(n)[0] == digit_char(n));
        assert(decimal(m)[0] == digit_char(m));
        lemma_digit_char_injective(n, m);
    } else if n < 10 {
        assert(decimal(n).len() == 1);
    } else if m < 10 {
        assert(decimal(m).len() == 1);
    } else {
        let dn = decimal(n / 10);
        let dm = decimal(m / 10);
        assert(decimal(n) == dn.push(digit_char(n % 10)));
        assert(decimal(m) == dm.push(digit_char(m % 10)));
        assert(dn.len() == dm.len());
        assert(digit_char(n % 10) == decimal(n)[dn.len() as int]);
        assert(digit_char(m % 10) == decimal(m)[dm.len() as int]);
        lemma_digit_char_injective(n % 10, m % 10);
        assert(dn =~= decimal(n).drop_last());
        assert(dm =~= decimal(m).drop_last());
        law_decimal_injective(n / 10, m / 10);
    }
}

/// The number a string of ASCII decimal digits reads as, most
/// significant digit first.
pub open spec fn digits_value(s: Seq<char>) -> int
    decreases s.len(),
{
    if s.len() == 0 {
        0
    } else {
        10 * digits_value(s.drop_last()) + ((s.last() as int) - ('0' as int))
    }
}

/// `c` is one of the ASCII digits `0` to `9`.
pub open spec fn is_ascii_digit(c: char) -> bool {
    '0' <= c <= '9'
}

/// The digit for `d` reads back as `d`.
proof fn lemma_digit_char_value(d: nat)
    requires
        d < 10,
    ensures
        (digit_char(d) as int) - ('0' as int) == d,
        is_ascii_digit(digit_char(d)),
        digit_char(d) == '0' ==> d == 0,
{
    assert(('0' as int) == 48);
    if d == 0 { assert(('0' as int) == 48); }
    else if d == 1 { assert(('1' as int) == 49); }
    else if d == 2 { assert(('2' as int) == 50); }
    else if d == 3 { assert(('3' as int) == 51); }
    else if d == 4 { assert(('4' as int) == 52); }
    else if d == 5 { assert(('5' as int) == 53); }
    else if d == 6 { assert(('6' as int) == 54); }
    else if d == 7 { assert(('7' as int) == 55); }
    else if d == 8 { assert(('8' as int) == 56); }
    else { assert(('9' as int) == 57); }
}

/// A number's decimal rendering is made of ASCII digits, starts with a
/// zero only when the number is zero, and reads back as the number.
pub proof fn law_decimal_reads_back(n: nat)
    ensures
        forall|i: int| 0 <= i < decimal(n).len() ==> is_ascii_digit(#[trigger] decimal(n)[i]),
        decimal(n)[0] == '0' ==> n == 0,
        digits_value(decimal(n)) == n,
    decreases n,
{
    lemma_decimal_len(n);
    if n < 10 {
        let d = decimal(n);
        assert(d.drop_last() =~= Seq::<char>::empty());
        assert(d.last() == digit_char(n));
        lemma_digit_char_value(n);
        assert(digits_value(d.drop_last()) == 0);
    } else {
        law_decimal_reads_back(n / 10);
        lemma_decimal_len(n / 10);
        let p = decimal(n / 10);
        let d = decimal(n);
        assert(d == p.push(digit_char(n % 10)));
        assert(d.drop_last() =~= p);
        assert(d.last() == digit_char(n % 10));
        lemma_digit_char_value(n % 10);
        assert(d[0] == p[0]);
        assert forall|i: int| 0 <= i < d.len() implies is_ascii_digit(#[trigger] d[i]) by {
            if i < p.len() {
                assert(d[i] == p[i]);
            }
        }
        assert(n == 10 * (n / 10) + n % 10);
    }
}

/// Decimal rendering of a signed integer: a minus sign before the
/// magnitude when negative.
pub open spec fn signed_decimal(i: int) -> Seq<char> {
    if i < 0 {
        seq!['-'] + decimal((-i) as nat)
    } else {
        decimal(i as nat)
    }
}

fn digit_str(d: u128) -> (s: &'static str)
    requires
        d < 10,
    ensures
        s@ == seq![digit_char(d as nat)],
{
    proof {
        reveal_strlit("0");
        reveal_strlit("1");
        reveal_strlit("2");
        reveal_strlit("3");
        reveal_strlit("4");
        reveal_strlit("5");
        reveal_strlit("6");
        reveal_strlit("7");
        reveal_strlit("8");
        reveal_strlit("9");
    }
    if d == 0 { "0" }
    else if d == 1 { "1" }
    else if d == 2 { "2" }
    else if d == 3 { "3" }
    else if d == 4 { "4" }
    else if d == 5 { "5" }
    else if d == 6 { "6" }
    else if d == 7 { "7" }
    else if d == 8 { "8" }
    else { "9" }
}

/// Renders an unsigned integer in decimal.
pub fn u128_to_decimal(n: u128) -> (s: String)
    ensures
        s@ == decimal(n as nat),
    decreases n,
{
    if n < 10 {
        let s = String::from_str(digit_str(n));
        s
    } else {
        let prefix = u128_to_decimal(n / 10);
        let s = prefix.concat(digit_str(n % 10));
        s
    }
}

/// Renders a signed integer in decimal.
pub fn i128_to_decimal(i: i128) -> (s: String)
    ensures
        s@ == signed_decimal(i as int),
{
    if i < 0 {
        let magnitude: u128 = if i == i128::MIN {
            0x8000_0000_0000_0000_0000_0000_0000_0000u128
        } else {
            (-i) as u128
        };
        proof {
            reveal_strlit("-");
        }
        let digits = u128_to_decimal(magnitude);
        let s = String::from_str("-").concat(digits.as_str());
        s
    } else {
        u128_to_decimal(i as u128)
    }
}

} // verus!
