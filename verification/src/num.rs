//! Decimal strings: the mathematical meaning of the digit strings that the
//! interpreter uses as its only runtime value representation, and trusted
//! conversions between them and `i64`.

use vstd::prelude::*;

verus! {

/// True for the ten ASCII digits.
pub open spec fn is_digit_char(c: char) -> bool {
    '0' <= c && c <= '9'
}

/// Numeric value of an ASCII digit.
pub open spec fn digit_val(c: char) -> int {
    c as int - '0' as int
}

/// ASCII digit for a value in 0..=9.
pub open spec fn digit_char(d: int) -> char {
    if d == 0 { '0' }
    else if d == 1 { '1' }
    else if d == 2 { '2' }
    else if d == 3 { '3' }
    else if d == 4 { '4' }
    else if d == 5 { '5' }
    else if d == 6 { '6' }
    else if d == 7 { '7' }
    else if d == 8 { '8' }
    else { '9' }
}

/// Every character of `s` is an ASCII digit.
pub open spec fn all_digits(s: Seq<char>) -> bool {
    forall|i: int| 0 <= i < s.len() ==> is_digit_char(s[i])
}

/// Value of a string of digits, most significant first.
pub open spec fn dec_val(s: Seq<char>) -> int
    decreases s.len(),
{
    if s.len() == 0 {
        0
    } else {
        10 * dec_val(s.drop_last()) + digit_val(s.last())
    }
}

/// The shape accepted as an integer: an optional ASCII sign followed by one
/// or more ASCII digits.
pub open spec fn is_int_literal(s: Seq<char>) -> bool {
    if s.len() == 0 {
        false
    } else if s[0] == '-' || s[0] == '+' {
        s.len() > 1 && all_digits(s.subrange(1, s.len() as int))
    } else {
        all_digits(s)
    }
}

/// Signed value of an integer string (meaningful when `is_int_literal` holds).
pub open spec fn str_int_val(s: Seq<char>) -> int {
    if s.len() > 0 && s[0] == '-' {
        -dec_val(s.subrange(1, s.len() as int))
    } else if s.len() > 0 && s[0] == '+' {
        dec_val(s.subrange(1, s.len() as int))
    } else {
        dec_val(s)
    }
}

/// The string denotes an integer that fits in an `i64`.
pub open spec fn parses_as_i64(s: Seq<char>) -> bool {
    is_int_literal(s) && i64::MIN <= str_int_val(s) <= i64::MAX
}

/// Decimal digits of a non-negative value, without sign or leading zeros.
pub open spec fn u_dec(n: nat) -> Seq<char>
    decreases n,
{
    if n < 10 {
        seq![digit_char(n as int)]
    } else {
        u_dec(n / 10) + seq![digit_char(n as int % 10)]
    }
}

/// Canonical decimal rendering of an integer: digits, with a leading '-'
/// for negative values.
pub open spec fn int_to_dec(i: int) -> Seq<char> {
    if i < 0 {
        seq!['-'] + u_dec((-i) as nat)
    } else {
        u_dec(i as nat)
    }
}

/// The digits of a non-negative value denote that value: `u_dec` is a right
/// inverse of `dec_val`, and produces nothing but digits.
pub proof fn lemma_u_dec_props(n: nat)
    ensures
        u_dec(n).len() >= 1,
        all_digits(u_dec(n)),
        dec_val(u_dec(n)) == n,
    decreases n,
{
    if n < 10 {
        let s = u_dec(n);
        assert(s =~= seq![digit_char(n as int)]);
        assert(s.len() == 1);
        assert(s.last() == digit_char(n as int));
        assert(s.drop_last() =~= Seq::<char>::empty());
        assert(dec_val(Seq::<char>::empty()) == 0);
        assert(dec_val(s) == 10 * dec_val(s.drop_last()) + digit_val(s.last()));
        assert(dec_val(s) == digit_val(digit_char(n as int)));
    } else {
        lemma_u_dec_props(n / 10);
        let p = u_dec(n / 10);
        let c = digit_char(n as int % 10);
        let s = u_dec(n);
        assert(s =~= p + seq![c]);
        assert(s.drop_last() =~= p);
        assert(s.last() == c);
        assert(0 <= n as int % 10 < 10);
        assert(digit_val(c) == n as int % 10);
        assert(dec_val(s) == 10 * dec_val(p) + digit_val(c));
        assert(10 * (n as int / 10) + n as int % 10 == n as int) by {
            vstd::arithmetic::div_mod::lemma_fundamental_div_mod(n as int, 10);
        }
        assert forall|i: int| 0 <= i < s.len() implies is_digit_char(s[i]) by {
            if i < p.len() {
                assert(s[i] == p[i]);
            } else {
                assert(s[i] == c);
            }
        }
    }
}

/// Rendering an `i64`-sized integer and reading the string back yields the
/// same integer: the decimal form always parses, and to the same value.
pub proof fn lemma_dec_roundtrip(i: int)
    requires
        i64::MIN <= i <= i64::MAX,
    ensures
        parses_as_i64(int_to_dec(i)),
        str_int_val(int_to_dec(i)) == i,
{
    if i >= 0 {
        lemma_u_dec_props(i as nat);
        let s = int_to_dec(i);
        assert(s == u_dec(i as nat));
        assert(is_digit_char(s[0]));
        assert(s[0] != '-' && s[0] != '+');
    } else {
        lemma_u_dec_props((-i) as nat);
        let m = u_dec((-i) as nat);
        let s = int_to_dec(i);
        assert(s =~= seq!['-'] + m);
        assert(s[0] == '-');
        assert(s.len() == m.len() + 1);
        assert(s.subrange(1, s.len() as int) =~= m);
        assert(str_int_val(s) == -dec_val(m));
    }
}

/// Relies on `str::parse::<i64>`: it accepts exactly an optional ASCII sign
/// followed by one or more ASCII digits, and rejects any other shape and any
/// value outside the `i64` range.
#[verifier::external_body]
pub fn parse_i64(s: &str) -> (r: Option<i64>)
    ensures
        r is Some <==> parses_as_i64(s@),
        r matches Some(n) ==> n as int == str_int_val(s@),
{
    match s.parse::<i64>() {
        Ok(n) => Some(n),
        Err(_) => None,
    }
}

/// Relies on `i64`'s `Display` implementation: the decimal digits of the
/// value without leading zeros, preceded by '-' when it is negative.
#[verifier::external_body]
pub fn i64_to_string(i: i64) -> (r: String)
    ensures
        r@ == int_to_dec(i as int),
{
    i.to_string()
}

/// Relies on `String::from_iter` over `char`: the collected string holds
/// exactly the given characters in order.
#[verifier::external_body]
pub fn chars_to_string(cs: &Vec<char>) -> (r: String)
    ensures
        r@ == cs@,
{
    cs.iter().collect()
}

} // verus!
