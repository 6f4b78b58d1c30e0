//! Decimal numerals: what a numeral denotes, reading one, and writing one.

use vstd::prelude::*;
use crate::text::string_of;

verus! {

/// `std::num::ParseIntError`: why the standard library refused a numeral.
/// It is carried as it comes; nothing is said of what it holds.
#[verifier::external_type_specification]
#[verifier::external_body]
pub struct ExParseIntError(std::num::ParseIntError);

/// Whether `c` is one of the ten decimal digits.
pub open spec fn is_digit(c: char) -> bool {
    '0' <= c <= '9'
}

/// The value of the digit `c`.
pub open spec fn digit_value(c: char) -> nat {
    (c as u32 - '0' as u32) as nat
}

/// The digit of the value `d`, for `d` below ten.
pub open spec fn digit_char(d: nat) -> char {
    (('0' as u32 + d) as u8) as char
}

/// Whether `s` holds decimal digits only.
pub open spec fn all_digits(s: Seq<char>) -> bool {
    forall|i: int| 0 <= i < s.len() ==> is_digit(#[trigger] s[i])
}

/// The number that the digits of `s` denote, the last digit counting least.
pub open spec fn digits_value(s: Seq<char>) -> nat
    decreases s.len(),
{
    if s.len() == 0 {
        0
    } else {
        digits_value(s.drop_last()) * 10 + digit_value(s.last())
    }
}

/// `s` without one leading plus sign.
pub open spec fn unsigned(s: Seq<char>) -> Seq<char> {
    if s.len() > 0 && s[0] == '+' {
        s.drop_first()
    } else {
        s
    }
}

/// The number that `s` denotes: an optional plus sign, then one or more
/// decimal digits and nothing else. `None` for any other text.
pub open spec fn decimal_value(s: Seq<char>) -> Option<nat> {
    let digits = unsigned(s);
    if digits.len() > 0 && all_digits(digits) {
        Some(digits_value(digits))
    } else {
        None
    }
}

/// The decimal numeral of `n`, without sign or leading zeros.
pub open spec fn decimal_digits(n: nat) -> Seq<char>
    decreases n,
{
    if n < 10 {
        seq![digit_char(n)]
    } else {
        decimal_digits(n / 10).push(digit_char(n % 10))
    }
}

/// Reading the numeral of `n` gives `n` back.
pub proof fn lemma_decimal_round_trip(n: nat)
    ensures
        decimal_digits(n).len() > 0,
        all_digits(decimal_digits(n)),
        digits_value(decimal_digits(n)) == n,
        decimal_value(decimal_digits(n)) == Some(n),
    decreases n,
{
    let s = decimal_digits(n);
    if n < 10 {
        assert(s.drop_last() == Seq::<char>::empty());
        assert(digits_value(s.drop_last()) == 0);
        assert(digit_value(s.last()) == n);
    } else {
        lemma_decimal_round_trip(n / 10);
        let init = decimal_digits(n / 10);
        assert(s.drop_last() == init);
        assert(digit_value(s.last()) == n % 10);
        assert forall|i: int| 0 <= i < s.len() implies is_digit(#[trigger] s[i]) by {
            if i < init.len() {
                assert(s[i] == init[i]);
            }
        }
    }
    assert(s[0] != '+');
    assert(unsigned(s) == s);
}

/// The error that the standard library gives for a text that it does not
/// read as a `usize`. It is one error for one text; which one is not said.
pub uninterp spec fn usize_parse_error(text: Seq<char>) -> std::num::ParseIntError;

/// `str::parse::<usize>`: the text is read as an optional plus sign followed
/// by decimal digits only. It is an error if the text is empty, holds any
/// other character, or denotes a number that does not fit in `usize`; the
/// error depends on the text alone.
#[verifier::external_body]
fn parse_usize_str(text: &str) -> (r: Result<usize, std::num::ParseIntError>)
    ensures
        r is Ok <==> (decimal_value(text@) matches Some(n) && n <= usize::MAX),
        r matches Ok(value) ==> decimal_value(text@) == Some(value as nat),
        r matches Err(e) ==> e == usize_parse_error(text@),
{
    text.parse::<usize>()
}

/// The number that `text` denotes, if it denotes one that fits in `usize`;
/// else the reason that the standard library gives.
pub fn parse_usize(text: &[char]) -> (r: Result<usize, std::num::ParseIntError>)
    ensures
        r is Ok <==> (decimal_value(text@) matches Some(n) && n <= usize::MAX),
        r matches Ok(value) ==> decimal_value(text@) == Some(value as nat),
        r matches Err(e) ==> e == usize_parse_error(text@),
{
    let owned = string_of(text);
    parse_usize_str(owned.as_str())
}

fn digit_of(d: u8) -> (r: char)
    requires
        d < 10,
    ensures
        r == digit_char(d as nat),
{
    (48u8 + d) as char
}

/// The decimal numeral of `n`.
pub fn decimal_text(n: u128) -> (r: String)
    ensures
        r@ == decimal_digits(n as nat),
{
    let mut reversed: Vec<char> = Vec::new();
    let mut rest: u128 = n;
    assert(decimal_digits(rest as nat) + reversed@.reverse() == decimal_digits(n as nat));
    while rest >= 10
        invariant
            decimal_digits(n as nat) == decimal_digits(rest as nat) + reversed@.reverse(),
        decreases rest,
    {
        let ghost before = reversed@;
        let digit: char = digit_of((rest % 10) as u8);
        reversed.push(digit);
        assert(reversed@.reverse() == seq![digit] + before.reverse());
        assert(decimal_digits(rest as nat) == decimal_digits((rest / 10) as nat).push(digit));
        assert(decimal_digits((rest / 10) as nat).push(digit) + before.reverse()
            == decimal_digits((rest / 10) as nat) + (seq![digit] + before.reverse()));
        rest = rest / 10;
    }
    let ghost before = reversed@;
    let digit: char = digit_of(rest as u8);
    reversed.push(digit);
    assert(reversed@.reverse() == seq![digit] + before.reverse());
    assert(decimal_digits(rest as nat) == seq![digit]);
    let mut ordered: Vec<char> = Vec::new();
    let mut i: usize = reversed.len();
    while i > 0
        invariant
            i <= reversed.len(),
            ordered@ == reversed@.reverse().take(reversed.len() - i),
        decreases i,
    {
        i -= 1;
        assert(reversed@.reverse().take(reversed.len() - i) == reversed@.reverse().take(
            reversed.len() - i - 1,
        ).push(reversed@[i as int]));
        ordered.push(reversed[i]);
    }
    assert(reversed@.reverse().take(reversed.len() as int) == reversed@.reverse());
    string_of(ordered.as_slice())
}

} // verus!
