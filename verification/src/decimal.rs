//! Unsigned decimal numbers as they stand in a header: reading one from
//! bytes and writing one out.

use vstd::prelude::*;
use vstd::utf8::{is_leading_byte_width_1, partial_valid_utf8, valid_utf8};
use vstd::utf8::partial_valid_utf8_extend_ascii_block;
use crate::error::{Error, ParseError};

verus! {

/// The sign that may stand before the digits of a number.
pub const PLUS: u8 = 0x2B;

/// The byte of the digit zero.
pub const ZERO: u8 = 0x30;

/// Whether `byte` is one of the ASCII digits `0` to `9`.
pub open spec fn is_digit(byte: u8) -> bool {
    0x30 <= byte <= 0x39
}

/// Whether every byte of `s` is an ASCII digit.
pub open spec fn all_digits(s: Seq<u8>) -> bool {
    forall|i: int| 0 <= i < s.len() ==> is_digit(#[trigger] s[i])
}

/// The number that a string of digits denotes, most significant digit
/// first. The empty string denotes zero.
pub open spec fn digits_value(s: Seq<u8>) -> nat
    decreases s.len(),
{
    if s.len() == 0 {
        0
    } else {
        digits_value(s.drop_last()) * 10 + (s.last() - ZERO) as nat
    }
}

/// What is left of `s` once one leading plus sign, if there is one, is
/// taken away.
pub open spec fn without_sign(s: Seq<u8>) -> Seq<u8> {
    if s.len() > 0 && s[0] == PLUS {
        s.drop_first()
    } else {
        s
    }
}

/// The number written in `s`: an optional plus sign, then at least one
/// digit and nothing but digits. `None` for every other string.
pub open spec fn decimal_value(s: Seq<u8>) -> Option<nat> {
    let digits = without_sign(s);
    if digits.len() > 0 && all_digits(digits) {
        Some(digits_value(digits))
    } else {
        None
    }
}

/// The outcome of reading a number from `s`. Bytes that are not UTF-8 are
/// reported as such; text that is not a number, or a number that does not
/// fit the machine word, is an integer error.
pub open spec fn parsed_number(s: Seq<u8>) -> Result<usize, Error> {
    if !valid_utf8(s) {
        Err(Error::ParseError(ParseError::Utf8))
    } else {
        match decimal_value(s) {
            Some(value) => if value <= usize::MAX {
                Ok(value as usize)
            } else {
                Err(Error::ParseError(ParseError::Int))
            },
            None => Err(Error::ParseError(ParseError::Int)),
        }
    }
}

/// The digits of `n` in base ten, without leading zeros.
pub open spec fn decimal_digits(n: nat) -> Seq<u8>
    decreases n,
{
    if n < 10 {
        seq![(ZERO + n) as u8]
    } else {
        decimal_digits(n / 10).push((ZERO + n % 10) as u8)
    }
}

/// A string of digits denotes at least what any of its prefixes denotes.
pub proof fn lemma_digits_value_prefix(s: Seq<u8>, k: int)
    requires
        all_digits(s),
        0 <= k <= s.len(),
    ensures
        digits_value(s.take(k)) <= digits_value(s),
    decreases s.len() - k,
{
    if k == s.len() {
        assert(s.take(k) =~= s);
    } else {
        lemma_digits_value_prefix(s, k + 1);
        let longer = s.take(k + 1);
        assert(longer.drop_last() =~= s.take(k));
        assert(is_digit(s[k]));
        assert(longer.last() == s[k]);
    }
}

/// What `decimal_digits` gives is made of digits alone, is not empty, and
/// denotes the number it was made from.
pub proof fn lemma_decimal_digits(n: nat)
    ensures
        decimal_digits(n).len() >= 1,
        all_digits(decimal_digits(n)),
        digits_value(decimal_digits(n)) == n,
    decreases n,
{
    if n < 10 {
        let s = decimal_digits(n);
        assert(s.drop_last() =~= Seq::<u8>::empty());
        assert(digits_value(s.drop_last()) == 0);
    } else {
        lemma_decimal_digits(n / 10);
        let s = decimal_digits(n);
        assert(s.drop_last() =~= decimal_digits(n / 10));
    }
}

/// The digits of a number hold no byte that is not a digit.
pub proof fn lemma_decimal_digits_lack(n: nat, byte: u8)
    requires
        !is_digit(byte),
    ensures
        !decimal_digits(n).contains(byte),
{
    lemma_decimal_digits(n);
    let s = decimal_digits(n);
    if s.contains(byte) {
        let i = choose|i: int| 0 <= i < s.len() && s[i] == byte;
        assert(is_digit(s[i]));
    }
}

/// Ten to the power of `k`.
pub open spec fn pow10(k: nat) -> nat
    decreases k,
{
    if k == 0 {
        1
    } else {
        10 * pow10((k - 1) as nat)
    }
}

/// A number below ten to the power of `k` has at most `k` digits.
pub proof fn lemma_digits_below_power(n: nat, k: nat)
    requires
        k >= 1,
        n < pow10(k),
    ensures
        decimal_digits(n).len() <= k,
    decreases k,
{
    reveal_with_fuel(pow10, 2);
    if n >= 10 {
        lemma_digits_below_power(n / 10, (k - 1) as nat);
    }
}

/// A number that fits a machine word has at most twenty digits.
pub proof fn lemma_decimal_digits_len(n: nat)
    requires
        n <= usize::MAX,
    ensures
        1 <= decimal_digits(n).len() <= 20,
{
    lemma_decimal_digits(n);
    assert(pow10(20) == 100000000000000000000) by {
        reveal_with_fuel(pow10, 21);
    }
    lemma_digits_below_power(n, 20);
}

/// Bytes below `0x80` are UTF-8.
pub proof fn lemma_ascii_is_utf8(s: Seq<u8>)
    requires
        forall|i: int| 0 <= i < s.len() ==> #[trigger] s[i] < 0x80,
    ensures
        valid_utf8(s),
{
    assert(s.subrange(0, 0) =~= Seq::<u8>::empty());
    assert(valid_utf8(s.subrange(0, 0)));
    assert(partial_valid_utf8(s, 0));
    assert forall|i: int| 0 <= 0 <= i < s.len() <= s.len() implies #[trigger] is_leading_byte_width_1(
        s[i],
    ) by {
        assert(s[i] < 0x80);
    }
    partial_valid_utf8_extend_ascii_block(s, 0, s.len() as int);
    assert(s.subrange(0, s.len() as int) =~= s);
}

/// Reading back what was written gives the number that was written.
pub proof fn lemma_decimal_round_trip(n: nat)
    ensures
        decimal_value(decimal_digits(n)) == Some(n),
        n <= usize::MAX ==> parsed_number(decimal_digits(n)) == Ok::<usize, Error>(n as usize),
{
    lemma_decimal_digits(n);
    let s = decimal_digits(n);
    assert(is_digit(s[0]));
    assert(without_sign(s) == s);
    assert forall|i: int| 0 <= i < s.len() implies #[trigger] s[i] < 0x80 by {
        assert(is_digit(s[i]));
    }
    lemma_ascii_is_utf8(s);
}

/// Calls `core::str::from_utf8` on `bytes` and tells whether it accepts
/// them. That it accepts exactly the byte strings that are well-formed
/// UTF-8 is taken from its documentation: the body is not verified.
#[verifier::external_body]
fn is_utf8(bytes: &[u8]) -> (yes: bool)
    ensures
        yes == valid_utf8(bytes@),
{
    core::str::from_utf8(bytes).is_ok()
}

/// Reads an unsigned decimal number from `buf`.
pub fn parse_bytes(buf: &[u8]) -> (res: Result<usize, Error>)
    ensures
        res == parsed_number(buf@),
{
    if !is_utf8(buf) {
        return Err(Error::ParseError(ParseError::Utf8));
    }
    let n: usize = buf.len();
    let start: usize = if n > 0 && buf[0] == PLUS {
        1
    } else {
        0
    };
    let ghost digits = without_sign(buf@);
    assert(digits =~= buf@.skip(start as int));
    if start == n {
        return Err(Error::ParseError(ParseError::Int));
    }
    let mut value: usize = 0;
    let mut i: usize = start;
    while i < n
        invariant
            start <= i <= n == buf@.len(),
            start < n,
            valid_utf8(buf@),
            digits == without_sign(buf@),
            digits == buf@.skip(start as int),
            all_digits(digits.take(i - start)),
            value == digits_value(digits.take(i - start)),
        decreases n - i,
    {
        let byte: u8 = buf[i];
        assert(digits[i - start] == byte);
        if byte < ZERO || byte > 0x39 {
            return Err(Error::ParseError(ParseError::Int));
        }
        let digit: usize = (byte - ZERO) as usize;
        let ghost longer = digits.take(i - start + 1);
        proof {
            assert(longer.drop_last() =~= digits.take(i - start));
            assert(longer.last() == byte);
            assert(digits_value(longer) == value * 10 + digit);
            if all_digits(digits) {
                lemma_digits_value_prefix(digits, i - start + 1);
            }
        }
        let scaled: usize = match value.checked_mul(10) {
            Some(scaled) => scaled,
            None => {
                return Err(Error::ParseError(ParseError::Int));
            },
        };
        value = match scaled.checked_add(digit) {
            Some(sum) => sum,
            None => {
                return Err(Error::ParseError(ParseError::Int));
            },
        };
        i += 1;
        assert(all_digits(digits.take(i - start))) by {
            assert forall|j: int| 0 <= j < i - start implies is_digit(
                #[trigger] digits.take(i - start)[j],
            ) by {
                if j < i - start - 1 {
                    assert(digits.take(i - start - 1)[j] == digits[j]);
                }
            }
        }
    }
    assert(digits.take(n - start) =~= digits);
    Ok(value)
}

/// Appends the decimal digits of `n` to `out`.
pub fn push_decimal(out: &mut Vec<u8>, n: usize)
    ensures
        final(out)@ == old(out)@ + decimal_digits(n as nat),
    decreases n,
{
    if n >= 10 {
        push_decimal(out, n / 10);
    }
    let digit: u8 = (n % 10) as u8;
    out.push(ZERO + digit);
    assert(final(out)@ =~= old(out)@ + decimal_digits(n as nat));
}

/// The text whose characters are the bytes of `s`, one for one. It is
/// meant for bytes below `0x80`.
pub open spec fn as_text(s: Seq<u8>) -> Seq<char> {
    Seq::new(s.len(), |i: int| s[i] as char)
}

/// The text of a single digit.
fn digit_text(digit: u8) -> (text: &'static str)
    requires
        digit < 10,
    ensures
        text@ == seq![(ZERO + digit) as u8 as char],
{
    proof {
        reveal_strlit("0");
        reveal_strlit("1");
        reveal_strlit("2");
        reveal_strlit("3");
        reveal_strlit("4");
        reveal_strlit("5");
        reveal_strlit("6");
        reveal_strlit("7");
        reveal_strlit("8");
        reveal_strlit("9");
    }
    let text = match digit {
        0 => "0",
        1 => "1",
        2 => "2",
        3 => "3",
        4 => "4",
        5 => "5",
        6 => "6",
        7 => "7",
        8 => "8",
        _ => "9",
    };
    assert(text@ =~= seq![(ZERO + digit) as u8 as char]);
    text
}

/// Appends the decimal digits of `n` to `out` as text.
pub fn push_decimal_text(out: &mut String, n: usize)
    ensures
        final(out)@ == old(out)@ + as_text(decimal_digits(n as nat)),
    decreases n,
{
    if n >= 10 {
        push_decimal_text(out, n / 10);
    }
    let digit: u8 = (n % 10) as u8;
    out.append(digit_text(digit));
    assert(final(out)@ =~= old(out)@ + as_text(decimal_digits(n as nat)));
}

} // verus!
