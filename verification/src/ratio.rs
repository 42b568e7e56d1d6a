//! Exact ratios, used for the frame rate and the pixel aspect.

use vstd::prelude::*;
use crate::bytes::{
    find_byte, first_index_of, lemma_concat_lacks, lemma_first_index_of_is, RATIO_SEP,
};
use crate::decimal::{
    as_text, decimal_digits, is_digit, lemma_decimal_digits, lemma_decimal_digits_lack,
    lemma_decimal_digits_len,
    lemma_decimal_round_trip, parse_bytes, parsed_number, push_decimal, push_decimal_text,
};
use crate::error::{Error, ParseError};

verus! {

/// A ratio of two unsigned numbers. The denominator may be zero: whoever
/// divides by it has to look first.
#[derive(Debug, Clone, Copy, PartialEq, Eq, Structural)]
pub struct Ratio {
    /// Numerator.
    pub num: usize,
    /// Denominator.
    pub den: usize,
}

impl Ratio {
    /// Creates a ratio.
    pub fn new(num: usize, den: usize) -> (ratio: Ratio)
        ensures
            ratio.num == num,
            ratio.den == den,
    {
        Ratio { num, den }
    }

    /// The outcome of reading a ratio from `s`. The bytes are cut at the
    /// first colon, and both sides must hold something: any other shape is a
    /// general parse error. Then each side is read as a number, the numerator
    /// first.
    pub open spec fn parsed(s: Seq<u8>) -> Result<Ratio, Error> {
        let cut = first_index_of(s, RATIO_SEP) as int;
        if cut == 0 || cut + 1 >= s.len() {
            Err(Error::ParseError(ParseError::General))
        } else {
            match parsed_number(s.take(cut)) {
                Err(err) => Err(err),
                Ok(num) => match parsed_number(s.skip(cut + 1)) {
                    Err(err) => Err(err),
                    Ok(den) => Ok(Ratio { num, den }),
                },
            }
        }
    }

    /// Parses a ratio written as `num:den`.
    pub fn parse(value: &[u8]) -> (res: Result<Ratio, Error>)
        ensures
            res == Ratio::parsed(value@),
    {
        let cut: usize = find_byte(value, 0, RATIO_SEP);
        assert(value@.skip(0) =~= value@);
        if cut == 0 || value.len() - cut <= 1 {
            return Err(Error::ParseError(ParseError::General));
        }
        let head = vstd::slice::slice_subrange(value, 0, cut);
        let tail = vstd::slice::slice_subrange(value, cut + 1, value.len());
        assert(head@ =~= value@.take(cut as int));
        assert(tail@ =~= value@.skip(cut + 1));
        let num: usize = match parse_bytes(head) {
            Ok(num) => num,
            Err(err) => {
                return Err(err);
            },
        };
        let den: usize = match parse_bytes(tail) {
            Ok(den) => den,
            Err(err) => {
                return Err(err);
            },
        };
        Ok(Ratio::new(num, den))
    }

    /// The bytes `num:den` that stand for this ratio in a header.
    pub open spec fn rendered(self) -> Seq<u8> {
        decimal_digits(self.num as nat) + seq![RATIO_SEP] + decimal_digits(self.den as nat)
    }

    /// Appends `num:den` to `out`.
    pub fn write_to(&self, out: &mut Vec<u8>)
        ensures
            final(out)@ == old(out)@ + self.rendered(),
    {
        push_decimal(out, self.num);
        out.push(RATIO_SEP);
        push_decimal(out, self.den);
        assert(final(out)@ =~= old(out)@ + self.rendered());
    }

    /// Renders the ratio as the text `num:den`.
    pub fn to_string(&self) -> (text: String)
        ensures
            text@ == as_text(self.rendered()),
    {
        let mut text = String::new();
        push_decimal_text(&mut text, self.num);
        proof {
            reveal_strlit(":");
        }
        text.append(":");
        push_decimal_text(&mut text, self.den);
        assert(text@ =~= as_text(self.rendered()));
        text
    }
}

/// Reading back a ratio that was written gives the ratio that was written.
pub proof fn lemma_ratio_round_trip(ratio: Ratio)
    ensures
        Ratio::parsed(ratio.rendered()) == Ok::<Ratio, Error>(ratio),
{
    let num = decimal_digits(ratio.num as nat);
    let den = decimal_digits(ratio.den as nat);
    let s = ratio.rendered();
    lemma_decimal_digits(ratio.num as nat);
    lemma_decimal_digits(ratio.den as nat);
    lemma_decimal_digits_lack(ratio.num as nat, RATIO_SEP);
    assert(s[num.len() as int] == RATIO_SEP);
    assert forall|j: int| 0 <= j < num.len() implies s[j] != RATIO_SEP by {
        assert(s[j] == num[j]);
    }
    lemma_first_index_of_is(s, RATIO_SEP, num.len() as int);
    assert(s.take(num.len() as int) =~= num);
    assert(s.skip(num.len() + 1 as int) =~= den);
    lemma_decimal_round_trip(ratio.num as nat);
    lemma_decimal_round_trip(ratio.den as nat);
}

/// A ratio is written in at most 41 bytes.
pub proof fn lemma_rendered_len(ratio: Ratio)
    ensures
        3 <= ratio.rendered().len() <= 41,
{
    lemma_decimal_digits_len(ratio.num as nat);
    lemma_decimal_digits_len(ratio.den as nat);
}

/// A ratio is written with digits and one colon, and with nothing else.
pub proof fn lemma_rendered_lacks(ratio: Ratio, byte: u8)
    requires
        !is_digit(byte),
        byte != RATIO_SEP,
    ensures
        !ratio.rendered().contains(byte),
{
    lemma_decimal_digits_lack(ratio.num as nat, byte);
    lemma_decimal_digits_lack(ratio.den as nat, byte);
    lemma_concat_lacks(decimal_digits(ratio.num as nat), seq![RATIO_SEP], byte);
    lemma_concat_lacks(
        decimal_digits(ratio.num as nat) + seq![RATIO_SEP],
        decimal_digits(ratio.den as nat),
        byte,
    );
}

} // verus!
