//! The validated number: parsing, rendering and generation.

use vstd::prelude::*;
use core::ops::Range;
use core::str::FromStr;
use vstd::std_specs::cmp::PartialEqSpecImpl;
use vstd::utf8::encode_utf8;
use crate::checksum::compute_final_checksum;
use crate::checksum::compute_initial_checksum;
use crate::checksum::even_sum_of_first;
use crate::checksum::odd_sum_of_first;
use crate::error::Error;
use crate::error::FromSeqError;
use crate::sequence::is_sequence_number;
use crate::sequence::lemma_number_digits_are_valid;
use crate::sequence::lemma_valid_digits_are_generated;
use crate::sequence::number_digits;
use crate::sequence::pow10;
use crate::sequence::sequence_digits;
use crate::sequence::sequence_number_of;
use crate::validate::digits;
use crate::validate::is_valid_number;
use crate::validate::lemma_digits_encoding;
use crate::validate::lemma_validation_accepts_valid_numbers;
use crate::validate::validate;
use crate::validate::validation_result;
use crate::validate::LENGTH;

verus! {

/// Turkish citizenship ID number. The number is stored as the eleven ASCII
/// digits `'0'` to `'9'` of its decimal form, and is always a valid one:
/// a value of this type is made only by parsing a string that passes
/// validation, or by generation from a sequence number.
#[derive(Debug, Clone, Copy, Eq, Hash)]
pub struct TurkishId {
    id: [u8; LENGTH],
}

impl View for TurkishId {
    type V = Seq<u8>;

    /// The eleven bytes of the number.
    closed spec fn view(&self) -> Seq<u8> {
        self.id@
    }
}

/// The string whose characters are the given ASCII bytes.
pub open spec fn ascii_text(bytes: Seq<u8>) -> Seq<char> {
    Seq::new(bytes.len(), |i: int| bytes[i] as char)
}

/// The ASCII bytes that spell the decimal digits `d`.
pub open spec fn digit_bytes(d: Seq<int>) -> Seq<u8> {
    Seq::new(d.len(), |i: int| (d[i] + '0' as int) as u8)
}

/// `String::push` of the standard library, which appends the given character
/// to the end of the string. The claim, taken on trust, is that the string
/// then holds the characters it held before, followed by that character.
pub assume_specification[ String::push ](s: &mut String, ch: char)
    ensures
        final(s)@ == old(s)@.push(ch),
;

/// The byte that spells the decimal digit `digit`.
fn to_ascii(digit: i32) -> (b: u8)
    requires
        0 <= digit <= 9,
    ensures
        b == digit + '0' as int,
{
    digit as u8 + '0' as u8
}

impl PartialEq for TurkishId {
    /// Two numbers are equal when they hold the same bytes.
    fn eq(&self, other: &Self) -> (r: bool) {
        for i in 0..LENGTH
            invariant
                forall|j: int| 0 <= j < i ==> self.id[j] == other.id[j],
        {
            if self.id[i] != other.id[i] {
                return false;
            }
        }
        assert(self.id@ =~= other.id@);
        true
    }
}

impl PartialEqSpecImpl for TurkishId {
    open spec fn obeys_eq_spec() -> bool {
        true
    }

    open spec fn eq_spec(&self, other: &Self) -> bool {
        self@ == other@
    }
}

impl TurkishId {
    #[verifier::type_invariant]
    spec fn well_formed(self) -> bool {
        is_valid_number(ascii_text(self.id@))
    }

    /// The sequence numbers: the integers of exactly nine decimal digits.
    pub const SEQ_RANGE: Range<u32> = 100_000_000..1_000_000_000;

    /// Generates the number with the given sequence number: the nine
    /// digits of `seq`, followed by their two checksums. Fails exactly when
    /// `seq` is outside [`TurkishId::SEQ_RANGE`].
    pub fn from_seq(seq: u32) -> (r: Result<TurkishId, FromSeqError>)
        ensures
            match r {
                Ok(id) => {
                    &&& is_sequence_number(seq as int)
                    &&& id@ == digit_bytes(number_digits(seq as int))
                    &&& is_valid_number(ascii_text(id@))
                },
                Err(e) => !is_sequence_number(seq as int) && e == FromSeqError::OutOfRange,
            },
    {
        if !TurkishId::SEQ_RANGE.contains(&seq) {
            return Err(FromSeqError::OutOfRange);
        }
        let ghost lead = sequence_digits(seq as int);
        let mut d = [0u8; LENGTH];
        let mut odd_sum: i32 = 0;
        let mut even_sum: i32 = 0;
        let mut divisor: u32 = TurkishId::SEQ_RANGE.start;
        proof {
            reveal_with_fuel(pow10, 9);
        }
        for i in 0..9usize
            invariant
                lead == sequence_digits(seq as int),
                i < 9 ==> divisor == pow10((8 - i) as nat),
                forall|j: int| 0 <= j < i ==> d[j] == lead[j] + '0' as int,
                odd_sum == odd_sum_of_first(lead, i as int),
                even_sum == even_sum_of_first(lead, i as int),
        {
            proof {
                reveal_with_fuel(pow10, 9);
            }
            let digit = (seq / divisor % 10) as i32;
            if i % 2 == 0 {
                odd_sum += digit;
            } else {
                even_sum += digit;
            }
            d[i] = to_ascii(digit);
            divisor /= 10;
        }
        let first_checksum = compute_initial_checksum(odd_sum, even_sum);
        let second_checksum = compute_final_checksum(odd_sum, even_sum, first_checksum);
        d[9] = to_ascii(first_checksum);
        d[10] = to_ascii(second_checksum);
        proof {
            lemma_generated_number_is_valid(seq as int);
        }
        Ok(TurkishId { id: d })
    }

    /// Renders the number as a string: its eleven bytes, each as the
    /// character it encodes. The string is a valid number.
    pub fn to_string(&self) -> (text: String)
        ensures
            text@ == ascii_text(self@),
            is_valid_number(text@),
    {
        proof {
            use_type_invariant(self);
        }
        let mut text = String::new();
        for i in 0..LENGTH
            invariant
                text@ == ascii_text(self@).take(i as int),
        {
            text.push(self.id[i] as char);
        }
        text
    }
}

impl FromStr for TurkishId {
    type Err = Error;

    /// Parses a string into a number. Succeeds exactly on the strings that
    /// pass validation, with the error of [`validate`] otherwise. The
    /// number holds the bytes of the string, and so renders as the string.
    fn from_str(s: &str) -> (r: Result<Self, Self::Err>)
        ensures
            match r {
                Ok(id) => {
                    &&& validation_result(s@) is Ok
                    &&& id@ == encode_utf8(s@)
                    &&& ascii_text(id@) == s@
                },
                Err(e) => validation_result(s@) == Err::<(), Error>(e),
            },
    {
        validate(s)?;
        let bytes = s.as_bytes();
        proof {
            lemma_validation_accepts_valid_numbers(s@);
            lemma_parse_then_render(s@);
        }
        let mut id = [0u8; LENGTH];
        for i in 0..LENGTH
            invariant
                bytes@.len() == LENGTH,
                forall|j: int| 0 <= j < i ==> id[j] == bytes[j],
        {
            id[i] = bytes[i];
        }
        Ok(TurkishId { id })
    }
}

/// Rendering the bytes that parsing stores for a valid string gives the
/// string back: a valid string is the text of its own UTF-8 encoding.
pub proof fn lemma_parse_then_render(s: Seq<char>)
    requires
        validation_result(s) is Ok,
    ensures
        ascii_text(encode_utf8(s)) == s,
{
    lemma_validation_accepts_valid_numbers(s);
    lemma_digits_encoding(s);
    assert(ascii_text(encode_utf8(s)) =~= s);
}

/// The number generated from a sequence number, rendered as a string,
/// passes validation.
pub proof fn lemma_generated_number_is_valid(seq: int)
    requires
        is_sequence_number(seq),
    ensures
        validation_result(ascii_text(digit_bytes(number_digits(seq)))) is Ok,
        is_valid_number(ascii_text(digit_bytes(number_digits(seq)))),
{
    let d = number_digits(seq);
    let s = ascii_text(digit_bytes(d));
    lemma_number_digits_are_valid(seq);
    assert(digits(s) =~= d);
    lemma_validation_accepts_valid_numbers(s);
}

/// Every valid number is the one generated from the sequence number that
/// its first nine digits spell.
pub proof fn lemma_valid_number_is_generated(s: Seq<char>)
    requires
        is_valid_number(s),
    ensures
        is_sequence_number(sequence_number_of(digits(s))),
        ascii_text(digit_bytes(number_digits(sequence_number_of(digits(s))))) == s,
{
    let d = digits(s);
    lemma_valid_digits_are_generated(d);
    assert(ascii_text(digit_bytes(d)) =~= s);
}

/// Two numbers are the same value exactly when they hold the same bytes.
pub proof fn lemma_equal_bytes_equal_numbers(a: TurkishId, b: TurkishId)
    ensures
        a@ == b@ <==> a == b,
{
    if a@ == b@ {
        assert(a.id =~= b.id);
    }
}

/// Two numbers parsed from the same string are equal: each holds the bytes
/// of that string, so they are one value, and `==`, which compares the
/// bytes, finds them equal.
pub proof fn lemma_parsed_from_same_string_are_equal(s: Seq<char>, a: TurkishId, b: TurkishId)
    requires
        a@ == encode_utf8(s),
        b@ == encode_utf8(s),
    ensures
        a@ == b@,
        a == b,
{
    lemma_equal_bytes_equal_numbers(a, b);
}

} // verus!
