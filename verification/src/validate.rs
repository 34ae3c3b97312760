//! Validation of candidate numbers given as strings.

use vstd::prelude::*;
use core::str::Chars;
use vstd::std_specs::iter::IteratorSpec;
use vstd::utf8::encode_utf8;
use vstd::utf8::is_ascii_chars;
use vstd::utf8::is_ascii_chars_encode_utf8;
use crate::checksum::compute_final_checksum;
use crate::checksum::compute_initial_checksum;
use crate::checksum::even_sum;
use crate::checksum::even_sum_of_first;
use crate::checksum::final_checksum;
use crate::checksum::initial_checksum;
use crate::checksum::is_valid_digits;
use crate::checksum::odd_sum;
use crate::checksum::odd_sum_of_first;
use crate::error::Error;
use crate::error::ErrorKind;

verus! {

/// The length of a number, in bytes and in digits.
pub const LENGTH: usize = 11;

/// Whether `c` is one of the ASCII decimal digits `'0'` to `'9'`.
pub open spec fn is_digit(c: char) -> bool {
    '0' <= c <= '9'
}

/// The value of the digit `c`, between 0 and 9 where `c` is a digit.
pub open spec fn digit_value(c: char) -> int {
    c as int - '0' as int
}

/// The values of the characters of `s`, place by place.
pub open spec fn digits(s: Seq<char>) -> Seq<int> {
    Seq::new(s.len(), |i: int| digit_value(s[i]))
}

/// Whether every character of `s` is a digit.
pub open spec fn all_digits(s: Seq<char>) -> bool {
    forall|i: int| 0 <= i < s.len() ==> is_digit(#[trigger] s[i])
}

/// Whether `s[i]` is not a digit while every character before it is one.
pub open spec fn is_first_non_digit(s: Seq<char>, i: int) -> bool {
    &&& 0 <= i < s.len()
    &&& !is_digit(s[i])
    &&& forall|j: int| 0 <= j < i ==> is_digit(#[trigger] s[j])
}

/// The place of the first character of `s` that is not a digit, where
/// there is one.
pub open spec fn first_non_digit(s: Seq<char>) -> int {
    choose|i: int| is_first_non_digit(s, i)
}

/// The outcome of validating the string with the characters `s`.
///
/// The conditions are tested in this order, and the first that fails
/// decides the error: the length in bytes of the UTF-8 encoding must be
/// [`LENGTH`]; the first character must not be `'0'`; every character must
/// be a digit, the first that is not being reported; the last digit must be
/// the final checksum; the tenth digit must be the initial checksum.
pub open spec fn validation_result(s: Seq<char>) -> Result<(), Error> {
    let d = digits(s);
    if encode_utf8(s).len() != LENGTH {
        Err(Error::InvalidLength)
    } else if s[0] == '0' {
        Err(Error::FirstDigitIsZero)
    } else if !all_digits(s) {
        Err(Error::InvalidCharacter(s[first_non_digit(s)]))
    } else if d[10] != final_checksum(odd_sum(d), even_sum(d), d[9]) {
        Err(Error::InvalidFinalChecksum)
    } else if d[9] != initial_checksum(odd_sum(d), even_sum(d)) {
        Err(Error::InvalidInitialChecksum)
    } else {
        Ok(())
    }
}

/// Whether `s` is a valid number: eleven ASCII decimal digits whose values
/// satisfy [`is_valid_digits`].
pub open spec fn is_valid_number(s: Seq<char>) -> bool {
    all_digits(s) && is_valid_digits(digits(s))
}

/// Every character takes at least one byte.
pub proof fn lemma_byte_length_bounds(s: Seq<char>)
    ensures
        encode_utf8(s).len() >= s.len(),
    decreases s.len(),
{
    if s.len() > 0 {
        lemma_byte_length_bounds(s.drop_first());
    }
}

/// A string of digits takes one byte for each of them, and the byte is the
/// code of the digit.
pub proof fn lemma_digits_encoding(s: Seq<char>)
    requires
        all_digits(s),
    ensures
        encode_utf8(s).len() == s.len(),
        forall|i: int| 0 <= i < s.len() ==> #[trigger] encode_utf8(s)[i] == s[i] as u8,
{
    assert(is_ascii_chars(s));
    is_ascii_chars_encode_utf8(s);
}

/// A string passes validation exactly when it is a valid number.
pub proof fn lemma_validation_accepts_valid_numbers(s: Seq<char>)
    ensures
        validation_result(s) is Ok <==> is_valid_number(s),
{
    if all_digits(s) {
        lemma_digits_encoding(s);
    }
    if validation_result(s) is Ok {
        let d = digits(s);
        assert(forall|i: int| 0 <= i < 11 ==> 0 <= #[trigger] d[i] <= 9);
    }
}

/// A string whose length in bytes is not eleven is rejected for its length,
/// whatever it holds.
pub proof fn lemma_wrong_length_is_rejected(s: Seq<char>)
    requires
        encode_utf8(s).len() != LENGTH,
    ensures
        validation_result(s) == Err::<(), Error>(Error::InvalidLength),
{
}

/// A string that begins with `'0'` is rejected: for its first digit where
/// it is eleven bytes long, and for its length otherwise.
pub proof fn lemma_leading_zero_is_rejected(s: Seq<char>)
    requires
        s.len() > 0,
        s[0] == '0',
    ensures
        validation_result(s) == Err::<(), Error>(
            if encode_utf8(s).len() == LENGTH {
                Error::FirstDigitIsZero
            } else {
                Error::InvalidLength
            },
        ),
{
}

/// Before a character that is not a digit there is a first such character.
pub proof fn lemma_first_non_digit_exists(s: Seq<char>, i: int)
    requires
        0 <= i < s.len(),
        !is_digit(s[i]),
    ensures
        is_first_non_digit(s, first_non_digit(s)),
        first_non_digit(s) <= i,
    decreases i,
{
    if forall|j: int| 0 <= j < i ==> is_digit(#[trigger] s[j]) {
        assert(is_first_non_digit(s, i));
    } else {
        let j = choose|j: int| 0 <= j < i && !is_digit(#[trigger] s[j]);
        lemma_first_non_digit_exists(s, j);
    }
}

/// An eleven-byte string that holds a character that is not a digit, at
/// whatever place, is rejected with an error of the digit class: for its
/// first digit where it begins with `'0'`, and otherwise for the first of
/// its characters that is not a digit.
pub proof fn lemma_non_digit_is_rejected(s: Seq<char>, i: int)
    requires
        encode_utf8(s).len() == LENGTH,
        0 <= i < s.len(),
        !is_digit(s[i]),
    ensures
        validation_result(s) == Err::<(), Error>(
            if s[0] == '0' {
                Error::FirstDigitIsZero
            } else {
                Error::InvalidCharacter(s[first_non_digit(s)])
            },
        ),
        validation_result(s)->Err_0.spec_kind() == ErrorKind::InvalidDigit,
        !is_digit(s[first_non_digit(s)]),
        first_non_digit(s) <= i,
{
    lemma_first_non_digit_exists(s, i);
}

/// Where the first `k` characters of an eleven-byte string are digits and
/// `k` is less than eleven, the string has a character at place `k`; and if
/// that character is not a digit, it is what validation reports.
proof fn lemma_next_character(s: Seq<char>, k: int)
    requires
        encode_utf8(s).len() == LENGTH,
        0 <= k < LENGTH,
        k <= s.len(),
        forall|j: int| 0 <= j < k ==> is_digit(#[trigger] s[j]),
        k > 0 ==> s[0] != '0',
    ensures
        k < s.len(),
        !is_digit(s[k]) ==> validation_result(s) == Err::<(), Error>(Error::InvalidCharacter(s[k])),
{
    if s.len() == k {
        lemma_digits_encoding(s);
    }
    if !is_digit(s[k]) {
        assert(is_first_non_digit(s, k));
    }
}

/// Reads the next character and gives its value as a digit, or the error
/// for a character that is not a digit, or for the end of the string.
fn next_digit(chars: &mut Chars<'_>) -> (r: Result<i32, Error>)
    ensures
        match r {
            Ok(d) => {
                &&& (*old(chars)).remaining().len() > 0
                &&& is_digit((*old(chars)).remaining()[0])
                &&& d == digit_value((*old(chars)).remaining()[0])
                &&& (*final(chars)).remaining() == (*old(chars)).remaining().drop_first()
            },
            Err(e) => {
                if (*old(chars)).remaining().len() == 0 {
                    e == Error::InvalidLength
                } else {
                    &&& !is_digit((*old(chars)).remaining()[0])
                    &&& e == Error::InvalidCharacter((*old(chars)).remaining()[0])
                }
            },
        },
{
    broadcast use vstd::string::group_string_axioms;

    match chars.next() {
        None => Err(Error::InvalidLength),
        Some(c) => {
            if '0' <= c && c <= '9' {
                Ok((c as u32 - '0' as u32) as i32)
            } else {
                Err(Error::InvalidCharacter(c))
            }
        },
    }
}

/// Validates a candidate number: `Ok` for a valid one, and otherwise the
/// error of the first condition that it fails, as [`validation_result`]
/// orders them.
pub fn validate(value: &str) -> (r: Result<(), Error>)
    ensures
        r == validation_result(value@),
        r is Ok <==> is_valid_number(value@),
{
    proof {
        lemma_validation_accepts_valid_numbers(value@);
    }
    broadcast use vstd::string::group_string_axioms;

    if value.as_bytes().len() != LENGTH {
        return Err(Error::InvalidLength);
    }
    let ghost s = value@;
    let ghost d = digits(s);
    let mut chars = value.chars();

    // start calculating checksums
    proof {
        lemma_next_character(s, 0);
    }
    let mut odd_sum: i32 = next_digit(&mut chars)?;
    if odd_sum == 0 {
        // the first digit cannot be zero
        return Err(Error::FirstDigitIsZero);
    }

    let mut even_sum: i32 = 0;
    for i in 0..4usize
        invariant
            s == value@,
            d == digits(s),
            encode_utf8(s).len() == LENGTH,
            2 * i + 1 <= s.len(),
            chars.remaining() == s.skip(2 * i + 1),
            forall|j: int| 0 <= j < 2 * i + 1 ==> is_digit(#[trigger] s[j]),
            s[0] != '0',
            odd_sum == odd_sum_of_first(d, 2 * i + 1),
            even_sum == even_sum_of_first(d, 2 * i + 1),
    {
        proof {
            lemma_next_character(s, 2 * i + 1);
        }
        even_sum += next_digit(&mut chars)?;
        proof {
            lemma_next_character(s, 2 * i + 2);
        }
        odd_sum += next_digit(&mut chars)?;
    }

    proof {
        lemma_next_character(s, 9);
    }
    let first_checksum = next_digit(&mut chars)?;
    proof {
        lemma_next_character(s, 10);
    }
    let final_checksum = next_digit(&mut chars)?;

    proof {
        lemma_byte_length_bounds(s);
    }

    // the final checksum is the cheaper of the two, so it is tested first
    if compute_final_checksum(odd_sum, even_sum, first_checksum) != final_checksum {
        return Err(Error::InvalidFinalChecksum);
    }
    if compute_initial_checksum(odd_sum, even_sum) != first_checksum {
        return Err(Error::InvalidInitialChecksum);
    }
    Ok(())
}

/// Checks if the given string is a valid Turkish citizenship ID number.
#[must_use]
pub fn is_valid(value: &str) -> (b: bool)
    ensures
        b == is_valid_number(value@),
        b == (validation_result(value@) is Ok),
{
    validate(value).is_ok()
}

} // verus!
