//! The digits of the number that belongs to a sequence number.
//!
//! A sequence number has exactly nine decimal digits. They are the first
//! nine digits of its number, and the two check digits follow.

use vstd::prelude::*;
use vstd::arithmetic::div_mod::lemma_fundamental_div_mod_converse;
use crate::checksum::even_sum;
use crate::checksum::final_checksum;
use crate::checksum::initial_checksum;
use crate::checksum::is_valid_digits;
use crate::checksum::odd_sum;

verus! {

/// Ten to the power of `n`.
pub open spec fn pow10(n: nat) -> int
    decreases n,
{
    if n == 0 {
        1
    } else {
        10 * pow10((n - 1) as nat)
    }
}

/// Whether `seq` is a sequence number: an integer of exactly nine decimal
/// digits.
pub open spec fn is_sequence_number(seq: int) -> bool {
    100_000_000 <= seq < 1_000_000_000
}

/// The digit at place `i`, counted from the left and from zero, of `seq`
/// written as nine decimal digits.
pub open spec fn sequence_digit(seq: int, i: int) -> int {
    (seq / pow10((8 - i) as nat)) % 10
}

/// The nine decimal digits of `seq`, the most significant first.
pub open spec fn sequence_digits(seq: int) -> Seq<int> {
    Seq::new(9, |i: int| sequence_digit(seq, i))
}

/// The eleven digits of the number with the sequence number `seq`: its nine
/// digits, then the initial and the final checksum of those.
pub open spec fn number_digits(seq: int) -> Seq<int> {
    let d = sequence_digits(seq);
    let first_checksum = initial_checksum(odd_sum(d), even_sum(d));
    let second_checksum = final_checksum(odd_sum(d), even_sum(d), first_checksum);
    d.push(first_checksum).push(second_checksum)
}

/// The integer that the first nine digits of `d` spell in decimal.
pub open spec fn sequence_number_of(d: Seq<int>) -> int {
    d[0] * 100_000_000 + d[1] * 10_000_000 + d[2] * 1_000_000 + d[3] * 100_000 + d[4] * 10_000
        + d[5] * 1_000 + d[6] * 100 + d[7] * 10 + d[8]
}

/// The powers of ten up to the eighth, written out.
pub proof fn lemma_pow10_values()
    ensures
        pow10(0) == 1,
        pow10(1) == 10,
        pow10(2) == 100,
        pow10(3) == 1_000,
        pow10(4) == 10_000,
        pow10(5) == 100_000,
        pow10(6) == 1_000_000,
        pow10(7) == 10_000_000,
        pow10(8) == 100_000_000,
{
    reveal_with_fuel(pow10, 9);
}

/// The nine digits of `seq`, each written with its own divisor.
pub proof fn lemma_sequence_digits(seq: int)
    ensures
        sequence_digits(seq) == seq![
            seq / 100_000_000 % 10,
            seq / 10_000_000 % 10,
            seq / 1_000_000 % 10,
            seq / 100_000 % 10,
            seq / 10_000 % 10,
            seq / 1_000 % 10,
            seq / 100 % 10,
            seq / 10 % 10,
            seq / 1 % 10,
        ],
{
    lemma_pow10_values();
    assert(sequence_digits(seq) =~= seq![
        seq / 100_000_000 % 10,
        seq / 10_000_000 % 10,
        seq / 1_000_000 % 10,
        seq / 100_000 % 10,
        seq / 10_000 % 10,
        seq / 1_000 % 10,
        seq / 100 % 10,
        seq / 10 % 10,
        seq / 1 % 10,
    ]);
}

/// The digits generated from a sequence number are those of a valid number.
pub proof fn lemma_number_digits_are_valid(seq: int)
    requires
        is_sequence_number(seq),
    ensures
        is_valid_digits(number_digits(seq)),
{
    lemma_sequence_digits(seq);
    assert(number_digits(seq)[0] == seq / 100_000_000 % 10);
}

/// Where `digit` stands at the place of value `p` in a number, with `hi`
/// for the places above it and `lo` for those below, dividing by `p` and
/// taking the last decimal digit gives `digit` back.
proof fn lemma_digit_at_place(hi: int, digit: int, lo: int, p: int)
    requires
        p > 0,
        0 <= lo < p,
        0 <= digit <= 9,
    ensures
        ((hi * 10 + digit) * p + lo) / p % 10 == digit,
{
    let x = (hi * 10 + digit) * p + lo;
    lemma_fundamental_div_mod_converse(x, p, hi * 10 + digit, lo);
}

/// Every valid number is the one generated from the sequence number that
/// its first nine digits spell.
pub proof fn lemma_valid_digits_are_generated(d: Seq<int>)
    requires
        is_valid_digits(d),
    ensures
        is_sequence_number(sequence_number_of(d)),
        number_digits(sequence_number_of(d)) == d,
{
    let seq = sequence_number_of(d);
    let lead = sequence_digits(seq);
    lemma_sequence_digits(seq);
    assert(lead[0] == d[0]) by {
        let lo = d[1] * 10_000_000 + d[2] * 1_000_000 + d[3] * 100_000 + d[4] * 10_000 + d[5]
            * 1_000 + d[6] * 100 + d[7] * 10 + d[8];
        lemma_digit_at_place(0, d[0], lo, 100_000_000);
    }
    assert(lead[1] == d[1]) by {
        let hi = d[0];
        let lo = d[2] * 1_000_000 + d[3] * 100_000 + d[4] * 10_000 + d[5] * 1_000 + d[6] * 100
            + d[7] * 10 + d[8];
        lemma_digit_at_place(hi, d[1], lo, 10_000_000);
    }
    assert(lead[2] == d[2]) by {
        let hi = d[0] * 10 + d[1];
        let lo = d[3] * 100_000 + d[4] * 10_000 + d[5] * 1_000 + d[6] * 100 + d[7] * 10 + d[8];
        lemma_digit_at_place(hi, d[2], lo, 1_000_000);
    }
    assert(lead[3] == d[3]) by {
        let hi = d[0] * 100 + d[1] * 10 + d[2];
        let lo = d[4] * 10_000 + d[5] * 1_000 + d[6] * 100 + d[7] * 10 + d[8];
        lemma_digit_at_place(hi, d[3], lo, 100_000);
    }
    assert(lead[4] == d[4]) by {
        let hi = d[0] * 1_000 + d[1] * 100 + d[2] * 10 + d[3];
        let lo = d[5] * 1_000 + d[6] * 100 + d[7] * 10 + d[8];
        lemma_digit_at_place(hi, d[4], lo, 10_000);
    }
    assert(lead[5] == d[5]) by {
        let hi = d[0] * 10_000 + d[1] * 1_000 + d[2] * 100 + d[3] * 10 + d[4];
        let lo = d[6] * 100 + d[7] * 10 + d[8];
        lemma_digit_at_place(hi, d[5], lo, 1_000);
    }
    assert(lead[6] == d[6]) by {
        let hi = d[0] * 100_000 + d[1] * 10_000 + d[2] * 1_000 + d[3] * 100 + d[4] * 10 + d[5];
        let lo = d[7] * 10 + d[8];
        lemma_digit_at_place(hi, d[6], lo, 100);
    }
    assert(lead[7] == d[7]) by {
        let hi = d[0] * 1_000_000 + d[1] * 100_000 + d[2] * 10_000 + d[3] * 1_000 + d[4] * 100
            + d[5] * 10 + d[6];
        lemma_digit_at_place(hi, d[7], d[8], 10);
    }
    assert(lead[8] == d[8]) by {
        let hi = d[0] * 10_000_000 + d[1] * 1_000_000 + d[2] * 100_000 + d[3] * 10_000 + d[4]
            * 1_000 + d[5] * 100 + d[6] * 10 + d[7];
        lemma_digit_at_place(hi, d[8], 0, 1);
    }
}

} // verus!
