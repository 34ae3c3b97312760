//! The checksum arithmetic shared by validation and generation.
//!
//! A number has eleven decimal digits `d[0]` to `d[10]`. The digits at the
//! odd places, counted from one, are `d[0]`, `d[2]`, `d[4]`, `d[6]` and
//! `d[8]`; those at the even places are `d[1]`, `d[3]`, `d[5]` and `d[7]`.
//! `d[9]` and `d[10]` are check digits computed from the two sums.

use vstd::prelude::*;

verus! {

/// The sum of the digits at the odd places among the first `n` digits of
/// `d`, for `n` up to nine.
pub open spec fn odd_sum_of_first(d: Seq<int>, n: int) -> int {
    (if n > 0 { d[0] } else { 0 }) + (if n > 2 { d[2] } else { 0 }) + (if n > 4 { d[4] } else { 0 })
        + (if n > 6 { d[6] } else { 0 }) + (if n > 8 { d[8] } else { 0 })
}

/// The sum of the digits at the even places among the first `n` digits of
/// `d`, for `n` up to nine.
pub open spec fn even_sum_of_first(d: Seq<int>, n: int) -> int {
    (if n > 1 { d[1] } else { 0 }) + (if n > 3 { d[3] } else { 0 }) + (if n > 5 { d[5] } else { 0 })
        + (if n > 7 { d[7] } else { 0 })
}

/// The sum of the five digits at the odd places.
pub open spec fn odd_sum(d: Seq<int>) -> int {
    d[0] + d[2] + d[4] + d[6] + d[8]
}

/// The sum of the four digits at the even places.
pub open spec fn even_sum(d: Seq<int>) -> int {
    d[1] + d[3] + d[5] + d[7]
}

/// The first check digit for the given sums of the odd-placed and the
/// even-placed digits: `odd_sum * 7 - even_sum`, reduced to `0..10` by the
/// Euclidean remainder, since the difference can be negative.
pub open spec fn initial_checksum(odd_sum: int, even_sum: int) -> int {
    (odd_sum * 7 - even_sum) % 10
}

/// The second check digit: the last decimal digit of the sum of the first
/// ten digits, the first check digit among them.
pub open spec fn final_checksum(odd_sum: int, even_sum: int, first_checksum: int) -> int {
    (odd_sum + even_sum + first_checksum) % 10
}

/// Whether `d` is the digit sequence of a valid number: eleven decimal
/// digits, the first of them not zero, the last two the check digits of the
/// nine before them.
pub open spec fn is_valid_digits(d: Seq<int>) -> bool {
    &&& d.len() == 11
    &&& forall|i: int| 0 <= i < 11 ==> 0 <= #[trigger] d[i] <= 9
    &&& d[0] != 0
    &&& d[9] == initial_checksum(odd_sum(d), even_sum(d))
    &&& d[10] == final_checksum(odd_sum(d), even_sum(d), d[9])
}

/// Computes [`initial_checksum`] on machine integers.
pub(crate) fn compute_initial_checksum(odd_sum: i32, even_sum: i32) -> (c: i32)
    requires
        0 <= odd_sum <= 45,
        0 <= even_sum <= 36,
    ensures
        c == initial_checksum(odd_sum as int, even_sum as int),
        0 <= c < 10,
{
    (odd_sum * 7 - even_sum).checked_rem_euclid(10).unwrap()
}

/// Computes [`final_checksum`] on machine integers.
pub(crate) fn compute_final_checksum(odd_sum: i32, even_sum: i32, first_checksum: i32) -> (c: i32)
    requires
        0 <= odd_sum <= 45,
        0 <= even_sum <= 36,
        0 <= first_checksum < 10,
    ensures
        c == final_checksum(odd_sum as int, even_sum as int, first_checksum as int),
        0 <= c < 10,
{
    (odd_sum + even_sum + first_checksum) % 10
}

} // verus!
