//! Bit ranges of machine words.

use bit_field::BitField;
use vstd::arithmetic::power2::pow2;
use vstd::prelude::*;

verus! {

/// The bits `start..end` of `value`, moved down so that bit `start` becomes
/// bit 0.
pub open spec fn bit_range(value: nat, start: nat, end: nat) -> nat {
    (value / pow2(start)) % pow2((end - start) as nat)
}

/// Calls `bit_field::BitField::get_bits` on a `u64` with the range
/// `start..end`.
///
/// Trusted: the result is taken to be the bits `start..end` of `value`,
/// shifted down to bit 0. The outside function asserts `start < 64`,
/// `end <= 64` and `start <= end`, which the precondition repeats.
#[verifier::external_body]
pub(crate) fn get_bits_u64(value: u64, start: usize, end: usize) -> (bits: u64)
    requires
        start < 64,
        start <= end <= 64,
    ensures
        bits as nat == bit_range(value as nat, start as nat, end as nat),
{
    value.get_bits(start..end)
}

/// Calls `bit_field::BitField::get_bits` on a `u16` with the range
/// `start..end`.
///
/// Trusted: the result is taken to be the bits `start..end` of `value`,
/// shifted down to bit 0. The outside function asserts `start < 16`,
/// `end <= 16` and `start <= end`, which the precondition repeats.
#[verifier::external_body]
pub(crate) fn get_bits_u16(value: u16, start: usize, end: usize) -> (bits: u16)
    requires
        start < 16,
        start <= end <= 16,
    ensures
        bits as nat == bit_range(value as nat, start as nat, end as nat),
{
    value.get_bits(start..end)
}

} // verus!
