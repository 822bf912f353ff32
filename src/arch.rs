//! Page formats of common architectures.
pub mod aarch64;
pub mod arm;
pub mod x86;
pub mod x86_64;

use vstd::prelude::*;
use crate::level::PageLevel;

verus! {

/// The level with the given fields.
pub open spec fn spec_level(
    shift_bits: u64,
    va_bits: u64,
    present_bit: (u64, u64),
    huge_page_bit: (u64, u64),
    page_table_mask: u64,
) -> PageLevel {
    PageLevel { shift_bits, va_bits, present_bit, huge_page_bit, page_table_mask }
}

/// The number of entries of the table sizes that the formats here use.
pub(crate) proof fn lemma_table_sizes()
    ensures
        1u64 << 1u64 == 2,
        1u64 << 2u64 == 4,
        1u64 << 6u64 == 64,
        1u64 << 8u64 == 256,
        1u64 << 9u64 == 512,
        1u64 << 10u64 == 1024,
        1u64 << 11u64 == 2048,
        1u64 << 12u64 == 4096,
        1u64 << 13u64 == 8192,
{
    assert(1u64 << 1u64 == 2 && 1u64 << 2u64 == 4 && 1u64 << 6u64 == 64) by (bit_vector);
    assert(1u64 << 8u64 == 256 && 1u64 << 9u64 == 512 && 1u64 << 10u64 == 1024) by (bit_vector);
    assert(1u64 << 11u64 == 2048 && 1u64 << 12u64 == 4096 && 1u64 << 13u64 == 8192) by (bit_vector);
}

/// A level built from its fields.
pub(crate) fn level(
    shift_bits: u64,
    va_bits: u64,
    present_bit: (u64, u64),
    huge_page_bit: (u64, u64),
    page_table_mask: u64,
) -> (r: PageLevel)
    ensures
        r == spec_level(shift_bits, va_bits, present_bit, huge_page_bit, page_table_mask),
{
    PageLevel { shift_bits, va_bits, present_bit, huge_page_bit, page_table_mask }
}

} // verus!
