//! Page formats of AArch64.
use vstd::prelude::*;
use crate::arch::{level, lemma_table_sizes, spec_level};
use crate::format::PageFormat;
use crate::level::PageLevel;

verus! {

/// The bits of an entry that refer to a physical address: up to 52 bits.
pub const PHYSICAL_MASK: u64 = 0x000f_ffff_ffff_f000;

/// An entry is valid when bit zero is set.
pub const VALID: u64 = 1 << 0;

/// At a level with blocks, an entry with bit one clear is a block (a huge page), one with bit
/// one set a table.
pub const TABLE: u64 = 1 << 1;

/// A level of `va_bits` address bits from `shift_bits` on, with or without blocks.
pub open spec fn spec_level_of(shift_bits: u64, va_bits: u64, blocks: bool) -> PageLevel {
    spec_level(shift_bits, va_bits, (VALID, VALID), if blocks {
        (TABLE, 0)
    } else {
        (0, 0)
    }, 0)
}

/// A level of `va_bits` address bits from `shift_bits` on, with or without blocks.
fn level_of(shift_bits: u64, va_bits: u64, blocks: bool) -> (r: PageLevel)
    ensures
        r == spec_level_of(shift_bits, va_bits, blocks),
{
    let huge = if blocks {
        (TABLE, 0)
    } else {
        (0, 0)
    };
    level(shift_bits, va_bits, (VALID, VALID), huge, 0)
}

/// The first `n` levels of the 4K hierarchy: nine address bits per level, 2M and 1G blocks.
fn page_format_4k(n: u64) -> (r: PageFormat)
    requires
        1 <= n <= 4,
    ensures
        r.wf(),
        r.levels@.len() == n,
        forall|k: int|
            0 <= k < n ==> #[trigger] r.levels@[k] == spec_level_of(
                (12 + 9 * k) as u64,
                9,
                k == 1 || k == 2,
            ),
        r.physical_mask == PHYSICAL_MASK,
        r.pte_size == 8,
{
    let mut levels: Vec<PageLevel> = Vec::new();
    let mut i: u64 = 0;
    while i < n
        invariant
            i <= n <= 4,
            levels@.len() == i,
            forall|k: int|
                0 <= k < i ==> #[trigger] levels@[k] == spec_level_of(
                    (12 + 9 * k) as u64,
                    9,
                    k == 1 || k == 2,
                ),
        decreases n - i,
    {
        levels.push(level_of(12 + 9 * i, 9, i == 1 || i == 2));
        i += 1;
    }
    assert forall|k: int| 0 <= k < levels@.len() - 1 implies #[trigger] levels@[k + 1].shift_bits
        == levels@[k].shift_bits + levels@[k].va_bits by {
        assert(levels@[k] == spec_level_of((12 + 9 * k) as u64, 9, k == 1 || k == 2));
        assert(levels@[k + 1] == spec_level_of((12 + 9 * (k + 1)) as u64, 9, k + 1 == 1 || k + 1 == 2));
    }
    assert forall|k: int| 0 <= k < levels@.len() implies 1 <= #[trigger] levels@[k].va_bits <= 32
        && levels@[k].shift_bits + levels@[k].va_bits <= 64 by {
        assert(levels@[k] == spec_level_of((12 + 9 * k) as u64, 9, k == 1 || k == 2));
    }
    proof {
        lemma_table_sizes();
    }
    PageFormat { levels, physical_mask: PHYSICAL_MASK, pte_size: 8 }
}

/// Three levels of 64-bit entries over 4K pages, with 2M and 1G blocks: a shorter walk than
/// the four-level format.
pub fn page_format_4k_l3() -> (r: PageFormat)
    ensures
        r.wf(),
        r.levels@.len() == 3,
        forall|k: int|
            0 <= k < 3 ==> #[trigger] r.levels@[k] == spec_level_of(
                (12 + 9 * k) as u64,
                9,
                k == 1 || k == 2,
            ),
        r.physical_mask == PHYSICAL_MASK,
        r.pte_size == 8,
{
    page_format_4k(3)
}

/// Four levels of 64-bit entries over 4K pages, with 2M and 1G blocks.
pub fn page_format_4k_l4() -> (r: PageFormat)
    ensures
        r.wf(),
        r.levels@.len() == 4,
        forall|k: int|
            0 <= k < 4 ==> #[trigger] r.levels@[k] == spec_level_of(
                (12 + 9 * k) as u64,
                9,
                k == 1 || k == 2,
            ),
        r.physical_mask == PHYSICAL_MASK,
        r.pte_size == 8,
{
    page_format_4k(4)
}

/// Four levels of 64-bit entries with eleven address bits per level, but one bit and two
/// entries at the root.
pub fn page_format_16k() -> (r: PageFormat)
    ensures
        r.wf(),
        r.levels@ == seq![
            spec_level_of(12, 11, false),
            spec_level_of(23, 11, true),
            spec_level_of(34, 11, false),
            spec_level_of(45, 1, false),
        ],
        r.physical_mask == PHYSICAL_MASK,
        r.pte_size == 8,
{
    let mut levels = Vec::new();
    levels.push(level_of(12, 11, false));
    levels.push(level_of(23, 11, true));
    levels.push(level_of(34, 11, false));
    levels.push(level_of(45, 1, false));
    assert(levels@ =~= seq![levels@[0], levels@[1], levels@[2], levels@[3]]);
    proof {
        lemma_table_sizes();
    }
    PageFormat { levels, physical_mask: PHYSICAL_MASK, pte_size: 8 }
}

/// Three levels of 64-bit entries with thirteen address bits per level, but six bits and 64
/// entries at the root.
pub fn page_format_64k() -> (r: PageFormat)
    ensures
        r.wf(),
        r.levels@ == seq![
            spec_level_of(12, 13, false),
            spec_level_of(25, 13, true),
            spec_level_of(38, 6, false),
        ],
        r.physical_mask == PHYSICAL_MASK,
        r.pte_size == 8,
{
    let mut levels = Vec::new();
    levels.push(level_of(12, 13, false));
    levels.push(level_of(25, 13, true));
    levels.push(level_of(38, 6, false));
    assert(levels@ =~= seq![levels@[0], levels@[1], levels@[2]]);
    proof {
        lemma_table_sizes();
    }
    PageFormat { levels, physical_mask: PHYSICAL_MASK, pte_size: 8 }
}

} // verus!
