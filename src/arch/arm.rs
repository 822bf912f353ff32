//! Page formats of ARMv7-A.
use vstd::prelude::*;
use crate::arch::{level, lemma_table_sizes, spec_level};
use crate::format::PageFormat;

verus! {

/// Bit zero of a descriptor: set in a valid one.
pub const VALID_BIT: u64 = 1 << 0;

/// Bit one of a descriptor: above the leaf, a valid descriptor with this bit clear is taken as a
/// huge page; at the leaf, a present entry has both bits set.
pub const TYPE_BIT: u64 = 1 << 1;

/// Two levels of 32-bit entries over 4K pages: 256 entries and eight address bits at the leaf,
/// 4096 entries and twelve bits at the root, with 1M sections as huge pages.
pub fn page_format_4k() -> (r: PageFormat)
    ensures
        r.wf(),
        r.levels@ == seq![
            spec_level(12, 8, (VALID_BIT | TYPE_BIT, VALID_BIT | TYPE_BIT), (0, 0), 0),
            spec_level(20, 12, (VALID_BIT, VALID_BIT), (TYPE_BIT, 0), 0),
        ],
        r.physical_mask == 0xffff_f000,
        r.pte_size == 4,
{
    let mut levels = Vec::new();
    levels.push(level(12, 8, (VALID_BIT | TYPE_BIT, VALID_BIT | TYPE_BIT), (0, 0), 0));
    levels.push(level(20, 12, (VALID_BIT, VALID_BIT), (TYPE_BIT, 0), 0));
    assert(levels@ =~= seq![levels@[0], levels@[1]]);
    proof {
        lemma_table_sizes();
    }
    PageFormat { levels, physical_mask: 0xffff_f000, pte_size: 4 }
}

/// Three levels of 64-bit entries over 4K pages with the Large Physical Address Extension: 512
/// entries and nine bits per level, four entries and two bits at the root, with 2M and 1G huge
/// pages.
pub fn page_format_4k_pae() -> (r: PageFormat)
    ensures
        r.wf(),
        r.levels@ == seq![
            spec_level(12, 9, (VALID_BIT | TYPE_BIT, VALID_BIT | TYPE_BIT), (0, 0), 0),
            spec_level(21, 9, (VALID_BIT, VALID_BIT), (TYPE_BIT, 0), 0),
            spec_level(30, 2, (VALID_BIT, VALID_BIT), (TYPE_BIT, 0), 0),
        ],
        r.physical_mask == 0x0000_00ff_ffff_f000,
        r.pte_size == 8,
{
    let mut levels = Vec::new();
    levels.push(level(12, 9, (VALID_BIT | TYPE_BIT, VALID_BIT | TYPE_BIT), (0, 0), 0));
    levels.push(level(21, 9, (VALID_BIT, VALID_BIT), (TYPE_BIT, 0), 0));
    levels.push(level(30, 2, (VALID_BIT, VALID_BIT), (TYPE_BIT, 0), 0));
    assert(levels@ =~= seq![levels@[0], levels@[1], levels@[2]]);
    proof {
        lemma_table_sizes();
    }
    PageFormat { levels, physical_mask: 0x0000_00ff_ffff_f000, pte_size: 8 }
}

/// The default format: two levels over 4K pages.
pub fn default_page_format() -> (r: PageFormat)
    ensures
        r.wf(),
        r.levels@.len() == 2,
        r.physical_mask == 0xffff_f000,
        r.pte_size == 4,
{
    page_format_4k()
}

} // verus!
