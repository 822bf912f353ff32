//! Page formats of 32-bit x86.
use vstd::prelude::*;
use crate::arch::{level, lemma_table_sizes, spec_level};
use crate::format::PageFormat;

verus! {

/// The page is present.
pub const PAGE_PRESENT: u64 = 1 << 0;

/// The page is writeable.
pub const PAGE_WRITE: u64 = 1 << 1;

/// The page is accessible in user mode.
pub const PAGE_USER: u64 = 1 << 2;

/// The page is a huge page.
pub const PAGE_HUGE: u64 = 1 << 7;

/// Two levels of 32-bit entries over 4K pages: 1024 entries per table, ten address bits per
/// level, with 4M huge pages at the root.
pub fn page_format_4k() -> (r: PageFormat)
    ensures
        r.wf(),
        r.levels@ == seq![
            spec_level(12, 10, (PAGE_PRESENT, PAGE_PRESENT), (0, 0), 0),
            spec_level(
                22,
                10,
                (PAGE_PRESENT, PAGE_PRESENT),
                (PAGE_HUGE, PAGE_HUGE),
                PAGE_PRESENT | PAGE_WRITE | PAGE_USER,
            ),
        ],
        r.physical_mask == 0xffff_f000,
        r.pte_size == 4,
{
    let mut levels = Vec::new();
    levels.push(level(12, 10, (PAGE_PRESENT, PAGE_PRESENT), (0, 0), 0));
    levels.push(
        level(
            22,
            10,
            (PAGE_PRESENT, PAGE_PRESENT),
            (PAGE_HUGE, PAGE_HUGE),
            PAGE_PRESENT | PAGE_WRITE | PAGE_USER,
        ),
    );
    assert(levels@ =~= seq![levels@[0], levels@[1]]);
    proof {
        lemma_table_sizes();
    }
    PageFormat { levels, physical_mask: 0xffff_f000, pte_size: 4 }
}

/// Three levels of 64-bit entries over 4K pages with the Physical Address Extension: 512
/// entries per table and nine address bits per level, but four entries and two bits at the
/// root, with 2M huge pages.
pub fn page_format_4k_pae() -> (r: PageFormat)
    ensures
        r.wf(),
        r.levels@ == seq![
            spec_level(12, 9, (PAGE_PRESENT, PAGE_PRESENT), (0, 0), 0),
            spec_level(
                21,
                9,
                (PAGE_PRESENT, PAGE_PRESENT),
                (PAGE_HUGE, PAGE_HUGE),
                PAGE_PRESENT | PAGE_WRITE | PAGE_USER,
            ),
            spec_level(30, 2, (PAGE_PRESENT, PAGE_PRESENT), (0, 0), PAGE_PRESENT | PAGE_WRITE | PAGE_USER),
        ],
        r.physical_mask == 0x000f_ffff_ffff_f000,
        r.pte_size == 8,
{
    let mut levels = Vec::new();
    levels.push(level(12, 9, (PAGE_PRESENT, PAGE_PRESENT), (0, 0), 0));
    levels.push(
        level(
            21,
            9,
            (PAGE_PRESENT, PAGE_PRESENT),
            (PAGE_HUGE, PAGE_HUGE),
            PAGE_PRESENT | PAGE_WRITE | PAGE_USER,
        ),
    );
    levels.push(
        level(30, 2, (PAGE_PRESENT, PAGE_PRESENT), (0, 0), PAGE_PRESENT | PAGE_WRITE | PAGE_USER),
    );
    assert(levels@ =~= seq![levels@[0], levels@[1], levels@[2]]);
    proof {
        lemma_table_sizes();
    }
    PageFormat { levels, physical_mask: 0x000f_ffff_ffff_f000, pte_size: 8 }
}

/// The default format: two levels over 4K pages.
pub fn default_page_format() -> (r: PageFormat)
    ensures
        r.wf(),
        r.levels@.len() == 2,
        r.physical_mask == 0xffff_f000,
        r.pte_size == 4,
{
    page_format_4k()
}

} // verus!
