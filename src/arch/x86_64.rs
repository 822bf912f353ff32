//! Page formats of x86-64.
use vstd::prelude::*;
use crate::arch::{level, lemma_table_sizes};
use crate::format::PageFormat;
use crate::level::PageLevel;

verus! {

/// The page is present.
pub const PAGE_PRESENT: u64 = 1 << 0;

/// The page is writeable.
pub const PAGE_WRITE: u64 = 1 << 1;

/// The page is accessible in user mode.
pub const PAGE_USER: u64 = 1 << 2;

/// The page is a huge page.
pub const PAGE_HUGE: u64 = 1 << 7;

/// The bits of an entry that refer to a physical address: up to 52 bits.
pub const PHYSICAL_MASK: u64 = 0x000f_ffff_ffff_f000;

/// Level `i` of the 4K hierarchy: nine address bits each, huge pages at levels one and two,
/// and the present, writeable and user bits in the entries of fresh page tables above the leaf.
pub open spec fn spec_level_4k(i: int) -> PageLevel {
    PageLevel {
        shift_bits: (12 + 9 * i) as u64,
        va_bits: 9,
        present_bit: (PAGE_PRESENT, PAGE_PRESENT),
        huge_page_bit: if i == 1 || i == 2 {
            (PAGE_HUGE, PAGE_HUGE)
        } else {
            (0, 0)
        },
        page_table_mask: if i == 0 {
            0
        } else {
            PAGE_PRESENT | PAGE_WRITE | PAGE_USER
        },
    }
}

/// Level `i` of the 4K hierarchy.
fn level_4k(i: u64) -> (r: PageLevel)
    requires
        i < 5,
    ensures
        r == spec_level_4k(i as int),
{
    let table = if i == 0 {
        0
    } else {
        PAGE_PRESENT | PAGE_WRITE | PAGE_USER
    };
    let huge = if i == 1 || i == 2 {
        (PAGE_HUGE, PAGE_HUGE)
    } else {
        (0, 0)
    };
    level(12 + 9 * i, 9, (PAGE_PRESENT, PAGE_PRESENT), huge, table)
}

/// The first `n` levels of the 4K hierarchy.
fn page_format_4k(n: u64) -> (r: PageFormat)
    requires
        1 <= n <= 5,
    ensures
        r.wf(),
        r.levels@.len() == n,
        forall|k: int| 0 <= k < n ==> #[trigger] r.levels@[k] == spec_level_4k(k),
        r.physical_mask == PHYSICAL_MASK,
        r.pte_size == 8,
{
    let mut levels: Vec<PageLevel> = Vec::new();
    let mut i: u64 = 0;
    while i < n
        invariant
            i <= n <= 5,
            levels@.len() == i,
            forall|k: int| 0 <= k < i ==> #[trigger] levels@[k] == spec_level_4k(k),
        decreases n - i,
    {
        levels.push(level_4k(i));
        i += 1;
    }
    assert forall|k: int| 0 <= k < levels@.len() - 1 implies #[trigger] levels@[k + 1].shift_bits
        == levels@[k].shift_bits + levels@[k].va_bits by {
        assert(levels@[k] == spec_level_4k(k));
        assert(levels@[k + 1] == spec_level_4k(k + 1));
    }
    assert forall|k: int| 0 <= k < levels@.len() implies 1 <= #[trigger] levels@[k].va_bits <= 32
        && levels@[k].shift_bits + levels@[k].va_bits <= 64 by {
        assert(levels@[k] == spec_level_4k(k));
    }
    proof {
        lemma_table_sizes();
    }
    PageFormat { levels, physical_mask: PHYSICAL_MASK, pte_size: 8 }
}

/// Four levels of 64-bit entries over 4K pages: 512 entries per table, nine address bits per
/// level, with 2M and 1G huge pages.
pub fn page_format_4k_l4() -> (r: PageFormat)
    ensures
        r.wf(),
        r.levels@.len() == 4,
        forall|k: int| 0 <= k < 4 ==> #[trigger] r.levels@[k] == spec_level_4k(k),
        r.physical_mask == PHYSICAL_MASK,
        r.pte_size == 8,
{
    page_format_4k(4)
}

/// Five levels of 64-bit entries over 4K pages (57-bit virtual addresses).
pub fn page_format_4k_l5() -> (r: PageFormat)
    ensures
        r.wf(),
        r.levels@.len() == 5,
        forall|k: int| 0 <= k < 5 ==> #[trigger] r.levels@[k] == spec_level_4k(k),
        r.physical_mask == PHYSICAL_MASK,
        r.pte_size == 8,
{
    page_format_4k(5)
}

/// The five-level format, also known as LA57.
pub fn page_format_la57() -> (r: PageFormat)
    ensures
        r.wf(),
        r.levels@.len() == 5,
        forall|k: int| 0 <= k < 5 ==> #[trigger] r.levels@[k] == spec_level_4k(k),
        r.physical_mask == PHYSICAL_MASK,
        r.pte_size == 8,
{
    page_format_4k_l5()
}

/// The default format: four levels over 4K pages.
pub fn default_page_format() -> (r: PageFormat)
    ensures
        r.wf(),
        r.levels@.len() == 4,
        forall|k: int| 0 <= k < 4 ==> #[trigger] r.levels@[k] == spec_level_4k(k),
        r.physical_mask == PHYSICAL_MASK,
        r.pte_size == 8,
{
    page_format_4k_l4()
}

} // verus!
