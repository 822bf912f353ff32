//! [`PteAllocator`] backs a virtual address range with fresh pages and the page tables that are
//! missing above them.
use vstd::prelude::*;
use core::ops::Range;
use crate::address_space::PageTableMapper;
use crate::format::PageFormat;
use crate::level::PageLevel;
use crate::walker::{PageWalkerMut, PteType};

verus! {

/// The entry for a freshly allocated page table at `page`: the page, the present value and
/// the level's page table bits, with the huge-page bits set to the opposite of the huge-page
/// value, so that the entry does not read as a huge page.
pub open spec fn spec_table_entry(level: PageLevel, page: u64) -> u64 {
    ((page | level.present_bit.1 | level.page_table_mask) & !level.huge_page_bit.0) | (
    level.huge_page_bit.0 & !level.huge_page_bit.1)
}

/// The entry that fills a hole at level `index` with the freshly allocated `page`: a leaf page
/// with the mask at the leaf level, a page table above it.
pub open spec fn spec_hole_entry(mask: Option<u64>, level: PageLevel, index: usize, page: u64) -> u64 {
    if index == 0 {
        page | level.present_bit.1 | mask->Some_0
    } else {
        spec_table_entry(level, page)
    }
}

/// Makes the entry for a freshly allocated page table at `page`.
pub fn table_entry(level: &PageLevel, page: u64) -> (r: u64)
    ensures
        r == spec_table_entry(*level, page),
        level.huge_page_bit.1 & !level.huge_page_bit.0 == 0 && level.present_bit.1
            & level.huge_page_bit.0 == 0 ==> !level.spec_is_huge_page(r),
{
    let base = page | level.present_bit.1 | level.page_table_mask;
    let (pm, pv) = level.present_bit;
    let (hm, hv) = level.huge_page_bit;
    assert(hv & !hm == 0 && pv & hm == 0 && hm != 0 ==> ((base & !hm) | (hm & !hv)) & (pm | hm)
        != (pv | hv)) by (bit_vector);
    (base & !level.huge_page_bit.0) | (level.huge_page_bit.0 & !level.huge_page_bit.1)
}

/// A walk strategy that fills every hole it meets: a missing page table with a freshly
/// allocated one and, where a mask is given, a missing leaf page with a freshly allocated page
/// that carries the mask. This is what [`crate::AddressSpace::allocate_range`] does.
pub struct PteAllocator {
    /// The protection bits of the leaf pages; with `None`, only page tables are allocated.
    pub mask: Option<u64>,
}

impl PteAllocator {
    /// Whether a hole at level `index` gets a freshly allocated page: always above the leaf
    /// level, and at the leaf level where a mask is given.
    pub fn allocates(&self, index: usize) -> (r: bool)
        ensures
            r == (index > 0 || self.mask is Some),
    {
        index > 0 || self.mask.is_some()
    }

    /// The entry that fills a hole at level `index` with the freshly allocated `page`: a leaf
    /// page with the mask at the leaf level, a page table above it.
    pub fn hole_entry(&self, level: &PageLevel, index: usize, page: u64) -> (r: u64)
        requires
            index > 0 || self.mask is Some,
        ensures
            r == spec_hole_entry(self.mask, *level, index, page),
            index > 0 && level.huge_page_bit.1 & !level.huge_page_bit.0 == 0 && level.present_bit.1
                & level.huge_page_bit.0 == 0 ==> !level.spec_is_huge_page(r),
    {
        if index == 0 {
            match self.mask {
                Some(mask) => page | level.present_bit.1 | mask,
                None => page,
            }
        } else {
            table_entry(level, page)
        }
    }
}

impl<Mapper: PageTableMapper<Error>, Error> PageWalkerMut<Mapper, Error> for PteAllocator {
    /// The protection bits of the leaf pages.
    type State = Option<u64>;

    open spec fn state(&self) -> Option<u64> {
        self.mask
    }

    open spec fn after_hole(
        state: Option<u64>,
        mapper: Mapper,
        format: PageFormat,
        level: usize,
        range: Range<u64>,
        pte: u64,
    ) -> (Option<u64>, Mapper, u64) {
        if level > 0 || state is Some {
            let (allocated, page) = mapper.spec_alloc();
            (state, allocated, spec_hole_entry(state, format.levels@[level as int], level, page))
        } else {
            (state, mapper, pte)
        }
    }

    open spec fn pte_ok(
        state: Option<u64>,
        mapper: Mapper,
        format: PageFormat,
        pte_type: PteType,
        range: Range<u64>,
        pte: u64,
    ) -> bool {
        true
    }

    open spec fn hole_ok(
        state: Option<u64>,
        mapper: Mapper,
        format: PageFormat,
        level: usize,
        range: Range<u64>,
        pte: u64,
    ) -> bool {
        !(level > 0 || state is Some) || <Mapper as PageTableMapper<Error>>::infallible() || mapper.spec_alloc_result() is Ok
    }

    open spec fn post_ok(
        state: Option<u64>,
        mapper: Mapper,
        format: PageFormat,
        level: usize,
        range: Range<u64>,
        pte: u64,
    ) -> bool {
        true
    }

    open spec fn hole_rejects(
        state: Option<u64>,
        mapper: Mapper,
        format: PageFormat,
        level: usize,
        range: Range<u64>,
        pte: u64,
    ) -> bool {
        (level > 0 || state is Some) && mapper.spec_alloc_result() is Err
    }

    open spec fn hole_error(
        state: Option<u64>,
        mapper: Mapper,
        format: PageFormat,
        level: usize,
        range: Range<u64>,
        pte: u64,
    ) -> Error {
        mapper.spec_alloc_result()->Err_0
    }

    fn handle_pte(
        &mut self,
        mapper: &mut Mapper,
        format: &PageFormat,
        pte_type: PteType,
        range: Range<u64>,
        pte: &mut u64,
    ) -> (r: Result<(), Error>) {
        Ok(())
    }

    fn handle_pte_hole(
        &mut self,
        mapper: &mut Mapper,
        format: &PageFormat,
        level: usize,
        range: Range<u64>,
        pte: &mut u64,
    ) -> (r: Result<(), Error>) {
        if self.allocates(level) {
            let page = match mapper.alloc_page() {
                Ok(page) => page,
                Err(e) => return Err(e),
            };
            *pte = self.hole_entry(&format.levels[level], level, page);
        }
        Ok(())
    }

    fn handle_post_pte(
        &mut self,
        mapper: &mut Mapper,
        format: &PageFormat,
        level: usize,
        range: Range<u64>,
        pte: &mut u64,
    ) -> (r: Result<(), Error>) {
        Ok(())
    }
}

} // verus!
