//! [`PteMapper`] maps a virtual address range onto a physical range that someone else owns,
//! such as memory-mapped I/O.
use vstd::prelude::*;
use core::ops::Range;
use crate::address_space::PageTableMapper;
use crate::format::PageFormat;
use crate::level::PageLevel;
use crate::walker::{PageWalkerMut, PteType};
use crate::walkers::allocator::{spec_table_entry, table_entry};

verus! {

/// A walk strategy that fills a missing leaf entry from a running physical address and mask,
/// which then moves on by one page, and a missing page table with a freshly allocated one. This
/// is what [`crate::AddressSpace::map_range`] does.
pub struct PteMapper {
    /// The physical address and protection bits of the next leaf page.
    pub mask: u64,
}

impl PteMapper {
    /// The entry for the next leaf page at `level`; the running mask then moves on by the
    /// level's page size, wrapping at the top of the 64-bit space.
    pub fn next_leaf(&mut self, level: &PageLevel) -> (r: u64)
        requires
            level.shift_bits < 64,
        ensures
            r == level.present_bit.1 | old(self).mask,
            final(self).mask == old(self).mask.wrapping_add(level.spec_page_size()),
    {
        let r = level.present_bit.1 | self.mask;
        self.mask = self.mask.wrapping_add(level.page_size());
        r
    }
}

impl<Mapper: PageTableMapper<Error>, Error> PageWalkerMut<Mapper, Error> for PteMapper {
    /// The physical address and protection bits of the next leaf page.
    type State = u64;

    open spec fn state(&self) -> u64 {
        self.mask
    }

    open spec fn after_hole(
        state: u64,
        mapper: Mapper,
        format: PageFormat,
        level: usize,
        range: Range<u64>,
        pte: u64,
    ) -> (u64, Mapper, u64) {
        let page_level = format.levels@[level as int];
        if level == 0 {
            (
                state.wrapping_add(page_level.spec_page_size()),
                mapper,
                page_level.present_bit.1 | state,
            )
        } else {
            let (allocated, page) = mapper.spec_alloc();
            (state, allocated, spec_table_entry(page_level, page))
        }
    }

    open spec fn pte_ok(
        state: u64,
        mapper: Mapper,
        format: PageFormat,
        pte_type: PteType,
        range: Range<u64>,
        pte: u64,
    ) -> bool {
        true
    }

    open spec fn hole_ok(
        state: u64,
        mapper: Mapper,
        format: PageFormat,
        level: usize,
        range: Range<u64>,
        pte: u64,
    ) -> bool {
        level == 0 || <Mapper as PageTableMapper<Error>>::infallible() || mapper.spec_alloc_result() is Ok
    }

    open spec fn post_ok(
        state: u64,
        mapper: Mapper,
        format: PageFormat,
        level: usize,
        range: Range<u64>,
        pte: u64,
    ) -> bool {
        true
    }

    open spec fn hole_rejects(
        state: u64,
        mapper: Mapper,
        format: PageFormat,
        level: usize,
        range: Range<u64>,
        pte: u64,
    ) -> bool {
        level > 0 && mapper.spec_alloc_result() is Err
    }

    open spec fn hole_error(
        state: u64,
        mapper: Mapper,
        format: PageFormat,
        level: usize,
        range: Range<u64>,
        pte: u64,
    ) -> Error {
        mapper.spec_alloc_result()->Err_0
    }

    fn handle_pte(
        &mut self,
        mapper: &mut Mapper,
        format: &PageFormat,
        pte_type: PteType,
        range: Range<u64>,
        pte: &mut u64,
    ) -> (r: Result<(), Error>) {
        Ok(())
    }

    fn handle_pte_hole(
        &mut self,
        mapper: &mut Mapper,
        format: &PageFormat,
        level: usize,
        range: Range<u64>,
        pte: &mut u64,
    ) -> (r: Result<(), Error>) {
        let page_level = &format.levels[level];
        assert(format.levels@[level as int].va_bits >= 1);
        if level == 0 {
            *pte = self.next_leaf(page_level);
        } else {
            let page = match mapper.alloc_page() {
                Ok(page) => page,
                Err(e) => return Err(e),
            };
            *pte = table_entry(page_level, page);
        }
        Ok(())
    }

    fn handle_post_pte(
        &mut self,
        mapper: &mut Mapper,
        format: &PageFormat,
        level: usize,
        range: Range<u64>,
        pte: &mut u64,
    ) -> (r: Result<(), Error>) {
        Ok(())
    }
}

} // verus!
