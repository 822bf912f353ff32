//! [`PteReader`] captures the entry that maps a page at a virtual address.
use vstd::prelude::*;
use core::ops::Range;
use crate::address_space::PageTableMapper;
use crate::format::{PageFormat, spec_piece_end};
use crate::walker::{PageWalker, PteType};

verus! {

/// A read-only walk strategy that keeps the last entry met that maps a page. Walked over a
/// single address, it finds the entry that maps it; this is what
/// [`crate::AddressSpace::read_pte`] does.
pub struct PteReader {
    /// The entry found, if any.
    pub pte: Option<u64>,
}

impl PteReader {
    /// Keeps `pte` when it maps a page; otherwise keeps what was found before.
    pub fn record(&mut self, pte_type: PteType, pte: u64)
        ensures
            final(self).pte == (if pte_type is Page {
                Some(pte)
            } else {
                old(self).pte
            }),
    {
        if pte_type.is_page() {
            self.pte = Some(pte);
        }
    }
}

impl<Mapper: PageTableMapper<Error>, Error> PageWalker<Mapper, Error> for PteReader {
    type State = Option<u64>;

    open spec fn state(&self) -> Option<u64> {
        self.pte
    }

    open spec fn after_pte(
        state: Option<u64>,
        mapper: Mapper,
        format: PageFormat,
        pte_type: PteType,
        range: Range<u64>,
        pte: u64,
    ) -> Option<u64> {
        if pte_type is Page {
            Some(pte)
        } else {
            state
        }
    }

    open spec fn after_hole(
        state: Option<u64>,
        mapper: Mapper,
        format: PageFormat,
        level: usize,
        range: Range<u64>,
        pte: u64,
    ) -> Option<u64> {
        state
    }

    open spec fn after_post(
        state: Option<u64>,
        mapper: Mapper,
        format: PageFormat,
        level: usize,
        range: Range<u64>,
        pte: u64,
    ) -> Option<u64> {
        state
    }

    open spec fn pte_ok(
        state: Option<u64>,
        mapper: Mapper,
        format: PageFormat,
        pte_type: PteType,
        range: Range<u64>,
        pte: u64,
    ) -> bool {
        true
    }

    open spec fn hole_ok(
        state: Option<u64>,
        mapper: Mapper,
        format: PageFormat,
        level: usize,
        range: Range<u64>,
        pte: u64,
    ) -> bool {
        true
    }

    open spec fn post_ok(
        state: Option<u64>,
        mapper: Mapper,
        format: PageFormat,
        level: usize,
        range: Range<u64>,
        pte: u64,
    ) -> bool {
        true
    }

    fn handle_pte(
        &mut self,
        mapper: &Mapper,
        format: &PageFormat,
        pte_type: PteType,
        range: Range<u64>,
        pte: &u64,
    ) -> (r: Result<(), Error>) {
        self.record(pte_type, *pte);
        Ok(())
    }

    fn handle_pte_hole(
        &mut self,
        mapper: &Mapper,
        format: &PageFormat,
        level: usize,
        range: Range<u64>,
        pte: &u64,
    ) -> (r: Result<(), Error>) {
        Ok(())
    }

    fn handle_post_pte(
        &mut self,
        mapper: &Mapper,
        format: &PageFormat,
        level: usize,
        range: Range<u64>,
        pte: &u64,
    ) -> (r: Result<(), Error>) {
        Ok(())
    }
}

/// Walked over the single address `addr`, a reader ends up holding the entry that the lookup of
/// `addr` finds, or what it held before where the lookup finds none.
pub proof fn lemma_reader_walk<Mapper, Error>(
    format: PageFormat,
    mapper: Mapper,
    phys: u64,
    index: usize,
    addr: u64,
    state: Option<u64>,
)
    where
        Mapper: PageTableMapper<Error>,
    requires
        format.wf(),
        index < format.levels@.len(),
        addr < u64::MAX,
        format.spec_sign_extend(addr) == addr,
    ensures
        format.spec_walk_from::<PteReader, Mapper, Error>(mapper, phys, index, addr, (addr + 1) as u64, state)
            == (match format.spec_lookup::<Mapper, Error>(mapper, phys, index, addr) {
            Some(pte) => Some(pte),
            None => state,
        }),
    decreases index,
{
    let level = format.levels@[index as int];
    assert(level.va_bits >= 1);
    let s = level.shift_bits;
    assert(addr | (((1u64 << s) - 1) as u64) >= addr) by (bit_vector);
    assert(spec_piece_end(level, addr, (addr + 1) as u64) == addr + 1);
    let pte = mapper.spec_pte(format.spec_pte_address(phys, level, addr));
    if !(index == 0 || level.spec_is_huge_page(pte)) && level.spec_is_present(pte) {
        lemma_reader_walk::<Mapper, Error>(
            format,
            mapper,
            pte & format.physical_mask,
            (index - 1) as usize,
            addr,
            state,
        );
    }
}

} // verus!
