//! [`PteProtector`] changes the protection bits of the pages in a virtual address range.
use vstd::prelude::*;
use core::ops::Range;
use crate::address_space::PageTableMapper;
use crate::format::{PageFormat, lemma_piece_advances, spec_piece_end};
use crate::walkers::writer::writes_are_exact;
use crate::level::PageLevel;
use crate::walker::{PageWalkerMut, PteType};

verus! {

/// The bits of a leaf entry that a protection change leaves alone: the physical address, the
/// present bits and the huge-page bits of its level.
pub open spec fn kept_bits(level: PageLevel, physical_mask: u64) -> u64 {
    physical_mask | level.huge_page_bit.0 | level.present_bit.0
}

/// `pte` with the bits of `mask.0` cleared and those of `mask.1` set, except for the kept bits.
pub open spec fn spec_protect(mask: (u64, u64), level: PageLevel, physical_mask: u64, pte: u64) -> u64 {
    let clear = mask.0 & !kept_bits(level, physical_mask);
    let set = mask.1 & !kept_bits(level, physical_mask);
    (pte & !clear) | set
}

/// A walk strategy that changes the protection bits of every present page it meets. This is
/// what [`crate::AddressSpace::protect_range`] does.
pub struct PteProtector {
    /// The bits to clear, then the bits to set.
    pub mask: (u64, u64),
}

impl PteProtector {
    /// The entry of a present page at `level` after the protection change. The physical
    /// address, present and huge-page bits stay as they were.
    pub fn protect(&self, level: &PageLevel, physical_mask: u64, pte: u64) -> (r: u64)
        ensures
            r == spec_protect(self.mask, *level, physical_mask, pte),
            r & kept_bits(*level, physical_mask) == pte & kept_bits(*level, physical_mask),
    {
        let keep = physical_mask | level.huge_page_bit.0 | level.present_bit.0;
        let clear_mask = self.mask.0 & !keep;
        let set_mask = self.mask.1 & !keep;
        let (c, s) = self.mask;
        assert(((pte & !(c & !keep)) | (s & !keep)) & keep == pte & keep) by (bit_vector);
        (pte & !clear_mask) | set_mask
    }
}

impl<Mapper: PageTableMapper<Error>, Error> PageWalkerMut<Mapper, Error> for PteProtector {
    /// The bits to clear, then the bits to set.
    type State = (u64, u64);

    open spec fn state(&self) -> (u64, u64) {
        self.mask
    }

    open spec fn after_pte(
        state: (u64, u64),
        mapper: Mapper,
        format: PageFormat,
        pte_type: PteType,
        range: Range<u64>,
        pte: u64,
    ) -> ((u64, u64), Mapper, u64) {
        let level = format.levels@[pte_type.spec_level() as int];
        if pte_type is Page && level.spec_is_present(pte) {
            (state, mapper, spec_protect(state, level, format.physical_mask, pte))
        } else {
            (state, mapper, pte)
        }
    }

    open spec fn pte_ok(
        state: (u64, u64),
        mapper: Mapper,
        format: PageFormat,
        pte_type: PteType,
        range: Range<u64>,
        pte: u64,
    ) -> bool {
        true
    }

    open spec fn hole_ok(
        state: (u64, u64),
        mapper: Mapper,
        format: PageFormat,
        level: usize,
        range: Range<u64>,
        pte: u64,
    ) -> bool {
        true
    }

    open spec fn post_ok(
        state: (u64, u64),
        mapper: Mapper,
        format: PageFormat,
        level: usize,
        range: Range<u64>,
        pte: u64,
    ) -> bool {
        true
    }

    fn handle_pte(
        &mut self,
        mapper: &mut Mapper,
        format: &PageFormat,
        pte_type: PteType,
        range: Range<u64>,
        pte: &mut u64,
    ) -> (r: Result<(), Error>) {
        if let PteType::Page(index) = pte_type {
            let level = &format.levels[index];
            if level.is_present(*pte) {
                *pte = self.protect(level, format.physical_mask, *pte);
            }
        }
        Ok(())
    }

    fn handle_pte_hole(
        &mut self,
        mapper: &mut Mapper,
        format: &PageFormat,
        level: usize,
        range: Range<u64>,
        pte: &mut u64,
    ) -> (r: Result<(), Error>) {
        Ok(())
    }

    fn handle_post_pte(
        &mut self,
        mapper: &mut Mapper,
        format: &PageFormat,
        level: usize,
        range: Range<u64>,
        pte: &mut u64,
    ) -> (r: Result<(), Error>) {
        Ok(())
    }
}

/// A protection change keeps the physical-address bits of an entry.
proof fn lemma_protect_keeps_address(mask: (u64, u64), level: PageLevel, physical_mask: u64, pte: u64)
    ensures
        spec_protect(mask, level, physical_mask, pte) & physical_mask == pte & physical_mask,
{
    let (c, s) = mask;
    let h = level.huge_page_bit.0;
    let p = level.present_bit.0;
    let pm = physical_mask;
    assert(((pte & !(c & !(pm | h | p))) | (s & !(pm | h | p))) & pm == pte & pm) by (bit_vector);
}

/// A protection walk, through a mapper whose writes change exactly the written cell, leaves the
/// physical-address bits of every cell as they were.
pub proof fn lemma_protect_walk_keeps_addresses<Mapper, Error>(
    format: PageFormat,
    mapper: Mapper,
    phys: u64,
    index: usize,
    cursor: u64,
    end: u64,
    mask: (u64, u64),
)
    where
        Mapper: PageTableMapper<Error>,
    requires
        writes_are_exact::<Mapper, Error>(),
        format.wf(),
    ensures
        format.spec_walk_mut_from::<PteProtector, Mapper, Error>(
            mapper,
            phys,
            index,
            cursor,
            end,
            mask,
        ).0 == mask,
        forall|b: u64|
            #[trigger] format.spec_walk_mut_from::<PteProtector, Mapper, Error>(
                mapper,
                phys,
                index,
                cursor,
                end,
                mask,
            ).1.spec_pte(b) & format.physical_mask == mapper.spec_pte(b) & format.physical_mask,
    decreases index, if cursor < end {
        end - cursor
    } else {
        0
    },
{
    if cursor < end && index < format.levels@.len() {
        let level = format.levels@[index as int];
        let piece_end = spec_piece_end(level, cursor, end);
        lemma_piece_advances(format, index, cursor, end);
        let cell = format.spec_pte_address(phys, level, cursor);
        let pte = mapper.spec_pte(cell);
        let new_pte = <PteProtector as PageWalkerMut<Mapper, Error>>::after_pte(
            mask,
            mapper,
            format,
            format.spec_classify(index, pte),
            cursor..piece_end,
            pte,
        ).2;
        lemma_protect_keeps_address(mask, level, format.physical_mask, pte);
        assert(new_pte & format.physical_mask == pte & format.physical_mask);
        let written = mapper.spec_write(cell, new_pte);
        let next_mapper = if index != 0 && !level.spec_is_huge_page(new_pte) && level.spec_is_present(new_pte) {
            lemma_protect_walk_keeps_addresses::<Mapper, Error>(
                format,
                written,
                new_pte & format.physical_mask,
                (index - 1) as usize,
                format.spec_sign_extend(cursor),
                piece_end,
                mask,
            );
            let below = format.spec_walk_mut_from::<PteProtector, Mapper, Error>(
                written,
                new_pte & format.physical_mask,
                (index - 1) as usize,
                format.spec_sign_extend(cursor),
                piece_end,
                mask,
            ).1;
            below.spec_write(cell, new_pte)
        } else {
            written
        };
        assert forall|b: u64| #[trigger] next_mapper.spec_pte(b) & format.physical_mask == mapper.spec_pte(b)
            & format.physical_mask by {
            if b != cell {
                assert(written.spec_pte(b) == mapper.spec_pte(b));
            }
        }
        let result = format.spec_walk_mut_from::<PteProtector, Mapper, Error>(
            mapper,
            phys,
            index,
            cursor,
            end,
            mask,
        ).1;
        if piece_end == end {
            assert(result == next_mapper);
        } else {
            lemma_protect_walk_keeps_addresses::<Mapper, Error>(
                format,
                next_mapper,
                phys,
                index,
                format.spec_sign_extend(piece_end),
                end,
                mask,
            );
            let rest = format.spec_walk_mut_from::<PteProtector, Mapper, Error>(
                next_mapper,
                phys,
                index,
                format.spec_sign_extend(piece_end),
                end,
                mask,
            ).1;
            assert(result == rest);
            assert forall|b: u64| #[trigger] result.spec_pte(b) & format.physical_mask
                == mapper.spec_pte(b) & format.physical_mask by {
                assert(rest.spec_pte(b) & format.physical_mask == next_mapper.spec_pte(b) & format.physical_mask);
            }
        }
    }
}

} // verus!
