//! [`PteWriter`] replaces the entry that maps a page at a virtual address.
use vstd::prelude::*;
use core::ops::Range;
use crate::address_space::PageTableMapper;
use crate::format::{PageFormat, spec_piece_end};
use crate::walker::{PageWalkerMut, PteType};

verus! {

/// A walk strategy that overwrites every entry met that maps a page with a given value. It
/// creates no page tables. Walked over a single address, it replaces the entry that maps it;
/// this is what [`crate::AddressSpace::write_pte`] does.
pub struct PteWriter {
    /// The value to store.
    pub pte: u64,
}

impl PteWriter {
    /// The new value of an entry: the stored value where the entry maps a page, else the entry
    /// as it is.
    pub fn rewrite(&self, pte_type: PteType, pte: u64) -> (r: u64)
        ensures
            r == (if pte_type is Page {
                self.pte
            } else {
                pte
            }),
    {
        if pte_type.is_page() {
            self.pte
        } else {
            pte
        }
    }
}

impl<Mapper: PageTableMapper<Error>, Error> PageWalkerMut<Mapper, Error> for PteWriter {
    /// The value to store.
    type State = u64;

    open spec fn state(&self) -> u64 {
        self.pte
    }

    open spec fn after_pte(
        state: u64,
        mapper: Mapper,
        format: PageFormat,
        pte_type: PteType,
        range: Range<u64>,
        pte: u64,
    ) -> (u64, Mapper, u64) {
        (state, mapper, if pte_type is Page {
            state
        } else {
            pte
        })
    }

    open spec fn pte_ok(
        state: u64,
        mapper: Mapper,
        format: PageFormat,
        pte_type: PteType,
        range: Range<u64>,
        pte: u64,
    ) -> bool {
        true
    }

    open spec fn hole_ok(
        state: u64,
        mapper: Mapper,
        format: PageFormat,
        level: usize,
        range: Range<u64>,
        pte: u64,
    ) -> bool {
        true
    }

    open spec fn post_ok(
        state: u64,
        mapper: Mapper,
        format: PageFormat,
        level: usize,
        range: Range<u64>,
        pte: u64,
    ) -> bool {
        true
    }

    fn handle_pte(
        &mut self,
        mapper: &mut Mapper,
        format: &PageFormat,
        pte_type: PteType,
        range: Range<u64>,
        pte: &mut u64,
    ) -> (r: Result<(), Error>) {
        *pte = self.rewrite(pte_type, *pte);
        Ok(())
    }

    fn handle_pte_hole(
        &mut self,
        mapper: &mut Mapper,
        format: &PageFormat,
        level: usize,
        range: Range<u64>,
        pte: &mut u64,
    ) -> (r: Result<(), Error>) {
        Ok(())
    }

    fn handle_post_pte(
        &mut self,
        mapper: &mut Mapper,
        format: &PageFormat,
        level: usize,
        range: Range<u64>,
        pte: &mut u64,
    ) -> (r: Result<(), Error>) {
        Ok(())
    }
}

/// A mapper type whose writes change the written cell, to the written value, and nothing else.
pub open spec fn writes_are_exact<Mapper, Error>() -> bool
    where
        Mapper: PageTableMapper<Error>,
{
    forall|m: Mapper, a: u64, v: u64, b: u64|
        #[trigger] m.spec_write(a, v).spec_pte(b) == if a == b {
            v
        } else {
            m.spec_pte(b)
        }
}

/// Two mappers that agree on the cells of a lookup's path find the same entry along the same
/// path.
pub proof fn lemma_lookup_frame<Mapper, Error>(
    format: PageFormat,
    first: Mapper,
    second: Mapper,
    phys: u64,
    index: usize,
    addr: u64,
)
    where
        Mapper: PageTableMapper<Error>,
    requires
        forall|b: u64|
            format.spec_path::<Mapper, Error>(first, phys, index, addr).contains(b) ==> first.spec_pte(b)
                == second.spec_pte(b),
    ensures
        format.spec_lookup::<Mapper, Error>(first, phys, index, addr) == format.spec_lookup::<
            Mapper,
            Error,
        >(second, phys, index, addr),
        format.spec_path::<Mapper, Error>(first, phys, index, addr) == format.spec_path::<
            Mapper,
            Error,
        >(second, phys, index, addr),
    decreases index,
{
    if index < format.levels@.len() {
        let level = format.levels@[index as int];
        let cell = format.spec_pte_address(phys, level, addr);
        let path = format.spec_path::<Mapper, Error>(first, phys, index, addr);
        assert(path[0] == cell);
        assert(path.contains(cell));
        let pte = first.spec_pte(cell);
        if !(index == 0 || level.spec_is_huge_page(pte) || !level.spec_is_present(pte)) {
            let child = pte & format.physical_mask;
            let below = format.spec_path::<Mapper, Error>(first, child, (index - 1) as usize, addr);
            assert(path == seq![cell] + below);
            assert forall|b: u64| below.contains(b) implies first.spec_pte(b) == second.spec_pte(b) by {
                let k = choose|k: int| 0 <= k < below.len() && below[k] == b;
                assert(path[k + 1] == b);
                assert(path.contains(b));
            }
            lemma_lookup_frame::<Mapper, Error>(format, first, second, child, (index - 1) as usize, addr);
        }
    }
}

/// The writer's walk over the single address `addr`, where the lookup of `addr` finds a page
/// along a path of distinct cells, and `pte` keeps the huge-page pattern where that page is
/// huge: the lookup then finds `pte` along the same path, and no cell off the path changes.
pub(crate) proof fn lemma_writer_walk<Mapper, Error>(
    format: PageFormat,
    mapper: Mapper,
    phys: u64,
    index: usize,
    addr: u64,
    pte: u64,
)
    where
        Mapper: PageTableMapper<Error>,
    requires
        writes_are_exact::<Mapper, Error>(),
        format.wf(),
        index < format.levels@.len(),
        addr < u64::MAX,
        format.spec_sign_extend(addr) == addr,
        format.spec_lookup::<Mapper, Error>(mapper, phys, index, addr) is Some,
        format.spec_path::<Mapper, Error>(mapper, phys, index, addr).no_duplicates(),
        ({
            let leaf = index + 1 - format.spec_path::<Mapper, Error>(mapper, phys, index, addr).len();
            leaf == 0 || format.levels@[leaf].spec_is_huge_page(pte)
        }),
    ensures
        ({
            let after = format.spec_walk_mut_from::<PteWriter, Mapper, Error>(
                mapper,
                phys,
                index,
                addr,
                (addr + 1) as u64,
                pte,
            ).1;
            &&& format.spec_lookup::<Mapper, Error>(after, phys, index, addr) == Some(pte)
            &&& format.spec_path::<Mapper, Error>(after, phys, index, addr) == format.spec_path::<
                Mapper,
                Error,
            >(mapper, phys, index, addr)
            &&& forall|b: u64|
                !format.spec_path::<Mapper, Error>(mapper, phys, index, addr).contains(b)
                    ==> #[trigger] after.spec_pte(b) == mapper.spec_pte(b)
        }),
    decreases index,
{
    let level = format.levels@[index as int];
    assert(level.va_bits >= 1);
    let s = level.shift_bits;
    assert(addr | (((1u64 << s) - 1) as u64) >= addr) by (bit_vector);
    assert(spec_piece_end(level, addr, (addr + 1) as u64) == addr + 1);
    let cell = format.spec_pte_address(phys, level, addr);
    let old_pte = mapper.spec_pte(cell);
    let path = format.spec_path::<Mapper, Error>(mapper, phys, index, addr);
    if index == 0 || level.spec_is_huge_page(old_pte) {
        assert(path == seq![cell]);
        let after = mapper.spec_write(cell, pte);
        assert(after.spec_pte(cell) == pte);
        assert(format.spec_path::<Mapper, Error>(after, phys, index, addr) =~= seq![cell]);
        assert forall|b: u64| !path.contains(b) implies #[trigger] after.spec_pte(b) == mapper.spec_pte(b) by {
            assert(path[0] == cell);
        }
    } else {
        let child = old_pte & format.physical_mask;
        let below = format.spec_path::<Mapper, Error>(mapper, child, (index - 1) as usize, addr);
        assert(path == seq![cell] + below);
        let written = mapper.spec_write(cell, old_pte);
        assert forall|b: u64| below.contains(b) implies mapper.spec_pte(b) == written.spec_pte(b) by {}
        lemma_lookup_frame::<Mapper, Error>(format, mapper, written, child, (index - 1) as usize, addr);
        assert(below.no_duplicates()) by {
            assert forall|i: int, j: int| 0 <= i < below.len() && 0 <= j < below.len() && i != j
                implies below[i] != below[j] by {
                assert(path[i + 1] == below[i]);
                assert(path[j + 1] == below[j]);
            }
        }
        lemma_writer_walk::<Mapper, Error>(format, written, child, (index - 1) as usize, addr, pte);
        let below_done = format.spec_walk_mut_from::<PteWriter, Mapper, Error>(
            written,
            child,
            (index - 1) as usize,
            addr,
            (addr + 1) as u64,
            pte,
        ).1;
        assert(!below.contains(cell)) by {
            if below.contains(cell) {
                let k = choose|k: int| 0 <= k < below.len() && below[k] == cell;
                assert(path[k + 1] == cell);
                assert(path[0] == cell);
            }
        }
        assert(below_done.spec_pte(cell) == old_pte);
        let rewritten = below_done.spec_write(cell, old_pte);
        assert forall|b: u64| below.contains(b) implies below_done.spec_pte(b) == rewritten.spec_pte(b) by {}
        lemma_lookup_frame::<Mapper, Error>(format, below_done, rewritten, child, (index - 1) as usize, addr);
        assert(format.spec_path::<Mapper, Error>(rewritten, phys, index, addr) =~= path);
        assert forall|b: u64| !path.contains(b) implies #[trigger] rewritten.spec_pte(b) == mapper.spec_pte(b) by {
            assert(path[0] == cell);
            if below.contains(b) {
                let k = choose|k: int| 0 <= k < below.len() && below[k] == b;
                assert(path[k + 1] == b);
            }
        }
    }
}

} // verus!
