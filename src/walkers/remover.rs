//! [`PteRemover`] removes the pages of a virtual address range, and the page tables that it
//! leaves empty.
use vstd::prelude::*;
use core::ops::Range;
use crate::address_space::PageTableMapper;
use crate::format::PageFormat;
use crate::walker::{PageWalkerMut, PteType};

verus! {

/// What a [`PteRemover`] frees besides clearing entries.
#[derive(Clone, Copy, Debug, PartialEq, Eq, Structural)]
pub struct PteRemovalFlags {
    /// Free the pages that the cleared leaf entries mapped.
    pub free_pages: bool,
    /// Free the page tables that end up with every entry zero, and clear their entries.
    pub free_page_tables: bool,
}

impl PteRemovalFlags {
    /// Frees both pages and emptied page tables.
    pub fn all() -> (r: Self)
        ensures
            r.free_pages && r.free_page_tables,
    {
        PteRemovalFlags { free_pages: true, free_page_tables: true }
    }

    /// Frees nothing: entries are only cleared.
    pub fn empty() -> (r: Self)
        ensures
            !r.free_pages && !r.free_page_tables,
    {
        PteRemovalFlags { free_pages: false, free_page_tables: false }
    }
}

/// Whether every entry of the page table of level `index` at `phys` is zero.
pub open spec fn spec_table_empty<Mapper, Error>(
    mapper: Mapper,
    format: PageFormat,
    index: usize,
    phys: u64,
) -> bool
    where
        Mapper: PageTableMapper<Error>,
{
    forall|i: u64|
        i < format.levels@[index as int].spec_entries() ==> #[trigger] mapper.spec_pte(
            phys.wrapping_add((i * (format.pte_size as u64)) as u64),
        ) == 0
}

/// The result of reading the entries of the page table of level `index` at `phys`, from entry
/// `i` on, until one is not zero: `Ok(true)` where every one is zero, `Ok(false)` at one that is
/// not, and the mapper's error at the first read that fails.
pub open spec fn spec_scan<Mapper, Error>(
    mapper: Mapper,
    format: PageFormat,
    index: usize,
    phys: u64,
    i: u64,
) -> Result<bool, Error>
    where
        Mapper: PageTableMapper<Error>,
    decreases format.levels@[index as int].spec_entries() - i,
{
    if index >= format.levels@.len() || i >= format.levels@[index as int].spec_entries() {
        Ok(true)
    } else {
        match mapper.spec_read_result(phys.wrapping_add((i * (format.pte_size as u64)) as u64)) {
            Err(e) => Err(e),
            Ok(value) => if value != 0 {
                Ok(false)
            } else {
                spec_scan::<Mapper, Error>(mapper, format, index, phys, (i + 1) as u64)
            },
        }
    }
}

/// A walk strategy that clears every present leaf entry it meets, freeing its page where the
/// flags say so, and on the way back up frees each page table left with every entry zero where
/// the flags say so. [`crate::AddressSpace::free_range`] frees both,
/// [`crate::AddressSpace::unmap_range`] neither.
pub struct PteRemover {
    /// What to free.
    pub flags: PteRemovalFlags,
}

impl PteRemover {
    /// Whether an entry is a leaf entry that the walk clears: a present page.
    pub fn clears(format: &PageFormat, pte_type: PteType, pte: u64) -> (r: bool)
        requires
            pte_type.spec_level() < format.levels@.len(),
        ensures
            r == (pte_type is Page && format.levels@[pte_type.spec_level() as int].spec_is_present(
                pte,
            )),
    {
        match pte_type {
            PteType::Page(index) => format.levels[index].is_present(pte),
            PteType::PageTable(_) => false,
        }
    }

    /// Reads the page table of level `index` at `phys_addr` and tells whether every entry is
    /// zero.
    fn table_is_empty<Mapper: PageTableMapper<Error>, Error>(
        mapper: &Mapper,
        format: &PageFormat,
        index: usize,
        phys_addr: u64,
    ) -> (r: Result<bool, Error>)
        requires
            format.wf(),
            index < format.levels@.len(),
        ensures
            r == spec_scan::<Mapper, Error>(*mapper, *format, index, phys_addr, 0),
            <Mapper as PageTableMapper<Error>>::infallible() ==> r is Ok,
            r is Ok ==> r->Ok_0 == spec_table_empty::<Mapper, Error>(*mapper, *format, index, phys_addr),
    {
        let level = &format.levels[index];
        assert(1 <= level.va_bits < 64 && format.table_fits(*level));
        let entries = level.entries();
        let mut i: u64 = 0;
        while i < entries
            invariant
                format.wf(),
                index < format.levels@.len(),
                i <= entries,
                *level == format.levels@[index as int],
                1 <= level.va_bits < 64,
                format.table_fits(*level),
                entries == level.spec_entries(),
                spec_scan::<Mapper, Error>(*mapper, *format, index, phys_addr, 0) == spec_scan::<
                    Mapper,
                    Error,
                >(*mapper, *format, index, phys_addr, i),
                forall|j: u64|
                    j < i ==> #[trigger] mapper.spec_pte(
                        phys_addr.wrapping_add((j * (format.pte_size as u64)) as u64),
                    ) == 0,
            decreases entries - i,
        {
            let offset = format.entry_offset(level, i);
            let value = match mapper.read_pte(phys_addr.wrapping_add(offset)) {
                Ok(value) => value,
                Err(e) => return Err(e),
            };
            if value != 0 {
                assert(offset == (i * (format.pte_size as u64)) as u64);
                assert(mapper.spec_pte(phys_addr.wrapping_add((i * (format.pte_size as u64)) as u64))
                    != 0);
                return Ok(false);
            }
            i += 1;
        }
        assert(spec_table_empty::<Mapper, Error>(*mapper, *format, index, phys_addr)) by {
            assert forall|j: u64| j < format.levels@[index as int].spec_entries() implies #[trigger] mapper.spec_pte(
                phys_addr.wrapping_add((j * (format.pte_size as u64)) as u64),
            ) == 0 by {}
        }
        Ok(true)
    }
}

impl<Mapper: PageTableMapper<Error>, Error> PageWalkerMut<Mapper, Error> for PteRemover {
    /// What to free.
    type State = PteRemovalFlags;

    open spec fn state(&self) -> PteRemovalFlags {
        self.flags
    }

    open spec fn after_pte(
        state: PteRemovalFlags,
        mapper: Mapper,
        format: PageFormat,
        pte_type: PteType,
        range: Range<u64>,
        pte: u64,
    ) -> (PteRemovalFlags, Mapper, u64) {
        if pte_type is Page && format.levels@[pte_type.spec_level() as int].spec_is_present(pte) {
            if state.free_pages {
                (state, mapper.spec_free(pte & format.physical_mask), 0)
            } else {
                (state, mapper, 0)
            }
        } else {
            (state, mapper, pte)
        }
    }

    open spec fn after_post(
        state: PteRemovalFlags,
        mapper: Mapper,
        format: PageFormat,
        level: usize,
        range: Range<u64>,
        pte: u64,
    ) -> (PteRemovalFlags, Mapper, u64) {
        let table = pte & format.physical_mask;
        if state.free_page_tables && spec_table_empty::<Mapper, Error>(
            mapper,
            format,
            (level - 1) as usize,
            table,
        ) {
            (state, mapper.spec_free(table), 0)
        } else {
            (state, mapper, pte)
        }
    }

    open spec fn pte_ok(
        state: PteRemovalFlags,
        mapper: Mapper,
        format: PageFormat,
        pte_type: PteType,
        range: Range<u64>,
        pte: u64,
    ) -> bool {
        true
    }

    open spec fn hole_ok(
        state: PteRemovalFlags,
        mapper: Mapper,
        format: PageFormat,
        level: usize,
        range: Range<u64>,
        pte: u64,
    ) -> bool {
        true
    }

    open spec fn post_ok(
        state: PteRemovalFlags,
        mapper: Mapper,
        format: PageFormat,
        level: usize,
        range: Range<u64>,
        pte: u64,
    ) -> bool {
        !state.free_page_tables || <Mapper as PageTableMapper<Error>>::infallible() || spec_scan::<Mapper, Error>(
            mapper,
            format,
            (level - 1) as usize,
            pte & format.physical_mask,
            0,
        ) is Ok
    }

    open spec fn post_rejects(
        state: PteRemovalFlags,
        mapper: Mapper,
        format: PageFormat,
        level: usize,
        range: Range<u64>,
        pte: u64,
    ) -> bool {
        state.free_page_tables && spec_scan::<Mapper, Error>(
            mapper,
            format,
            (level - 1) as usize,
            pte & format.physical_mask,
            0,
        ) is Err
    }

    open spec fn post_error(
        state: PteRemovalFlags,
        mapper: Mapper,
        format: PageFormat,
        level: usize,
        range: Range<u64>,
        pte: u64,
    ) -> Error {
        spec_scan::<Mapper, Error>(
            mapper,
            format,
            (level - 1) as usize,
            pte & format.physical_mask,
            0,
        )->Err_0
    }

    fn handle_pte(
        &mut self,
        mapper: &mut Mapper,
        format: &PageFormat,
        pte_type: PteType,
        range: Range<u64>,
        pte: &mut u64,
    ) -> (r: Result<(), Error>) {
        if Self::clears(format, pte_type, *pte) {
            if self.flags.free_pages {
                mapper.free_page(*pte & format.physical_mask);
            }
            *pte = 0;
        }
        Ok(())
    }

    fn handle_pte_hole(
        &mut self,
        mapper: &mut Mapper,
        format: &PageFormat,
        level: usize,
        range: Range<u64>,
        pte: &mut u64,
    ) -> (r: Result<(), Error>) {
        Ok(())
    }

    fn handle_post_pte(
        &mut self,
        mapper: &mut Mapper,
        format: &PageFormat,
        level: usize,
        range: Range<u64>,
        pte: &mut u64,
    ) -> (r: Result<(), Error>) {
        if self.flags.free_page_tables {
            let phys_addr = *pte & format.physical_mask;
            let empty = match Self::table_is_empty(mapper, format, level - 1, phys_addr) {
                Ok(empty) => empty,
                Err(e) => return Err(e),
            };
            if empty {
                mapper.free_page(phys_addr);
                *pte = 0;
            }
        }
        Ok(())
    }
}

/// On the way back up, a remover that frees page tables frees a child table whose entries are
/// all zero, and clears the entry that referred to it.
pub proof fn lemma_empty_table_is_freed<Mapper, Error>(
    flags: PteRemovalFlags,
    mapper: Mapper,
    format: PageFormat,
    level: usize,
    range: Range<u64>,
    pte: u64,
)
    where
        Mapper: PageTableMapper<Error>,
    requires
        flags.free_page_tables,
        level > 0,
        spec_table_empty::<Mapper, Error>(mapper, format, (level - 1) as usize, pte & format.physical_mask),
    ensures
        <PteRemover as PageWalkerMut<Mapper, Error>>::after_post(flags, mapper, format, level, range, pte)
            == (flags, mapper.spec_free(pte & format.physical_mask), 0u64),
{
}

/// Unmapping frees nothing and freeing frees each present leaf: a remover without flags leaves
/// the mapper as it is on every entry and every table it handles, while one that frees pages
/// frees exactly the page of each present leaf entry it clears.
pub proof fn lemma_remover_frees_only_with_flags<Mapper, Error>(
    mapper: Mapper,
    format: PageFormat,
    pte_type: PteType,
    level: usize,
    range: Range<u64>,
    pte: u64,
)
    where
        Mapper: PageTableMapper<Error>,
    ensures
        <PteRemover as PageWalkerMut<Mapper, Error>>::after_pte(
            PteRemovalFlags { free_pages: false, free_page_tables: false },
            mapper,
            format,
            pte_type,
            range,
            pte,
        ).1 == mapper,
        <PteRemover as PageWalkerMut<Mapper, Error>>::after_post(
            PteRemovalFlags { free_pages: false, free_page_tables: false },
            mapper,
            format,
            level,
            range,
            pte,
        ).1 == mapper,
        pte_type is Page && format.levels@[pte_type.spec_level() as int].spec_is_present(pte)
            ==> <PteRemover as PageWalkerMut<Mapper, Error>>::after_pte(
            PteRemovalFlags { free_pages: true, free_page_tables: true },
            mapper,
            format,
            pte_type,
            range,
            pte,
        ) == (
            PteRemovalFlags { free_pages: true, free_page_tables: true },
            mapper.spec_free(pte & format.physical_mask),
            0u64,
        ),
{
}

} // verus!
