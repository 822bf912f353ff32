//! The interface to physical memory that a caller supplies, and the address space built on it.
use vstd::prelude::*;
use core::marker::PhantomData;
use core::ops::Range;
use crate::format::{
    PageFormat, lemma_sign_extend_grows, lemma_walk_ok_when_callbacks_succeed,
    lemma_walk_mut_ok_when_callbacks_succeed, lemma_walk_outcome_known, lemma_walk_mut_outcome_known,
};
use crate::walkers::reader::lemma_reader_walk;
use crate::walkers::writer::{lemma_writer_walk, writes_are_exact};
use crate::walkers::protector::lemma_protect_walk_keeps_addresses;
use crate::walkers::copy::lemma_copy_from_keeps_length;
use crate::walker::{PageWalker, PageWalkerMut};
use crate::walkers::{
    CopyFromWalker, CopyToWalker, PteAllocator, PteMapper, PteProtector, PteReader,
    PteRemovalFlags, PteRemover, PteWriter,
};

verus! {

/// Access to physical memory and to its page allocator, supplied by the caller. Every walk goes
/// through it: nothing assumes that physical memory is mapped one to one.
pub trait PageTableMapper<Error>: Sized {
    /// The value of `pte_not_found()`.
    open spec fn spec_pte_not_found() -> Error {
        arbitrary()
    }

    /// The value of `page_not_present()`.
    open spec fn spec_page_not_present() -> Error {
        arbitrary()
    }

    /// The error for a virtual address that resolves to no entry.
    fn pte_not_found() -> (r: Error)
        ensures
            r == Self::spec_pte_not_found(),
    ;

    /// The error for a copy that reaches a page that is not present.
    fn page_not_present() -> (r: Error)
        ensures
            r == Self::spec_page_not_present(),
    ;

    /// The error for an optional operation that is not provided.
    fn not_implemented() -> Error;

    /// Whether every operation of this mapper succeeds, as for a mapper over ordinary memory
    /// with an allocator that never runs out. An implementation that promises so states it.
    open spec fn infallible() -> bool {
        false
    }

    /// The entry held in the PTE-sized cell at a physical address, as this mapper reads it. An
    /// implementation states it; the walks' contracts are stated over it.
    open spec fn spec_pte(&self, phys_addr: u64) -> u64 {
        arbitrary()
    }

    /// The `len` bytes from a physical address on, as this mapper reads them. An implementation
    /// that provides `read_bytes` states it.
    open spec fn spec_bytes(&self, phys_addr: u64, len: nat) -> Seq<u8> {
        arbitrary()
    }

    /// The result of reading the PTE at `phys_addr`.
    open spec fn spec_read_result(&self, phys_addr: u64) -> Result<u64, Error> {
        arbitrary()
    }

    /// The result of writing `value` to the PTE at `phys_addr`.
    open spec fn spec_write_result(&self, phys_addr: u64, value: u64) -> Result<(), Error> {
        arbitrary()
    }

    /// The result of reading `len` bytes from `phys_addr`.
    open spec fn spec_read_bytes_result(&self, phys_addr: u64, len: nat) -> Result<usize, Error> {
        arbitrary()
    }

    /// The result of writing `bytes` from `phys_addr` on.
    open spec fn spec_write_bytes_result(&self, phys_addr: u64, bytes: Seq<u8>) -> Result<usize, Error> {
        arbitrary()
    }

    /// The result of allocating a page.
    open spec fn spec_alloc_result(&self) -> Result<u64, Error> {
        arbitrary()
    }

    /// This mapper after writing `value` to the PTE-sized cell at `phys_addr`.
    open spec fn spec_write(&self, phys_addr: u64, value: u64) -> Self {
        arbitrary()
    }

    /// This mapper after writing `bytes` from `phys_addr` on.
    open spec fn spec_write_bytes(&self, phys_addr: u64, bytes: Seq<u8>) -> Self {
        arbitrary()
    }

    /// This mapper after allocating a page, and the physical address of that page.
    open spec fn spec_alloc(&self) -> (Self, u64) {
        arbitrary()
    }

    /// This mapper after freeing the page at `phys_addr`.
    open spec fn spec_free(&self, phys_addr: u64) -> Self {
        arbitrary()
    }

    /// Reads the PTE at the given physical address.
    fn read_pte(&self, phys_addr: u64) -> (r: Result<u64, Error>)
        ensures
            r == self.spec_read_result(phys_addr),
            r is Ok ==> r->Ok_0 == self.spec_pte(phys_addr),
            Self::infallible() ==> r is Ok,
    ;

    /// Writes the PTE to the given physical address; the cell then holds `value` and no other
    /// cell changes. Cells are named by their addresses: a mapper whose cells overlap (a write at
    /// one address changing the entry read at a nearby one) meets this only by failing the
    /// reads at the overlapping addresses. A failed write changes nothing.
    fn write_pte(&mut self, phys_addr: u64, value: u64) -> (r: Result<(), Error>)
        ensures
            r == old(self).spec_write_result(phys_addr, value),
            r is Err ==> *final(self) == *old(self),
            Self::infallible() ==> r is Ok,
            r is Ok ==> *final(self) == old(self).spec_write(phys_addr, value),
            r is Ok ==> final(self).spec_pte(phys_addr) == value,
            r is Ok ==> forall|a: u64|
                a != phys_addr ==> #[trigger] final(self).spec_pte(a) == old(self).spec_pte(a),
    ;

    /// Reads bytes from the given physical address into the buffer, whose length stays as it is.
    /// A mapper without byte access returns `not_implemented()`.
    fn read_bytes(&self, bytes: &mut Vec<u8>, phys_addr: u64) -> (r: Result<usize, Error>)
        ensures
            final(bytes)@.len() == old(bytes)@.len(),
            r == self.spec_read_bytes_result(phys_addr, old(bytes)@.len()),
            Self::infallible() ==> r is Ok,
            r is Ok ==> final(bytes)@ == self.spec_bytes(phys_addr, old(bytes)@.len()),
    ;

    /// Writes the given bytes to the given physical address. A mapper without byte access
    /// returns `not_implemented()`. A failed write changes nothing.
    fn write_bytes(&mut self, phys_addr: u64, bytes: &[u8]) -> (r: Result<usize, Error>)
        ensures
            r == old(self).spec_write_bytes_result(phys_addr, bytes@),
            r is Err ==> *final(self) == *old(self),
            Self::infallible() ==> r is Ok,
            r is Ok ==> *final(self) == old(self).spec_write_bytes(phys_addr, bytes@),
    ;

    /// Allocates a physical page for a page table or a data page. A mapper without an
    /// allocator returns `not_implemented()`. A failed allocation changes nothing.
    fn alloc_page(&mut self) -> (r: Result<u64, Error>)
        ensures
            r == old(self).spec_alloc_result(),
            r is Err ==> *final(self) == *old(self),
            Self::infallible() ==> r is Ok,
            r is Ok ==> (*final(self), r->Ok_0) == old(self).spec_alloc(),
    ;

    /// Frees a physical page that `alloc_page` returned.
    fn free_page(&mut self, phys_addr: u64)
        ensures
            *final(self) == old(self).spec_free(phys_addr),
    ;
}

/// A virtual address space: a page format, the physical address of the root page table, and
/// the mapper through which its page tables are reached.
pub struct AddressSpace<Mapper: PageTableMapper<Error>, Error> {
    /// The page table format describing the hierarchy.
    format: PageFormat,
    /// The physical address of the root page table.
    root: u64,
    /// The access to physical memory.
    mapper: Mapper,
    /// A marker for the error type of the mapper.
    error: PhantomData<Error>,
}

impl<Mapper: PageTableMapper<Error>, Error> AddressSpace<Mapper, Error> {
    /// An address space is well formed when its format is.
    pub closed spec fn wf(&self) -> bool {
        self.format.wf()
    }

    /// The page format of this address space.
    pub closed spec fn spec_format(&self) -> PageFormat {
        self.format
    }

    /// The physical address of the root page table.
    pub closed spec fn spec_root(&self) -> u64 {
        self.root
    }

    /// The mapper through which the page tables are reached.
    pub closed spec fn spec_mapper(&self) -> Mapper {
        self.mapper
    }

    /// The entry that maps virtual address `addr` in this address space, as the mapper's
    /// memory stands.
    pub open spec fn spec_read(&self, addr: u64) -> Option<u64> {
        self.spec_format().spec_translate::<Mapper, Error>(self.spec_mapper(), self.spec_root(), addr)
    }

    /// The physical addresses of the entries that reading `addr` goes through, top down.
    pub open spec fn spec_path(&self, addr: u64) -> Seq<u64> {
        self.spec_format().spec_path::<Mapper, Error>(
            self.spec_mapper(),
            self.spec_root(),
            (self.spec_format().levels@.len() - 1) as usize,
            addr,
        )
    }

    /// The walker's state and the mapper after a successful walk over `range` that may
    /// rewrite entries, of a walker in `state`.
    pub open spec fn spec_walk_mut<Walker: PageWalkerMut<Mapper, Error>>(
        &self,
        range: Range<u64>,
        state: Walker::State,
    ) -> (Walker::State, Mapper) {
        self.spec_format().spec_walk_mut::<Walker, Mapper, Error>(
            self.spec_mapper(),
            self.spec_root(),
            (self.spec_format().levels@.len() - 1) as usize,
            range,
            state,
        )
    }

    /// The walker's state after a successful read-only walk over `range` of a walker in `state`.
    pub open spec fn spec_walk<Walker: PageWalker<Mapper, Error>>(
        &self,
        range: Range<u64>,
        state: Walker::State,
    ) -> Walker::State {
        self.spec_format().spec_walk::<Walker, Mapper, Error>(
            self.spec_mapper(),
            self.spec_root(),
            (self.spec_format().levels@.len() - 1) as usize,
            range,
            state,
        )
    }

    /// Whether a read-only walk over `range` of a walker in `state` succeeds through a mapper
    /// that never fails.
    pub open spec fn spec_walk_ok<Walker: PageWalker<Mapper, Error>>(
        &self,
        range: Range<u64>,
        state: Walker::State,
    ) -> bool {
        self.spec_format().spec_walk_ok::<Walker, Mapper, Error>(
            self.spec_mapper(),
            self.spec_root(),
            (self.spec_format().levels@.len() - 1) as usize,
            range,
            state,
        )
    }

    /// The result of a walk over `range` that only reads, of a walker in `state`,
    /// where the walk's course decides it.
    pub open spec fn spec_walk_outcome<Walker: PageWalker<Mapper, Error>>(
        &self,
        range: Range<u64>,
        state: Walker::State,
    ) -> Option<Result<(), Error>> {
        self.spec_format().spec_walk_outcome::<Walker, Mapper, Error>(
            self.spec_mapper(),
            self.spec_root(),
            (self.spec_format().levels@.len() - 1) as usize,
            range,
            state,
        )
    }

    /// Whether a walk over `range` that may rewrite entries, of a walker in `state`, succeeds
    /// through a mapper that never fails.
    pub open spec fn spec_walk_mut_ok<Walker: PageWalkerMut<Mapper, Error>>(
        &self,
        range: Range<u64>,
        state: Walker::State,
    ) -> bool {
        self.spec_format().spec_walk_mut_ok::<Walker, Mapper, Error>(
            self.spec_mapper(),
            self.spec_root(),
            (self.spec_format().levels@.len() - 1) as usize,
            range,
            state,
        )
    }

    /// The result of a walk over `range` that may rewrite entries, of a walker in `state`,
    /// where the walk's course decides it.
    pub open spec fn spec_walk_mut_outcome<Walker: PageWalkerMut<Mapper, Error>>(
        &self,
        range: Range<u64>,
        state: Walker::State,
    ) -> Option<Result<(), Error>> {
        self.spec_format().spec_walk_mut_outcome::<Walker, Mapper, Error>(
            self.spec_mapper(),
            self.spec_root(),
            (self.spec_format().levels@.len() - 1) as usize,
            range,
            state,
        )
    }

    /// Creates an address space over the hierarchy that `format` describes, rooted at the page
    /// table at physical address `root`, reached through `mapper`.
    pub fn new(format: PageFormat, mapper: Mapper, root: u64) -> (r: Self)
        requires
            format.wf(),
        ensures
            r.spec_format() == format,
            r.spec_root() == root,
            r.spec_mapper() == mapper,
            r.wf(),
    {
        AddressSpace { format, root, mapper, error: PhantomData }
    }

    /// The mapper through which the page tables are reached.
    pub fn mapper(&self) -> (r: &Mapper)
        ensures
            *r == self.spec_mapper(),
    {
        &self.mapper
    }

    /// Reads the entry that maps the page holding `virt_addr`. Where a page table on the way is
    /// not present it fails: with `pte_not_found()` when the mapper's reads succeed, as they
    /// always do through a mapper that never fails.
    pub fn read_pte(&self, virt_addr: u64) -> (r: Result<u64, Error>)
        requires
            self.wf(),
            virt_addr < u64::MAX,
        ensures
            r is Ok ==> self.spec_read(virt_addr) == Some(r->Ok_0),
            self.spec_read(virt_addr) is None ==> r is Err,
            <Mapper as PageTableMapper<Error>>::infallible() ==> r == match self.spec_read(virt_addr) {
                Some(pte) => Ok(pte),
                None => Err(Mapper::spec_pte_not_found()),
            },
            self.spec_walk_outcome::<PteReader>(virt_addr..(virt_addr + 1) as u64, None) is Some ==> r == if self.spec_walk_outcome::<PteReader>(virt_addr..(virt_addr + 1) as u64, None)->Some_0 is Err {
                Err(self.spec_walk_outcome::<PteReader>(virt_addr..(virt_addr + 1) as u64, None)->Some_0->Err_0)
            } else {
                match self.spec_read(virt_addr) {
                    Some(pte) => Ok(pte),
                    None => Err(Mapper::spec_pte_not_found()),
                }
            },
            self.spec_walk_outcome::<PteReader>(virt_addr..(virt_addr + 1) as u64, None) is Some,
    {
        let mut walker = PteReader { pte: None };
        proof {
            let format = self.format;
            lemma_walk_outcome_known::<PteReader, Mapper, Error>(
                format,
                self.mapper,
                self.root,
                (format.levels@.len() - 1) as usize,
                format.spec_sign_extend(virt_addr),
                (virt_addr + 1) as u64,
                None,
            );
            lemma_walk_ok_when_callbacks_succeed::<PteReader, Mapper, Error>(
                format,
                self.mapper,
                self.root,
                (format.levels@.len() - 1) as usize,
                format.spec_sign_extend(virt_addr),
                (virt_addr + 1) as u64,
                None,
            );
        }
        let res = self.format.walk(self.root, virt_addr..virt_addr + 1, &mut walker, &self.mapper);
        if let Err(e) = res {
            return Err(e);
        }
        proof {
            let top = (self.format.levels@.len() - 1) as usize;
            lemma_sign_extend_grows(self.format, virt_addr);
            if self.format.spec_sign_extend(virt_addr) == virt_addr {
                lemma_reader_walk::<Mapper, Error>(self.format, self.mapper, self.root, top, virt_addr, None);
            }
        }
        match walker.pte {
            Some(pte) => Ok(pte),
            None => Err(Mapper::pte_not_found()),
        }
    }

    /// Replaces the entry that maps the page holding `virt_addr`. No page table is created.
    pub fn write_pte(&mut self, virt_addr: u64, pte: u64) -> (r: Result<(), Error>)
        requires
            old(self).wf(),
            virt_addr < u64::MAX,
        ensures
            final(self).spec_format() == old(self).spec_format(),
            final(self).spec_root() == old(self).spec_root(),
            final(self).wf(),
            r is Ok ==> final(self).spec_mapper() == old(self).spec_walk_mut::<PteWriter>(
                virt_addr..(virt_addr + 1) as u64,
                pte,
            ).1,
            <Mapper as PageTableMapper<Error>>::infallible() ==> r is Ok,
            old(self).spec_walk_mut_outcome::<PteWriter>(
                virt_addr..(virt_addr + 1) as u64,
                pte,
            ) is Some ==> r == old(self).spec_walk_mut_outcome::<PteWriter>(
                virt_addr..(virt_addr + 1) as u64,
                pte,
            )->Some_0,
            old(self).spec_walk_mut_outcome::<PteWriter>(
                virt_addr..(virt_addr + 1) as u64,
                pte,
            ) is Some,
    {
        let mut walker = PteWriter { pte };
        proof {
            let format = self.format;
            lemma_sign_extend_grows(format, virt_addr);
            lemma_walk_mut_outcome_known::<PteWriter, Mapper, Error>(
                format,
                self.mapper,
                self.root,
                (format.levels@.len() - 1) as usize,
                format.spec_sign_extend(virt_addr),
                (virt_addr + 1) as u64,
                pte,
            );
            if <Mapper as PageTableMapper<Error>>::infallible() {
                    lemma_walk_mut_ok_when_callbacks_succeed::<PteWriter, Mapper, Error>(
                    format,
                    self.mapper,
                    self.root,
                    (format.levels@.len() - 1) as usize,
                    format.spec_sign_extend(virt_addr),
                    (virt_addr + 1) as u64,
                    pte,
                );
            }
        }
        self.format.walk_mut(self.root, virt_addr..virt_addr + 1, &mut walker, &mut self.mapper)
    }

    /// Backs `range` with freshly allocated pages carrying `mask`, allocating the page tables
    /// that are missing.
    pub fn allocate_range(&mut self, range: Range<u64>, mask: u64) -> (r: Result<(), Error>)
        requires
            old(self).wf(),
        ensures
            final(self).spec_format() == old(self).spec_format(),
            final(self).spec_root() == old(self).spec_root(),
            final(self).wf(),
            r is Ok ==> final(self).spec_mapper() == old(self).spec_walk_mut::<PteAllocator>(
                range,
                Some(mask),
            ).1,
            <Mapper as PageTableMapper<Error>>::infallible() ==> r is Ok,
            range.start >= range.end ==> r is Ok && final(self).spec_mapper() == old(self).spec_mapper(),
            old(self).spec_walk_mut_outcome::<PteAllocator>(
                range,
                Some(mask),
            ) is Some ==> r == old(self).spec_walk_mut_outcome::<PteAllocator>(
                range,
                Some(mask),
            )->Some_0,
            old(self).spec_walk_mut_outcome::<PteAllocator>(
                range,
                Some(mask),
            ) is Some,
    {
        let mut walker = PteAllocator { mask: Some(mask) };
        proof {
            let format = self.format;
            lemma_sign_extend_grows(format, range.start);
            lemma_walk_mut_outcome_known::<PteAllocator, Mapper, Error>(
                format,
                self.mapper,
                self.root,
                (format.levels@.len() - 1) as usize,
                format.spec_sign_extend(range.start),
                range.end,
                Some(mask),
            );
            if <Mapper as PageTableMapper<Error>>::infallible() {
                    lemma_walk_mut_ok_when_callbacks_succeed::<PteAllocator, Mapper, Error>(
                    format,
                    self.mapper,
                    self.root,
                    (format.levels@.len() - 1) as usize,
                    format.spec_sign_extend(range.start),
                    range.end,
                    Some(mask),
                );
            }
        }
        self.format.walk_mut(self.root, range, &mut walker, &mut self.mapper)
    }

    /// Maps `range` onto the physical pages from `mask` on, one page after the other, with the
    /// protection bits that `mask` carries; allocates the page tables that are missing. This
    /// suits memory-mapped I/O.
    pub fn map_range(&mut self, range: Range<u64>, mask: u64) -> (r: Result<(), Error>)
        requires
            old(self).wf(),
        ensures
            final(self).spec_format() == old(self).spec_format(),
            final(self).spec_root() == old(self).spec_root(),
            final(self).wf(),
            r is Ok ==> final(self).spec_mapper() == old(self).spec_walk_mut::<PteMapper>(
                range,
                mask,
            ).1,
            <Mapper as PageTableMapper<Error>>::infallible() ==> r is Ok,
            range.start >= range.end ==> r is Ok && final(self).spec_mapper() == old(self).spec_mapper(),
            old(self).spec_walk_mut_outcome::<PteMapper>(
                range,
                mask,
            ) is Some ==> r == old(self).spec_walk_mut_outcome::<PteMapper>(
                range,
                mask,
            )->Some_0,
            old(self).spec_walk_mut_outcome::<PteMapper>(
                range,
                mask,
            ) is Some,
    {
        let mut walker = PteMapper { mask };
        proof {
            let format = self.format;
            lemma_sign_extend_grows(format, range.start);
            lemma_walk_mut_outcome_known::<PteMapper, Mapper, Error>(
                format,
                self.mapper,
                self.root,
                (format.levels@.len() - 1) as usize,
                format.spec_sign_extend(range.start),
                range.end,
                mask,
            );
            if <Mapper as PageTableMapper<Error>>::infallible() {
                    lemma_walk_mut_ok_when_callbacks_succeed::<PteMapper, Mapper, Error>(
                    format,
                    self.mapper,
                    self.root,
                    (format.levels@.len() - 1) as usize,
                    format.spec_sign_extend(range.start),
                    range.end,
                    mask,
                );
            }
        }
        self.format.walk_mut(self.root, range, &mut walker, &mut self.mapper)
    }

    /// Changes the protection of the present pages of `range`: clears the bits of `mask.0`,
    /// then sets those of `mask.1`, leaving physical address, present and huge-page bits alone.
    pub fn protect_range(&mut self, range: Range<u64>, mask: (u64, u64)) -> (r: Result<(), Error>)
        requires
            old(self).wf(),
        ensures
            final(self).spec_format() == old(self).spec_format(),
            final(self).spec_root() == old(self).spec_root(),
            final(self).wf(),
            r is Ok ==> final(self).spec_mapper() == old(self).spec_walk_mut::<PteProtector>(
                range,
                mask,
            ).1,
            <Mapper as PageTableMapper<Error>>::infallible() ==> r is Ok,
            range.start >= range.end ==> r is Ok && final(self).spec_mapper() == old(self).spec_mapper(),
            old(self).spec_walk_mut_outcome::<PteProtector>(
                range,
                mask,
            ) is Some ==> r == old(self).spec_walk_mut_outcome::<PteProtector>(
                range,
                mask,
            )->Some_0,
            old(self).spec_walk_mut_outcome::<PteProtector>(
                range,
                mask,
            ) is Some,
    {
        let mut walker = PteProtector { mask };
        proof {
            let format = self.format;
            lemma_sign_extend_grows(format, range.start);
            lemma_walk_mut_outcome_known::<PteProtector, Mapper, Error>(
                format,
                self.mapper,
                self.root,
                (format.levels@.len() - 1) as usize,
                format.spec_sign_extend(range.start),
                range.end,
                mask,
            );
            if <Mapper as PageTableMapper<Error>>::infallible() {
                    lemma_walk_mut_ok_when_callbacks_succeed::<PteProtector, Mapper, Error>(
                    format,
                    self.mapper,
                    self.root,
                    (format.levels@.len() - 1) as usize,
                    format.spec_sign_extend(range.start),
                    range.end,
                    mask,
                );
            }
        }
        self.format.walk_mut(self.root, range, &mut walker, &mut self.mapper)
    }

    /// Unmaps the pages of `range`, freeing them, and frees the page tables left empty.
    pub fn free_range(&mut self, range: Range<u64>) -> (r: Result<(), Error>)
        requires
            old(self).wf(),
        ensures
            final(self).spec_format() == old(self).spec_format(),
            final(self).spec_root() == old(self).spec_root(),
            final(self).wf(),
            r is Ok ==> final(self).spec_mapper() == old(self).spec_walk_mut::<PteRemover>(
                range,
                PteRemovalFlags { free_pages: true, free_page_tables: true },
            ).1,
            <Mapper as PageTableMapper<Error>>::infallible() ==> r is Ok,
            range.start >= range.end ==> r is Ok && final(self).spec_mapper() == old(self).spec_mapper(),
            old(self).spec_walk_mut_outcome::<PteRemover>(
                range,
                PteRemovalFlags { free_pages: true, free_page_tables: true },
            ) is Some ==> r == old(self).spec_walk_mut_outcome::<PteRemover>(
                range,
                PteRemovalFlags { free_pages: true, free_page_tables: true },
            )->Some_0,
            old(self).spec_walk_mut_outcome::<PteRemover>(
                range,
                PteRemovalFlags { free_pages: true, free_page_tables: true },
            ) is Some,
    {
        let mut walker = PteRemover { flags: PteRemovalFlags::all() };
        proof {
            let format = self.format;
            lemma_sign_extend_grows(format, range.start);
            lemma_walk_mut_outcome_known::<PteRemover, Mapper, Error>(
                format,
                self.mapper,
                self.root,
                (format.levels@.len() - 1) as usize,
                format.spec_sign_extend(range.start),
                range.end,
                PteRemovalFlags { free_pages: true, free_page_tables: true },
            );
            if <Mapper as PageTableMapper<Error>>::infallible() {
                    lemma_walk_mut_ok_when_callbacks_succeed::<PteRemover, Mapper, Error>(
                    format,
                    self.mapper,
                    self.root,
                    (format.levels@.len() - 1) as usize,
                    format.spec_sign_extend(range.start),
                    range.end,
                    PteRemovalFlags { free_pages: true, free_page_tables: true },
                );
            }
        }
        self.format.walk_mut(self.root, range, &mut walker, &mut self.mapper)
    }

    /// Unmaps the pages of `range` without freeing them or any page table. This suits
    /// memory-mapped I/O.
    pub fn unmap_range(&mut self, range: Range<u64>) -> (r: Result<(), Error>)
        requires
            old(self).wf(),
        ensures
            final(self).spec_format() == old(self).spec_format(),
            final(self).spec_root() == old(self).spec_root(),
            final(self).wf(),
            r is Ok ==> final(self).spec_mapper() == old(self).spec_walk_mut::<PteRemover>(
                range,
                PteRemovalFlags { free_pages: false, free_page_tables: false },
            ).1,
            <Mapper as PageTableMapper<Error>>::infallible() ==> r is Ok,
            range.start >= range.end ==> r is Ok && final(self).spec_mapper() == old(self).spec_mapper(),
            old(self).spec_walk_mut_outcome::<PteRemover>(
                range,
                PteRemovalFlags { free_pages: false, free_page_tables: false },
            ) is Some ==> r == old(self).spec_walk_mut_outcome::<PteRemover>(
                range,
                PteRemovalFlags { free_pages: false, free_page_tables: false },
            )->Some_0,
            old(self).spec_walk_mut_outcome::<PteRemover>(
                range,
                PteRemovalFlags { free_pages: false, free_page_tables: false },
            ) is Some,
    {
        let mut walker = PteRemover { flags: PteRemovalFlags::empty() };
        proof {
            let format = self.format;
            lemma_sign_extend_grows(format, range.start);
            lemma_walk_mut_outcome_known::<PteRemover, Mapper, Error>(
                format,
                self.mapper,
                self.root,
                (format.levels@.len() - 1) as usize,
                format.spec_sign_extend(range.start),
                range.end,
                PteRemovalFlags { free_pages: false, free_page_tables: false },
            );
            if <Mapper as PageTableMapper<Error>>::infallible() {
                    lemma_walk_mut_ok_when_callbacks_succeed::<PteRemover, Mapper, Error>(
                    format,
                    self.mapper,
                    self.root,
                    (format.levels@.len() - 1) as usize,
                    format.spec_sign_extend(range.start),
                    range.end,
                    PteRemovalFlags { free_pages: false, free_page_tables: false },
                );
            }
        }
        self.format.walk_mut(self.root, range, &mut walker, &mut self.mapper)
    }

    /// Copies the bytes from virtual address `address` on into `data`.
    pub fn copy_from(&mut self, data: &mut [u8], address: u64) -> (r: Result<(), Error>)
        requires
            old(self).wf(),
            address + old(data)@.len() <= u64::MAX,
        ensures
            final(data)@.len() == old(data)@.len(),
            final(self).spec_format() == old(self).spec_format(),
            final(self).spec_root() == old(self).spec_root(),
            final(self).wf(),
            final(self).spec_mapper() == old(self).spec_mapper(),
            r is Ok ==> final(data)@ == old(self).spec_walk::<CopyFromWalker>(
                address..(address + old(data)@.len()) as u64,
                (0, old(data)@),
            ).1,
            old(data)@.len() == 0 ==> r is Ok,
            <Mapper as PageTableMapper<Error>>::infallible() && old(self).spec_walk_ok::<CopyFromWalker>(
                address..(address + old(data)@.len()) as u64,
                (0, old(data)@),
            ) ==> r is Ok,
            old(self).spec_walk_outcome::<CopyFromWalker>(
                address..(address + old(data)@.len()) as u64,
                (0, old(data)@),
            ) is Some ==> r == old(self).spec_walk_outcome::<CopyFromWalker>(
                address..(address + old(data)@.len()) as u64,
                (0, old(data)@),
            )->Some_0,
            old(self).spec_walk_outcome::<CopyFromWalker>(
                address..(address + old(data)@.len()) as u64,
                (0, old(data)@),
            ) is Some,
    {
        let end = address + data.len() as u64;
        let mut walker = CopyFromWalker { offset: 0, data: vstd::slice::slice_to_vec(data) };
        proof {
            lemma_sign_extend_grows(self.format, address);
            lemma_walk_outcome_known::<CopyFromWalker, Mapper, Error>(
                self.format,
                self.mapper,
                self.root,
                (self.format.levels@.len() - 1) as usize,
                self.format.spec_sign_extend(address),
                end,
                (0, data@),
            );
        }
        let res = self.format.walk(self.root, address..end, &mut walker, &self.mapper);
        if res.is_err() {
            return res;
        }
        proof {
            lemma_copy_from_keeps_length::<Mapper, Error>(
                self.format,
                self.mapper,
                self.root,
                (self.format.levels@.len() - 1) as usize,
                self.format.spec_sign_extend(address),
                end,
                (0, data@),
            );
        }
        let n = data.len();
        let mut i: usize = 0;
        while i < n
            invariant
                n == data@.len(),
                n == walker.data@.len(),
                i <= n,
                forall|j: int| 0 <= j < i ==> data@[j] == walker.data@[j],
            decreases n - i,
        {
            data[i] = walker.data[i];
            i += 1;
        }
        assert(data@ =~= walker.data@);
        res
    }

    /// Copies `data` to virtual address `address` on.
    pub fn copy_to(&mut self, address: u64, data: &[u8]) -> (r: Result<(), Error>)
        requires
            old(self).wf(),
            address + data@.len() <= u64::MAX,
        ensures
            final(self).spec_format() == old(self).spec_format(),
            final(self).spec_root() == old(self).spec_root(),
            final(self).wf(),
            r is Ok ==> final(self).spec_mapper() == old(self).spec_walk_mut::<CopyToWalker>(
                address..(address + data@.len()) as u64,
                (0, data@),
            ).1,
            data@.len() == 0 ==> r is Ok && final(self).spec_mapper() == old(self).spec_mapper(),
            <Mapper as PageTableMapper<Error>>::infallible() && old(self).spec_walk_mut_ok::<CopyToWalker>(
                address..(address + data@.len()) as u64,
                (0, data@),
            ) ==> r is Ok,
            old(self).spec_walk_mut_outcome::<CopyToWalker>(
                address..(address + data@.len()) as u64,
                (0, data@),
            ) is Some ==> r == old(self).spec_walk_mut_outcome::<CopyToWalker>(
                address..(address + data@.len()) as u64,
                (0, data@),
            )->Some_0,
            old(self).spec_walk_mut_outcome::<CopyToWalker>(
                address..(address + data@.len()) as u64,
                (0, data@),
            ) is Some,
    {
        let end = address + data.len() as u64;
        let mut walker = CopyToWalker { offset: 0, data: vstd::slice::slice_to_vec(data) };
        proof {
            lemma_sign_extend_grows(self.format, address);
            lemma_walk_mut_outcome_known::<CopyToWalker, Mapper, Error>(
                self.format,
                self.mapper,
                self.root,
                (self.format.levels@.len() - 1) as usize,
                self.format.spec_sign_extend(address),
                end,
                (0, data@),
            );
        }
        self.format.walk_mut(self.root, address..end, &mut walker, &mut self.mapper)
    }
}

/// Writing an entry, then reading it back: after `write_pte(v, pte)` succeeds on an address
/// that a page maps, `read_pte(v)` finds `pte`. This holds where the entries on the way to `v`
/// lie in distinct cells, where `pte` keeps the huge-page pattern if the page is a huge one, and
/// where the mapper's writes change exactly the written cell.
pub proof fn lemma_write_then_read<Mapper, Error>(
    before: AddressSpace<Mapper, Error>,
    after: AddressSpace<Mapper, Error>,
    v: u64,
    pte: u64,
)
    where
        Mapper: PageTableMapper<Error>,
    requires
        writes_are_exact::<Mapper, Error>(),
        before.wf(),
        v < u64::MAX,
        before.spec_read(v) is Some,
        before.spec_path(v).no_duplicates(),
        ({
            let leaf = before.spec_format().levels@.len() - before.spec_path(v).len();
            leaf == 0 || before.spec_format().levels@[leaf].spec_is_huge_page(pte)
        }),
        after.spec_format() == before.spec_format(),
        after.spec_root() == before.spec_root(),
        after.spec_mapper() == before.spec_walk_mut::<PteWriter>(v..(v + 1) as u64, pte).1,
    ensures
        after.spec_read(v) == Some(pte),
{
    let format = before.spec_format();
    let top = (format.levels@.len() - 1) as usize;
    lemma_writer_walk::<Mapper, Error>(format, before.spec_mapper(), before.spec_root(), top, v, pte);
}

/// A protection change keeps physical addresses: after `protect_range(range, mask)` succeeds,
/// through a mapper whose writes change exactly the written cell, every cell holds the same
/// physical-address bits as before.
pub proof fn lemma_protect_keeps_addresses<Mapper, Error>(
    before: AddressSpace<Mapper, Error>,
    after: AddressSpace<Mapper, Error>,
    range: Range<u64>,
    mask: (u64, u64),
)
    where
        Mapper: PageTableMapper<Error>,
    requires
        writes_are_exact::<Mapper, Error>(),
        before.wf(),
        after.spec_mapper() == before.spec_walk_mut::<PteProtector>(range, mask).1,
    ensures
        forall|b: u64|
            #[trigger] after.spec_mapper().spec_pte(b) & before.spec_format().physical_mask
                == before.spec_mapper().spec_pte(b) & before.spec_format().physical_mask,
{
    let format = before.spec_format();
    lemma_protect_walk_keeps_addresses::<Mapper, Error>(
        format,
        before.spec_mapper(),
        before.spec_root(),
        (format.levels@.len() - 1) as usize,
        format.spec_sign_extend(range.start),
        range.end,
        mask,
    );
}

} // verus!
