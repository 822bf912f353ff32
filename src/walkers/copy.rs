//! [`CopyFromWalker`] and [`CopyToWalker`] copy bytes between a buffer and the pages of a
//! virtual address range.
use vstd::prelude::*;
use core::ops::Range;
use crate::address_space::PageTableMapper;
use crate::format::{PageFormat, lemma_piece_advances, spec_piece_end};
use crate::level::{PageLevel, low_mask};
use crate::walker::{PageWalker, PageWalkerMut, PteType};

verus! {

/// The physical address of virtual address `start` within the page that `pte` maps at `level`,
/// wrapping at the top of the 64-bit space.
pub open spec fn spec_chunk_address(level: PageLevel, physical_mask: u64, pte: u64, start: u64) -> u64 {
    (pte & physical_mask).wrapping_add(start & low_mask(level.shift_bits))
}

/// How many bytes to copy from `start` on: what is left of the buffer, up to the end of the page.
pub open spec fn spec_chunk_size(level: PageLevel, start: u64, remaining: usize) -> usize {
    let room = level.spec_page_size() - (start & low_mask(level.shift_bits));
    if remaining < room {
        remaining
    } else {
        room as usize
    }
}

/// The physical address and the length of the piece of a copy that starts at virtual address
/// `start`, in the page that `pte` maps at `level`, with `remaining` bytes of buffer left.
pub fn chunk(level: &PageLevel, physical_mask: u64, pte: u64, start: u64, remaining: usize) -> (r: (
    u64,
    usize,
))
    requires
        level.shift_bits < 64,
    ensures
        r.0 == spec_chunk_address(*level, physical_mask, pte, start),
        r.1 == spec_chunk_size(*level, start, remaining),
        r.1 <= remaining,
{
    let page_size = level.page_size();
    let s = level.shift_bits;
    assert(start & (((1u64 << s) - 1) as u64) < 1u64 << s) by (bit_vector)
        requires
            s < 64,
    ;
    let offset = start & (page_size - 1);
    let room = page_size - offset;
    let size = if (remaining as u64) < room {
        remaining
    } else {
        room as usize
    };
    ((pte & physical_mask).wrapping_add(offset), size)
}

/// `data` with its `n` bytes from `at` on replaced by the first `n` of `bytes`.
pub open spec fn spec_overwrite(data: Seq<u8>, at: int, bytes: Seq<u8>, n: int) -> Seq<u8> {
    Seq::new(data.len(), |j: int| if at <= j < at + n { bytes[j - at] } else { data[j] })
}

/// A read-only walk strategy that copies the pages it meets into a buffer, in address order. It
/// fails on a page that is not present. This is what [`crate::AddressSpace::copy_from`] does.
pub struct CopyFromWalker {
    /// How many bytes of the buffer have been filled.
    pub offset: usize,
    /// The buffer.
    pub data: Vec<u8>,
}

impl CopyFromWalker {
    /// Puts `bytes` into the buffer at the current offset, and moves the offset past them.
    pub fn store(&mut self, bytes: &Vec<u8>)
        requires
            old(self).offset + bytes@.len() <= old(self).data@.len(),
        ensures
            final(self).offset == old(self).offset + bytes@.len(),
            final(self).data@ == spec_overwrite(
                old(self).data@,
                old(self).offset as int,
                bytes@,
                bytes@.len() as int,
            ),
    {
        let ghost start = self.offset as int;
        let ghost before = self.data@;
        let n = bytes.len();
        let total = self.data.len();
        let mut k: usize = 0;
        while k < n
            invariant
                start == self.offset,
                n == bytes@.len(),
                total == before.len(),
                start + n <= total,
                k <= bytes@.len(),
                self.data@.len() == before.len(),
                forall|j: int| 0 <= j < start ==> #[trigger] self.data@[j] == before[j],
                forall|j: int| 0 <= j < k ==> #[trigger] self.data@[start + j] == bytes@[j],
                forall|j: int|
                    start + k <= j < before.len() ==> #[trigger] self.data@[j] == before[j],
            decreases bytes@.len() - k,
        {
            let at = self.offset + k;
            self.data.set(at, bytes[k]);
            k += 1;
        }
        self.offset = self.offset + n;
        assert(self.data@ =~= spec_overwrite(before, start, bytes@, bytes@.len() as int)) by {
            assert forall|j: int| start <= j < start + bytes@.len() implies #[trigger] self.data@[j]
                == bytes@[j - start] by {
                assert(self.data@[start + (j - start)] == bytes@[j - start]);
            }
        }
    }
}

/// A zero-filled buffer of `n` bytes.
fn zeroed(n: usize) -> (r: Vec<u8>)
    ensures
        r@.len() == n,
{
    let mut r: Vec<u8> = Vec::new();
    while r.len() < n
        invariant
            r@.len() <= n,
        decreases n - r@.len(),
    {
        r.push(0);
    }
    r
}

impl<Mapper: PageTableMapper<Error>, Error> PageWalker<Mapper, Error> for CopyFromWalker {
    /// The offset and the contents of the buffer.
    type State = (usize, Seq<u8>);

    open spec fn state(&self) -> (usize, Seq<u8>) {
        (self.offset, self.data@)
    }

    /// At a present page, the bytes from the address of the piece on, as many as the page and
    /// the rest of the buffer allow, go into the buffer at the offset.
    open spec fn after_pte(
        state: (usize, Seq<u8>),
        mapper: Mapper,
        format: PageFormat,
        pte_type: PteType,
        range: Range<u64>,
        pte: u64,
    ) -> (usize, Seq<u8>) {
        let (offset, data) = state;
        if pte_type is Page && offset <= data.len() {
            let level = format.levels@[pte_type.spec_level() as int];
            let size = spec_chunk_size(level, range.start, (data.len() - offset) as usize);
            let phys = spec_chunk_address(level, format.physical_mask, pte, range.start);
            let bytes = mapper.spec_bytes(phys, size as nat);
            ((offset + size) as usize, spec_overwrite(data, offset as int, bytes, size as int))
        } else {
            state
        }
    }

    open spec fn after_hole(
        state: (usize, Seq<u8>),
        mapper: Mapper,
        format: PageFormat,
        level: usize,
        range: Range<u64>,
        pte: u64,
    ) -> (usize, Seq<u8>) {
        state
    }

    open spec fn after_post(
        state: (usize, Seq<u8>),
        mapper: Mapper,
        format: PageFormat,
        level: usize,
        range: Range<u64>,
        pte: u64,
    ) -> (usize, Seq<u8>) {
        state
    }

    open spec fn pte_ok(
        state: (usize, Seq<u8>),
        mapper: Mapper,
        format: PageFormat,
        pte_type: PteType,
        range: Range<u64>,
        pte: u64,
    ) -> bool {
        let (offset, data) = state;
        let level = format.levels@[pte_type.spec_level() as int];
        let copied = mapper.spec_read_bytes_result(
            spec_chunk_address(level, format.physical_mask, pte, range.start),
            spec_chunk_size(level, range.start, (data.len() - offset) as usize) as nat,
        );
        !(pte_type is Page) || (level.spec_is_present(pte) && (offset > data.len() || <Mapper as PageTableMapper<Error>>::infallible()
            || copied is Ok))
    }

    open spec fn pte_rejects(
        state: (usize, Seq<u8>),
        mapper: Mapper,
        format: PageFormat,
        pte_type: PteType,
        range: Range<u64>,
        pte: u64,
    ) -> bool {
        let (offset, data) = state;
        let level = format.levels@[pte_type.spec_level() as int];
        let copied = mapper.spec_read_bytes_result(
            spec_chunk_address(level, format.physical_mask, pte, range.start),
            spec_chunk_size(level, range.start, (data.len() - offset) as usize) as nat,
        );
        pte_type is Page && (!level.spec_is_present(pte) || (offset <= data.len() && copied is Err))
    }

    open spec fn hole_rejects(
        state: (usize, Seq<u8>),
        mapper: Mapper,
        format: PageFormat,
        level: usize,
        range: Range<u64>,
        pte: u64,
    ) -> bool {
        true
    }

    open spec fn post_ok(
        state: (usize, Seq<u8>),
        mapper: Mapper,
        format: PageFormat,
        level: usize,
        range: Range<u64>,
        pte: u64,
    ) -> bool {
        true
    }

    open spec fn pte_error(
        state: (usize, Seq<u8>),
        mapper: Mapper,
        format: PageFormat,
        pte_type: PteType,
        range: Range<u64>,
        pte: u64,
    ) -> Error {
        let (offset, data) = state;
        let level = format.levels@[pte_type.spec_level() as int];
        let copied = mapper.spec_read_bytes_result(
            spec_chunk_address(level, format.physical_mask, pte, range.start),
            spec_chunk_size(level, range.start, (data.len() - offset) as usize) as nat,
        );
        if !level.spec_is_present(pte) {
            Mapper::spec_page_not_present()
        } else {
            copied->Err_0
        }
    }

    open spec fn hole_error(
        state: (usize, Seq<u8>),
        mapper: Mapper,
        format: PageFormat,
        level: usize,
        range: Range<u64>,
        pte: u64,
    ) -> Error {
        Mapper::spec_page_not_present()
    }

    fn handle_pte(
        &mut self,
        mapper: &Mapper,
        format: &PageFormat,
        pte_type: PteType,
        range: Range<u64>,
        pte: &u64,
    ) -> (r: Result<(), Error>) {
        if let PteType::Page(index) = pte_type {
            let level = &format.levels[index];
            assert(format.levels@[index as int].va_bits >= 1);
            if !level.is_present(*pte) {
                return Err(Mapper::page_not_present());
            }
            if self.offset > self.data.len() {
                return Ok(());
            }
            let remaining = self.data.len() - self.offset;
            let (phys_addr, size) = chunk(level, format.physical_mask, *pte, range.start, remaining);
            let mut bytes = zeroed(size);
            let res = mapper.read_bytes(&mut bytes, phys_addr);
            if let Err(e) = res {
                return Err(e);
            }
            self.store(&bytes);
        }
        Ok(())
    }

    fn handle_pte_hole(
        &mut self,
        mapper: &Mapper,
        format: &PageFormat,
        level: usize,
        range: Range<u64>,
        pte: &u64,
    ) -> (r: Result<(), Error>) {
        Err(Mapper::page_not_present())
    }

    fn handle_post_pte(
        &mut self,
        mapper: &Mapper,
        format: &PageFormat,
        level: usize,
        range: Range<u64>,
        pte: &u64,
    ) -> (r: Result<(), Error>) {
        Ok(())
    }
}

/// A read-only walk with a [`CopyFromWalker`] keeps the length of the buffer.
pub proof fn lemma_copy_from_keeps_length<Mapper, Error>(
    format: PageFormat,
    mapper: Mapper,
    phys: u64,
    index: usize,
    cursor: u64,
    end: u64,
    state: (usize, Seq<u8>),
)
    where
        Mapper: PageTableMapper<Error>,
    requires
        format.wf(),
    ensures
        format.spec_walk_from::<CopyFromWalker, Mapper, Error>(
            mapper,
            phys,
            index,
            cursor,
            end,
            state,
        ).1.len() == state.1.len(),
    decreases index, if cursor < end {
        end - cursor
    } else {
        0
    },
{
    if cursor < end && index < format.levels@.len() {
        let level = format.levels@[index as int];
        let piece_end = spec_piece_end(level, cursor, end);
        let pte = mapper.spec_pte(format.spec_pte_address(phys, level, cursor));
        let pte_type = format.spec_classify(index, pte);
        let seen = <CopyFromWalker as PageWalker<Mapper, Error>>::after_pte(
            state,
            mapper,
            format,
            pte_type,
            cursor..piece_end,
            pte,
        );
        let s = level.shift_bits;
        assert(level.va_bits >= 1);
        assert(cursor & (((1u64 << s) - 1) as u64) < 1u64 << s) by (bit_vector)
            requires
                s < 64,
        ;
        assert(seen.1.len() == state.1.len());
        lemma_piece_advances(format, index, cursor, end);
        if pte_type is PageTable && level.spec_is_present(pte) {
            lemma_copy_from_keeps_length::<Mapper, Error>(
                format,
                mapper,
                pte & format.physical_mask,
                (index - 1) as usize,
                format.spec_sign_extend(cursor),
                piece_end,
                seen,
            );
        }
        let done = if pte_type is PageTable && level.spec_is_present(pte) {
            format.spec_walk_from::<CopyFromWalker, Mapper, Error>(
                mapper,
                pte & format.physical_mask,
                (index - 1) as usize,
                format.spec_sign_extend(cursor),
                piece_end,
                seen,
            )
        } else {
            seen
        };
        if piece_end != end {
            lemma_copy_from_keeps_length::<Mapper, Error>(
                format,
                mapper,
                phys,
                index,
                format.spec_sign_extend(piece_end),
                end,
                done,
            );
        }
    }
}

/// A walk strategy that copies a buffer into the pages it meets, in address order. It fails on
/// a page that is not present. This is what [`crate::AddressSpace::copy_to`] does.
pub struct CopyToWalker {
    /// How many bytes of the buffer have been copied.
    pub offset: usize,
    /// The buffer.
    pub data: Vec<u8>,
}

impl CopyToWalker {
    /// The next `size` bytes of the buffer, from the current offset.
    pub fn take(&self, size: usize) -> (r: Vec<u8>)
        requires
            self.offset + size <= self.data@.len(),
        ensures
            r@ == self.data@.subrange(self.offset as int, self.offset + size),
    {
        let mut r: Vec<u8> = Vec::new();
        let total = self.data.len();
        let mut k: usize = 0;
        while k < size
            invariant
                total == self.data@.len(),
                self.offset + size <= total,
                k <= size,
                r@ == self.data@.subrange(self.offset as int, self.offset + k),
            decreases size - k,
        {
            r.push(self.data[self.offset + k]);
            k += 1;
            assert(r@ =~= self.data@.subrange(self.offset as int, self.offset + k));
        }
        r
    }
}

impl<Mapper: PageTableMapper<Error>, Error> PageWalkerMut<Mapper, Error> for CopyToWalker {
    /// The offset and the contents of the buffer.
    type State = (usize, Seq<u8>);

    open spec fn state(&self) -> (usize, Seq<u8>) {
        (self.offset, self.data@)
    }

    /// At a present page, the bytes of the buffer from the offset on, as many as the page
    /// allows, are written from the address of the piece on.
    open spec fn after_pte(
        state: (usize, Seq<u8>),
        mapper: Mapper,
        format: PageFormat,
        pte_type: PteType,
        range: Range<u64>,
        pte: u64,
    ) -> ((usize, Seq<u8>), Mapper, u64) {
        let (offset, data) = state;
        let level = format.levels@[pte_type.spec_level() as int];
        if pte_type is Page && level.spec_is_present(pte) && offset <= data.len() {
            let size = spec_chunk_size(level, range.start, (data.len() - offset) as usize);
            let phys = spec_chunk_address(level, format.physical_mask, pte, range.start);
            (
                ((offset + size) as usize, data),
                mapper.spec_write_bytes(phys, data.subrange(offset as int, offset + size)),
                pte,
            )
        } else {
            (state, mapper, pte)
        }
    }

    open spec fn pte_ok(
        state: (usize, Seq<u8>),
        mapper: Mapper,
        format: PageFormat,
        pte_type: PteType,
        range: Range<u64>,
        pte: u64,
    ) -> bool {
        let (offset, data) = state;
        let level = format.levels@[pte_type.spec_level() as int];
        let copied = mapper.spec_write_bytes_result(
            spec_chunk_address(level, format.physical_mask, pte, range.start),
            data.subrange(
                offset as int,
                offset + spec_chunk_size(level, range.start, (data.len() - offset) as usize),
            ),
        );
        !(pte_type is Page) || (level.spec_is_present(pte) && (offset > data.len() || <Mapper as PageTableMapper<Error>>::infallible()
            || copied is Ok))
    }

    open spec fn pte_rejects(
        state: (usize, Seq<u8>),
        mapper: Mapper,
        format: PageFormat,
        pte_type: PteType,
        range: Range<u64>,
        pte: u64,
    ) -> bool {
        let (offset, data) = state;
        let level = format.levels@[pte_type.spec_level() as int];
        let copied = mapper.spec_write_bytes_result(
            spec_chunk_address(level, format.physical_mask, pte, range.start),
            data.subrange(
                offset as int,
                offset + spec_chunk_size(level, range.start, (data.len() - offset) as usize),
            ),
        );
        pte_type is Page && (!level.spec_is_present(pte) || (offset <= data.len() && copied is Err))
    }

    open spec fn hole_rejects(
        state: (usize, Seq<u8>),
        mapper: Mapper,
        format: PageFormat,
        level: usize,
        range: Range<u64>,
        pte: u64,
    ) -> bool {
        true
    }

    open spec fn post_ok(
        state: (usize, Seq<u8>),
        mapper: Mapper,
        format: PageFormat,
        level: usize,
        range: Range<u64>,
        pte: u64,
    ) -> bool {
        true
    }

    open spec fn pte_error(
        state: (usize, Seq<u8>),
        mapper: Mapper,
        format: PageFormat,
        pte_type: PteType,
        range: Range<u64>,
        pte: u64,
    ) -> Error {
        let (offset, data) = state;
        let level = format.levels@[pte_type.spec_level() as int];
        let copied = mapper.spec_write_bytes_result(
            spec_chunk_address(level, format.physical_mask, pte, range.start),
            data.subrange(
                offset as int,
                offset + spec_chunk_size(level, range.start, (data.len() - offset) as usize),
            ),
        );
        if !level.spec_is_present(pte) {
            Mapper::spec_page_not_present()
        } else {
            copied->Err_0
        }
    }

    open spec fn hole_error(
        state: (usize, Seq<u8>),
        mapper: Mapper,
        format: PageFormat,
        level: usize,
        range: Range<u64>,
        pte: u64,
    ) -> Error {
        Mapper::spec_page_not_present()
    }

    fn handle_pte(
        &mut self,
        mapper: &mut Mapper,
        format: &PageFormat,
        pte_type: PteType,
        range: Range<u64>,
        pte: &mut u64,
    ) -> (r: Result<(), Error>) {
        if let PteType::Page(index) = pte_type {
            let level = &format.levels[index];
            assert(format.levels@[index as int].va_bits >= 1);
            if !level.is_present(*pte) {
                return Err(Mapper::page_not_present());
            }
            if self.offset > self.data.len() {
                return Ok(());
            }
            let remaining = self.data.len() - self.offset;
            let (phys_addr, size) = chunk(level, format.physical_mask, *pte, range.start, remaining);
            let bytes = self.take(size);
            let res = mapper.write_bytes(phys_addr, bytes.as_slice());
            if let Err(e) = res {
                return Err(e);
            }
            self.offset = self.offset + size;
        }
        Ok(())
    }

    fn handle_pte_hole(
        &mut self,
        mapper: &mut Mapper,
        format: &PageFormat,
        level: usize,
        range: Range<u64>,
        pte: &mut u64,
    ) -> (r: Result<(), Error>) {
        Err(Mapper::page_not_present())
    }

    fn handle_post_pte(
        &mut self,
        mapper: &mut Mapper,
        format: &PageFormat,
        level: usize,
        range: Range<u64>,
        pte: &mut u64,
    ) -> (r: Result<(), Error>) {
        Ok(())
    }
}

} // verus!
