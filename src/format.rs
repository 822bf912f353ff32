//! The description of a whole page table hierarchy, and the walks over it.
use vstd::prelude::*;
use vstd::std_specs::bits::u64_trailing_ones;
use core::ops::Range;
use crate::level::{PageLevel, low_mask};
use crate::walker::{PageWalker, PageWalkerMut, PteType};
use crate::address_space::PageTableMapper;

verus! {

/// Describes the page table hierarchy: its levels, the bits of an entry that hold a physical
/// address, and the size of an entry.
#[derive(Debug)]
pub struct PageFormat {
    /// The levels of the hierarchy, the leaf at index zero and the root last.
    pub levels: Vec<PageLevel>,
    /// The bits of an entry that refer to a physical address rather than to metadata.
    pub physical_mask: u64,
    /// The size of a page table entry in bytes.
    pub pte_size: usize,
}

/// All the address bits that a level decodes or that lie within one of its pages.
pub open spec fn level_span(level: PageLevel) -> u64 {
    level.spec_mask() | low_mask(level.shift_bits)
}

/// The largest span over a sequence of levels (zero for none).
pub open spec fn max_span(levels: Seq<PageLevel>) -> u64
    decreases levels.len(),
{
    if levels.len() == 0 {
        0
    } else {
        let rest = max_span(levels.drop_last());
        let last = level_span(levels.last());
        if last > rest {
            last
        } else {
            rest
        }
    }
}

/// The sign bit of an address space whose address bits are `vm`: the highest of the run of ones
/// at the bottom of `vm`.
pub open spec fn sign_bit_of(vm: u64) -> u64 {
    1u64 << ((u64_trailing_ones(vm) - 1) as u64)
}

/// Sign extension of `addr` over the address bits `vm`.
pub open spec fn sign_extend_over(vm: u64, addr: u64) -> u64 {
    if addr & sign_bit_of(vm) == sign_bit_of(vm) {
        !vm | addr
    } else {
        addr
    }
}

/// The end of the piece of the range from `cursor` to `end` that lies in the page of `level`
/// holding `cursor`: the first address of the next page, or `end` where that comes first.
pub open spec fn spec_piece_end(level: PageLevel, cursor: u64, end: u64) -> u64 {
    if level.spec_end(cursor) < end - 1 {
        (level.spec_end(cursor) + 1) as u64
    } else {
        end
    }
}

impl PageFormat {
    /// Whether a page table of `level` spans at most the 64-bit physical address space, so that
    /// the offset of each of its entries fits in 64 bits.
    pub open spec fn table_fits(&self, level: PageLevel) -> bool {
        (level.spec_entries() as int) * (self.pte_size as int) <= 0x1_0000_0000_0000_0000
    }

    /// The invariant of a hierarchy: between one and sixty-four levels, leaf first, each
    /// indexing the address bits just above those of the level below, all within 64 bits, and
    /// each with tables whose entries have offsets that fit in 64 bits.
    pub open spec fn wf(&self) -> bool {
        &&& 1 <= self.levels@.len() <= 64
        &&& 1 <= self.pte_size
        &&& forall|i: int|
            0 <= i < self.levels@.len() ==> {
                &&& 1 <= #[trigger] self.levels@[i].va_bits < 64
                &&& self.levels@[i].shift_bits + self.levels@[i].va_bits <= 64
                &&& self.table_fits(self.levels@[i])
            }
        &&& forall|i: int|
            0 <= i < self.levels@.len() - 1 ==> #[trigger] self.levels@[i + 1].shift_bits
                == self.levels@[i].shift_bits + self.levels@[i].va_bits
    }

    /// The arguments with which a walk calls back: a level of a well-formed format and a
    /// non-empty range that lies within one page of that level.
    pub open spec fn visit_ok(&self, level: usize, range: Range<u64>) -> bool {
        &&& self.wf()
        &&& level < self.levels@.len()
        &&& range.start < range.end
        &&& range.end - 1 <= self.levels@[level as int].spec_end(range.start)
    }

    /// A PTE is a page at the leaf level or where it maps a huge page; else it refers to a
    /// page table.
    pub open spec fn spec_classify(&self, level: usize, pte: u64) -> PteType {
        if level == 0 || self.levels@[level as int].spec_is_huge_page(pte) {
            PteType::Page(level)
        } else {
            PteType::PageTable(level)
        }
    }

    /// The virtual address mask: the largest span of a level.
    pub open spec fn spec_virtual_mask(&self) -> u64 {
        max_span(self.levels@)
    }

    /// An address sign-extended over the virtual address mask.
    pub open spec fn spec_sign_extend(&self, addr: u64) -> u64 {
        sign_extend_over(self.spec_virtual_mask(), addr)
    }

    /// The full virtual address mask: over all levels, the largest of the level's index bits
    /// together with the offset bits within its pages. Its highest bit is the sign bit.
    pub fn virtual_mask(&self) -> (r: u64)
        requires
            self.levels@.len() >= 1,
            forall|i: int| 0 <= i < self.levels@.len() ==> #[trigger] self.levels@[i].shifts_fit(),
        ensures
            r == self.spec_virtual_mask(),
            forall|i: int| 0 <= i < self.levels@.len() ==> level_span(#[trigger] self.levels@[i]) <= r,
            exists|i: int| 0 <= i < self.levels@.len() && r == level_span(#[trigger] self.levels@[i]),
    {
        let mut best: u64 = 0;
        let mut i: usize = 0;
        while i < self.levels.len()
            invariant
                i <= self.levels@.len(),
                self.levels@.len() >= 1,
                forall|k: int| 0 <= k < self.levels@.len() ==> #[trigger] self.levels@[k].shifts_fit(),
                best == max_span(self.levels@.subrange(0, i as int)),
                forall|k: int| 0 <= k < i ==> level_span(#[trigger] self.levels@[k]) <= best,
                i > 0 ==> exists|k: int| 0 <= k < i && best == level_span(#[trigger] self.levels@[k]),
            decreases self.levels@.len() - i,
        {
            let level = &self.levels[i];
            assert(self.levels@[i as int].shifts_fit());
            let span = level.mask() | (level.page_size() - 1);
            assert(self.levels@.subrange(0, i + 1).drop_last() =~= self.levels@.subrange(0, i as int));
            if span > best {
                best = span;
            }
            i += 1;
        }
        assert(self.levels@.subrange(0, i as int) =~= self.levels@);
        best
    }

    /// Sign-extends an address: where its sign bit is set, every bit above the virtual address
    /// mask is set too; otherwise the address is returned as it is.
    pub fn sign_extend(&self, address: u64) -> (r: u64)
        requires
            self.wf(),
        ensures
            r == self.spec_sign_extend(address),
            r >= address,
    {
        let vm = self.virtual_mask();
        proof {
            let i = choose|i: int| 0 <= i < self.levels@.len() && vm == level_span(#[trigger] self.levels@[i]);
            let l = self.levels@[i];
            let s = l.shift_bits;
            let v = l.va_bits;
            assert(((((1u64 << v) - 1) as u64) << s | (((1u64 << s) - 1) as u64)) & 1 == 1) by (bit_vector)
                requires
                    1 <= v,
                    s + v <= 64,
            ;
            vstd::std_specs::bits::axiom_u64_trailing_ones(vm);
            assert((vm >> 0u64) & 1 == vm & 1) by (bit_vector);
        }
        let ones = vm.trailing_ones();
        let sign_bit = 1u64 << (ones - 1) as u64;
        proof {
            assert(address | !vm >= address) by (bit_vector);
            assert(!vm | address == address | !vm) by (bit_vector);
        }
        if address & sign_bit == sign_bit {
            !vm | address
        } else {
            address
        }
    }

    /// The physical address of the entry that covers `addr` in the table of `level` at `phys`.
    pub open spec fn spec_pte_address(&self, phys: u64, level: PageLevel, addr: u64) -> u64 {
        phys.wrapping_add((level.spec_pte_index(addr) * (self.pte_size as u64)) as u64)
    }

    /// The entry that maps `addr` below the table at `phys` of level `index`: going down, the
    /// first entry that maps a page; none where a page table on the way is not present.
    pub open spec fn spec_lookup<Mapper, Error>(
        &self,
        mapper: Mapper,
        phys: u64,
        index: usize,
        addr: u64,
    ) -> Option<u64>
        where
            Mapper: PageTableMapper<Error>,
        decreases index,
    {
        if index >= self.levels@.len() {
            None
        } else {
            let level = self.levels@[index as int];
            let pte = mapper.spec_pte(self.spec_pte_address(phys, level, addr));
            if index == 0 || level.spec_is_huge_page(pte) {
                Some(pte)
            } else if !level.spec_is_present(pte) {
                None
            } else {
                self.spec_lookup::<Mapper, Error>(
                    mapper,
                    pte & self.physical_mask,
                    (index - 1) as usize,
                    addr,
                )
            }
        }
    }

    /// The physical addresses of the entries that the lookup of `addr` reads, top down.
    pub open spec fn spec_path<Mapper, Error>(
        &self,
        mapper: Mapper,
        phys: u64,
        index: usize,
        addr: u64,
    ) -> Seq<u64>
        where
            Mapper: PageTableMapper<Error>,
        decreases index,
    {
        if index >= self.levels@.len() {
            Seq::empty()
        } else {
            let level = self.levels@[index as int];
            let cell = self.spec_pte_address(phys, level, addr);
            let pte = mapper.spec_pte(cell);
            if index == 0 || level.spec_is_huge_page(pte) || !level.spec_is_present(pte) {
                seq![cell]
            } else {
                seq![cell] + self.spec_path::<Mapper, Error>(
                    mapper,
                    pte & self.physical_mask,
                    (index - 1) as usize,
                    addr,
                )
            }
        }
    }

    /// The entry that maps virtual address `addr` in the hierarchy whose root table is at
    /// `root`; none for an address that sign extension changes, which lies outside the
    /// canonical ranges.
    pub open spec fn spec_translate<Mapper, Error>(&self, mapper: Mapper, root: u64, addr: u64) -> Option<
        u64,
    >
        where
            Mapper: PageTableMapper<Error>,
    {
        if self.spec_sign_extend(addr) == addr {
            self.spec_lookup::<Mapper, Error>(mapper, root, (self.levels@.len() - 1) as usize, addr)
        } else {
            None
        }
    }

    /// The walker's state after a successful read-only walk of the table at `phys`, of level `index`,
    /// over the addresses from `cursor` to `end`: for each piece of the range within one page of
    /// the level, in order, `handle_pte`, then `handle_pte_hole` where the entry is not present,
    /// then, for a present page table, the walk of its child table over the piece followed by
    /// `handle_post_pte`. The next piece starts at the sign extension of the end of this one.
    pub open spec fn spec_walk_from<Walker, Mapper, Error>(
        &self,
        mapper: Mapper,
        phys: u64,
        index: usize,
        cursor: u64,
        end: u64,
        state: Walker::State,
    ) -> Walker::State
        where
            Walker: PageWalker<Mapper, Error>,
            Mapper: PageTableMapper<Error>,
        decreases index, if cursor < end {
            end - cursor
        } else {
            0
        },
        via Self::spec_walk_from_decreases::<Walker, Mapper, Error>
    {
        if cursor >= end || index >= self.levels@.len() {
            state
        } else {
            let level = self.levels@[index as int];
            let piece_end = spec_piece_end(level, cursor, end);
            let piece = cursor..piece_end;
            let pte = mapper.spec_pte(self.spec_pte_address(phys, level, cursor));
            let pte_type = self.spec_classify(index, pte);
            let seen = Walker::after_pte(state, mapper, *self, pte_type, piece, pte);
            let filled = if !level.spec_is_present(pte) {
                Walker::after_hole(seen, mapper, *self, index, piece, pte)
            } else {
                seen
            };
            let done = if pte_type is PageTable && level.spec_is_present(pte) {
                let below = self.spec_walk_from::<Walker, Mapper, Error>(
                    mapper,
                    pte & self.physical_mask,
                    (index - 1) as usize,
                    self.spec_sign_extend(cursor),
                    piece_end,
                    filled,
                );
                Walker::after_post(below, mapper, *self, index, piece, pte)
            } else {
                filled
            };
            if piece_end == end {
                done
            } else {
                self.spec_walk_from::<Walker, Mapper, Error>(
                    mapper,
                    phys,
                    index,
                    self.spec_sign_extend(piece_end),
                    end,
                    done,
                )
            }
        }
    }

    /// Whether a read-only walk of the table at `phys`, of level `index`, over the addresses
    /// from `cursor` to `end`, succeeds through a mapper that never fails: every callback that
    /// the walk makes, in the state that the walk has reached, succeeds.
    pub open spec fn spec_walk_ok_from<Walker, Mapper, Error>(
        &self,
        mapper: Mapper,
        phys: u64,
        index: usize,
        cursor: u64,
        end: u64,
        state: Walker::State,
    ) -> bool
        where
            Walker: PageWalker<Mapper, Error>,
            Mapper: PageTableMapper<Error>,
        decreases index, if cursor < end {
            end - cursor
        } else {
            0
        },
        via Self::spec_walk_ok_from_decreases::<Walker, Mapper, Error>
    {
        if cursor >= end || index >= self.levels@.len() {
            true
        } else {
            let level = self.levels@[index as int];
            let piece_end = spec_piece_end(level, cursor, end);
            let piece = cursor..piece_end;
            let pte = mapper.spec_pte(self.spec_pte_address(phys, level, cursor));
            let pte_type = self.spec_classify(index, pte);
            let seen = Walker::after_pte(state, mapper, *self, pte_type, piece, pte);
            let filled = if !level.spec_is_present(pte) {
                Walker::after_hole(seen, mapper, *self, index, piece, pte)
            } else {
                seen
            };
            let descends = pte_type is PageTable && level.spec_is_present(pte);
            let below = self.spec_walk_from::<Walker, Mapper, Error>(
                mapper,
                pte & self.physical_mask,
                (index - 1) as usize,
                self.spec_sign_extend(cursor),
                piece_end,
                filled,
            );
            let done = if descends {
                Walker::after_post(below, mapper, *self, index, piece, pte)
            } else {
                filled
            };
            &&& Walker::pte_ok(state, mapper, *self, pte_type, piece, pte)
            &&& (!level.spec_is_present(pte) ==> Walker::hole_ok(seen, mapper, *self, index, piece, pte))
            &&& if descends {
                &&& self.spec_walk_ok_from::<Walker, Mapper, Error>(
                    mapper,
                    pte & self.physical_mask,
                    (index - 1) as usize,
                    self.spec_sign_extend(cursor),
                    piece_end,
                    filled,
                )
                &&& Walker::post_ok(below, mapper, *self, index, piece, pte)
            } else {
                true
            }
            &&& if piece_end == end {
                true
            } else {
                self.spec_walk_ok_from::<Walker, Mapper, Error>(
                    mapper,
                    phys,
                    index,
                    self.spec_sign_extend(piece_end),
                    end,
                    done,
                )
            }
        }
    }

    #[via_fn]
    proof fn spec_walk_from_decreases<Walker, Mapper, Error>(
        &self,
        mapper: Mapper,
        phys: u64,
        index: usize,
        cursor: u64,
        end: u64,
        state: Walker::State,
    )
        where
            Walker: PageWalker<Mapper, Error>,
            Mapper: PageTableMapper<Error>,
    {
        if cursor < end && index < self.levels@.len() {
            lemma_piece_advances(*self, index, cursor, end);
        }
    }

    #[via_fn]
    proof fn spec_walk_ok_from_decreases<Walker, Mapper, Error>(
        &self,
        mapper: Mapper,
        phys: u64,
        index: usize,
        cursor: u64,
        end: u64,
        state: Walker::State,
    )
        where
            Walker: PageWalker<Mapper, Error>,
            Mapper: PageTableMapper<Error>,
    {
        if cursor < end && index < self.levels@.len() {
            lemma_piece_advances(*self, index, cursor, end);
        }
    }

    /// The walker's state after a successful read-only walk of the hierarchy below the table at
    /// `phys`, of level `index` (the root where `index` is too large), over `range`.
    pub open spec fn spec_walk<Walker, Mapper, Error>(
        &self,
        mapper: Mapper,
        phys: u64,
        index: usize,
        range: Range<u64>,
        state: Walker::State,
    ) -> Walker::State
        where
            Walker: PageWalker<Mapper, Error>,
            Mapper: PageTableMapper<Error>,
    {
        let index = if index >= self.levels@.len() {
            (self.levels@.len() - 1) as usize
        } else {
            index
        };
        self.spec_walk_from::<Walker, Mapper, Error>(
            mapper,
            phys,
            index,
            self.spec_sign_extend(range.start),
            range.end,
            state,
        )
    }

    /// Whether a read-only walk over `range` below the table at `phys`, of level `index` (the
    /// root where `index` is too large), succeeds through a mapper that never fails.
    pub open spec fn spec_walk_ok<Walker, Mapper, Error>(
        &self,
        mapper: Mapper,
        phys: u64,
        index: usize,
        range: Range<u64>,
        state: Walker::State,
    ) -> bool
        where
            Walker: PageWalker<Mapper, Error>,
            Mapper: PageTableMapper<Error>,
    {
        let index = if index >= self.levels@.len() {
            (self.levels@.len() - 1) as usize
        } else {
            index
        };
        self.spec_walk_ok_from::<Walker, Mapper, Error>(
            mapper,
            phys,
            index,
            self.spec_sign_extend(range.start),
            range.end,
            state,
        )
    }

    /// The walker's state and the mapper after a successful walk that may rewrite entries, of
    /// the table at `phys`, of level `index`, over the addresses from `cursor` to `end`: for
    /// each piece of the range within one page of the level, in order, `handle_pte`, then
    /// `handle_pte_hole` where the entry is not present, then the entry is written back; where
    /// it now refers to a present page table, the walk of the child table over the piece
    /// follows, then `handle_post_pte`, and the entry is written back again.
    pub open spec fn spec_walk_mut_from<Walker, Mapper, Error>(
        &self,
        mapper: Mapper,
        phys: u64,
        index: usize,
        cursor: u64,
        end: u64,
        state: Walker::State,
    ) -> (Walker::State, Mapper)
        where
            Walker: PageWalkerMut<Mapper, Error>,
            Mapper: PageTableMapper<Error>,
        decreases index, if cursor < end {
            end - cursor
        } else {
            0
        },
        via Self::spec_walk_mut_from_decreases::<Walker, Mapper, Error>
    {
        if cursor >= end || index >= self.levels@.len() {
            (state, mapper)
        } else {
            let level = self.levels@[index as int];
            let piece_end = spec_piece_end(level, cursor, end);
            let piece = cursor..piece_end;
            let pte_addr = self.spec_pte_address(phys, level, cursor);
            let pte = mapper.spec_pte(pte_addr);
            let (seen_state, seen_mapper, seen_pte) = Walker::after_pte(
                state,
                mapper,
                *self,
                self.spec_classify(index, pte),
                piece,
                pte,
            );
            let (filled_state, filled_mapper, filled_pte) = if !level.spec_is_present(seen_pte) {
                Walker::after_hole(seen_state, seen_mapper, *self, index, piece, seen_pte)
            } else {
                (seen_state, seen_mapper, seen_pte)
            };
            let written = filled_mapper.spec_write(pte_addr, filled_pte);
            let (next_state, next_mapper) = if index != 0 && !level.spec_is_huge_page(filled_pte) && level.spec_is_present(
                filled_pte,
            ) {
                let (below_state, below_mapper) = self.spec_walk_mut_from::<Walker, Mapper, Error>(
                    written,
                    filled_pte & self.physical_mask,
                    (index - 1) as usize,
                    self.spec_sign_extend(cursor),
                    piece_end,
                    filled_state,
                );
                let (post_state, post_mapper, post_pte) = Walker::after_post(below_state, below_mapper, *self, index, piece, filled_pte);
                (post_state, post_mapper.spec_write(pte_addr, post_pte))
            } else {
                (filled_state, written)
            };
            if piece_end == end {
                (next_state, next_mapper)
            } else {
                self.spec_walk_mut_from::<Walker, Mapper, Error>(
                    next_mapper,
                    phys,
                    index,
                    self.spec_sign_extend(piece_end),
                    end,
                    next_state,
                )
            }
        }
    }

    #[via_fn]
    proof fn spec_walk_mut_from_decreases<Walker, Mapper, Error>(
        &self,
        mapper: Mapper,
        phys: u64,
        index: usize,
        cursor: u64,
        end: u64,
        state: Walker::State,
    )
        where
            Walker: PageWalkerMut<Mapper, Error>,
            Mapper: PageTableMapper<Error>,
    {
        if cursor < end && index < self.levels@.len() {
            lemma_piece_advances(*self, index, cursor, end);
        }
    }

    #[via_fn]
    proof fn spec_walk_mut_ok_from_decreases<Walker, Mapper, Error>(
        &self,
        mapper: Mapper,
        phys: u64,
        index: usize,
        cursor: u64,
        end: u64,
        state: Walker::State,
    )
        where
            Walker: PageWalkerMut<Mapper, Error>,
            Mapper: PageTableMapper<Error>,
    {
        if cursor < end && index < self.levels@.len() {
            lemma_piece_advances(*self, index, cursor, end);
        }
    }

    /// Whether a walk that may rewrite entries, of the table at `phys`, of level `index`, over
    /// the addresses from `cursor` to `end`, succeeds through a mapper that never fails: every
    /// callback that the walk makes, in the state that the walk has reached, succeeds.
    pub open spec fn spec_walk_mut_ok_from<Walker, Mapper, Error>(
        &self,
        mapper: Mapper,
        phys: u64,
        index: usize,
        cursor: u64,
        end: u64,
        state: Walker::State,
    ) -> bool
        where
            Walker: PageWalkerMut<Mapper, Error>,
            Mapper: PageTableMapper<Error>,
        decreases index, if cursor < end {
            end - cursor
        } else {
            0
        },
        via Self::spec_walk_mut_ok_from_decreases::<Walker, Mapper, Error>
    {
        if cursor >= end || index >= self.levels@.len() {
            true
        } else {
            let level = self.levels@[index as int];
            let piece_end = spec_piece_end(level, cursor, end);
            let piece = cursor..piece_end;
            let pte_addr = self.spec_pte_address(phys, level, cursor);
            let pte = mapper.spec_pte(pte_addr);
            let (seen_state, seen_mapper, seen_pte) = Walker::after_pte(
                state,
                mapper,
                *self,
                self.spec_classify(index, pte),
                piece,
                pte,
            );
            let (filled_state, filled_mapper, filled_pte) = if !level.spec_is_present(seen_pte) {
                Walker::after_hole(seen_state, seen_mapper, *self, index, piece, seen_pte)
            } else {
                (seen_state, seen_mapper, seen_pte)
            };
            let written = filled_mapper.spec_write(pte_addr, filled_pte);
            let descends = index != 0 && !level.spec_is_huge_page(filled_pte)
                && level.spec_is_present(filled_pte);
            let (below_state, below_mapper) = self.spec_walk_mut_from::<Walker, Mapper, Error>(
                written,
                filled_pte & self.physical_mask,
                (index - 1) as usize,
                self.spec_sign_extend(cursor),
                piece_end,
                filled_state,
            );
            let (post_state, post_mapper, post_pte) = Walker::after_post(
                below_state,
                below_mapper,
                *self,
                index,
                piece,
                filled_pte,
            );
            let (next_state, next_mapper) = if descends {
                (post_state, post_mapper.spec_write(pte_addr, post_pte))
            } else {
                (filled_state, written)
            };
            &&& Walker::pte_ok(state, mapper, *self, self.spec_classify(index, pte), piece, pte)
            &&& (!level.spec_is_present(seen_pte) ==> Walker::hole_ok(seen_state, seen_mapper, *self, index, piece, seen_pte))
            &&& if descends {
                &&& self.spec_walk_mut_ok_from::<Walker, Mapper, Error>(
                    written,
                    filled_pte & self.physical_mask,
                    (index - 1) as usize,
                    self.spec_sign_extend(cursor),
                    piece_end,
                    filled_state,
                )
                &&& Walker::post_ok(below_state, below_mapper, *self, index, piece, filled_pte)
            } else {
                true
            }
            &&& if piece_end == end {
                true
            } else {
                self.spec_walk_mut_ok_from::<Walker, Mapper, Error>(
                    next_mapper,
                    phys,
                    index,
                    self.spec_sign_extend(piece_end),
                    end,
                    next_state,
                )
            }
        }
    }


    /// The walker's state and the mapper after a successful walk that may rewrite entries, of
    /// the hierarchy below the table at `phys`, of level `index` (the root where `index` is too
    /// large), over `range`.
    pub open spec fn spec_walk_mut<Walker, Mapper, Error>(
        &self,
        mapper: Mapper,
        phys: u64,
        index: usize,
        range: Range<u64>,
        state: Walker::State,
    ) -> (Walker::State, Mapper)
        where
            Walker: PageWalkerMut<Mapper, Error>,
            Mapper: PageTableMapper<Error>,
    {
        let index = if index >= self.levels@.len() {
            (self.levels@.len() - 1) as usize
        } else {
            index
        };
        self.spec_walk_mut_from::<Walker, Mapper, Error>(
            mapper,
            phys,
            index,
            self.spec_sign_extend(range.start),
            range.end,
            state,
        )
    }

    /// Whether a walk that may rewrite entries, over `range` below the table at `phys`, of
    /// level `index` (the root where `index` is too large), succeeds through a mapper that never fails.
    pub open spec fn spec_walk_mut_ok<Walker, Mapper, Error>(
        &self,
        mapper: Mapper,
        phys: u64,
        index: usize,
        range: Range<u64>,
        state: Walker::State,
    ) -> bool
        where
            Walker: PageWalkerMut<Mapper, Error>,
            Mapper: PageTableMapper<Error>,
    {
        let index = if index >= self.levels@.len() {
            (self.levels@.len() - 1) as usize
        } else {
            index
        };
        self.spec_walk_mut_ok_from::<Walker, Mapper, Error>(
            mapper,
            phys,
            index,
            self.spec_sign_extend(range.start),
            range.end,
            state,
        )
    }

    #[via_fn]
    proof fn spec_walk_outcome_from_decreases<Walker, Mapper, Error>(
        &self,
        mapper: Mapper,
        phys: u64,
        index: usize,
        cursor: u64,
        end: u64,
        state: Walker::State,
    )
        where
            Walker: PageWalker<Mapper, Error>,
            Mapper: PageTableMapper<Error>,
    {
        if cursor < end && index < self.levels@.len() {
            lemma_piece_advances(*self, index, cursor, end);
        }
    }

    /// The result of a read-only walk of the table at `phys`, of level `index`, over the
    /// addresses from `cursor` to `end`, where the walk's course decides it: `Ok` when every
    /// read succeeds and every callback succeeds; the error of the first read that fails or of
    /// the first callback that rejects its arguments, every step before it having succeeded;
    /// `None` where a callback is reached of which neither is known.
    pub open spec fn spec_walk_outcome_from<Walker, Mapper, Error>(
        &self,
        mapper: Mapper,
        phys: u64,
        index: usize,
        cursor: u64,
        end: u64,
        state: Walker::State,
    ) -> Option<Result<(), Error>>
        where
            Walker: PageWalker<Mapper, Error>,
            Mapper: PageTableMapper<Error>,
        decreases index, if cursor < end {
            end - cursor
        } else {
            0
        },
        via Self::spec_walk_outcome_from_decreases::<Walker, Mapper, Error>
    {
        if cursor >= end || index >= self.levels@.len() {
            Some(Ok(()))
        } else {
            let level = self.levels@[index as int];
            let piece_end = spec_piece_end(level, cursor, end);
            let piece = cursor..piece_end;
            let pte_addr = self.spec_pte_address(phys, level, cursor);
            match mapper.spec_read_result(pte_addr) {
                Err(e) => Some(Err(e)),
                Ok(_) => {
                    let pte = mapper.spec_pte(pte_addr);
                    let pte_type = self.spec_classify(index, pte);
                    let present = level.spec_is_present(pte);
                    let seen = Walker::after_pte(state, mapper, *self, pte_type, piece, pte);
                    let filled = if !present {
                        Walker::after_hole(seen, mapper, *self, index, piece, pte)
                    } else {
                        seen
                    };
                    let descends = pte_type is PageTable && present;
                    if Walker::pte_rejects(state, mapper, *self, pte_type, piece, pte) {
                        Some(Err(Walker::pte_error(state, mapper, *self, pte_type, piece, pte)))
                    } else if !Walker::pte_ok(state, mapper, *self, pte_type, piece, pte) {
                        None
                    } else if !present && Walker::hole_rejects(seen, mapper, *self, index, piece, pte) {
                        Some(Err(Walker::hole_error(seen, mapper, *self, index, piece, pte)))
                    } else if !present && !Walker::hole_ok(seen, mapper, *self, index, piece, pte) {
                        None
                    } else if descends {
                        let child = pte & self.physical_mask;
                        let below_outcome = self.spec_walk_outcome_from::<Walker, Mapper, Error>(
                            mapper,
                            child,
                            (index - 1) as usize,
                            self.spec_sign_extend(cursor),
                            piece_end,
                            filled,
                        );
                        let below = self.spec_walk_from::<Walker, Mapper, Error>(
                            mapper,
                            child,
                            (index - 1) as usize,
                            self.spec_sign_extend(cursor),
                            piece_end,
                            filled,
                        );
                        if !(below_outcome is Some && below_outcome->Some_0 is Ok) {
                            below_outcome
                        } else if Walker::post_rejects(below, mapper, *self, index, piece, pte) {
                            Some(Err(Walker::post_error(below, mapper, *self, index, piece, pte)))
                        } else if !Walker::post_ok(below, mapper, *self, index, piece, pte) {
                            None
                        } else if piece_end == end {
                            Some(Ok(()))
                        } else {
                            self.spec_walk_outcome_from::<Walker, Mapper, Error>(
                                mapper,
                                phys,
                                index,
                                self.spec_sign_extend(piece_end),
                                end,
                                Walker::after_post(below, mapper, *self, index, piece, pte),
                            )
                        }
                    } else if piece_end == end {
                        Some(Ok(()))
                    } else {
                        self.spec_walk_outcome_from::<Walker, Mapper, Error>(
                            mapper,
                            phys,
                            index,
                            self.spec_sign_extend(piece_end),
                            end,
                            filled,
                        )
                    }
                },
            }
        }
    }

    #[via_fn]
    proof fn spec_walk_mut_outcome_from_decreases<Walker, Mapper, Error>(
        &self,
        mapper: Mapper,
        phys: u64,
        index: usize,
        cursor: u64,
        end: u64,
        state: Walker::State,
    )
        where
            Walker: PageWalkerMut<Mapper, Error>,
            Mapper: PageTableMapper<Error>,
    {
        if cursor < end && index < self.levels@.len() {
            lemma_piece_advances(*self, index, cursor, end);
        }
    }

    /// The result of a walk that may rewrite entries, of the table at `phys`, of level
    /// `index`, over the addresses from `cursor` to `end`, where the walk's course decides it:
    /// `Ok` when every read, write and callback succeeds; the error of the first read or write
    /// that fails or of the first callback that rejects its arguments, every step before it
    /// having succeeded; `None` where a callback is reached of which neither is known.
    pub open spec fn spec_walk_mut_outcome_from<Walker, Mapper, Error>(
        &self,
        mapper: Mapper,
        phys: u64,
        index: usize,
        cursor: u64,
        end: u64,
        state: Walker::State,
    ) -> Option<Result<(), Error>>
        where
            Walker: PageWalkerMut<Mapper, Error>,
            Mapper: PageTableMapper<Error>,
        decreases index, if cursor < end {
            end - cursor
        } else {
            0
        },
        via Self::spec_walk_mut_outcome_from_decreases::<Walker, Mapper, Error>
    {
        if cursor >= end || index >= self.levels@.len() {
            Some(Ok(()))
        } else {
            let level = self.levels@[index as int];
            let piece_end = spec_piece_end(level, cursor, end);
            let piece = cursor..piece_end;
            let pte_addr = self.spec_pte_address(phys, level, cursor);
            match mapper.spec_read_result(pte_addr) {
                Err(e) => Some(Err(e)),
                Ok(_) => {
                    let pte = mapper.spec_pte(pte_addr);
                    let pte_type = self.spec_classify(index, pte);
                    let (seen_state, seen_mapper, seen_pte) = Walker::after_pte(
                        state,
                        mapper,
                        *self,
                        pte_type,
                        piece,
                        pte,
                    );
                    let present = level.spec_is_present(seen_pte);
                    let (filled_state, filled_mapper, filled_pte) = if !present {
                        Walker::after_hole(seen_state, seen_mapper, *self, index, piece, seen_pte)
                    } else {
                        (seen_state, seen_mapper, seen_pte)
                    };
                    if Walker::pte_rejects(state, mapper, *self, pte_type, piece, pte) {
                        Some(Err(Walker::pte_error(state, mapper, *self, pte_type, piece, pte)))
                    } else if !Walker::pte_ok(state, mapper, *self, pte_type, piece, pte) {
                        None
                    } else if !present && Walker::hole_rejects(
                        seen_state,
                        seen_mapper,
                        *self,
                        index,
                        piece,
                        seen_pte,
                    ) {
                        Some(
                            Err(
                                Walker::hole_error(
                                    seen_state,
                                    seen_mapper,
                                    *self,
                                    index,
                                    piece,
                                    seen_pte,
                                ),
                            ),
                        )
                    } else if !present && !Walker::hole_ok(
                        seen_state,
                        seen_mapper,
                        *self,
                        index,
                        piece,
                        seen_pte,
                    ) {
                        None
                    } else {
                        match filled_mapper.spec_write_result(pte_addr, filled_pte) {
                            Err(e) => Some(Err(e)),
                            Ok(_) => {
                                let written = filled_mapper.spec_write(pte_addr, filled_pte);
                                let descends = index != 0 && !level.spec_is_huge_page(filled_pte)
                                    && level.spec_is_present(filled_pte);
                                if descends {
                                    let child = filled_pte & self.physical_mask;
                                    let below_outcome = self.spec_walk_mut_outcome_from::<
                                        Walker,
                                        Mapper,
                                        Error,
                                    >(
                                        written,
                                        child,
                                        (index - 1) as usize,
                                        self.spec_sign_extend(cursor),
                                        piece_end,
                                        filled_state,
                                    );
                                    let (below_state, below_mapper) = self.spec_walk_mut_from::<
                                        Walker,
                                        Mapper,
                                        Error,
                                    >(
                                        written,
                                        child,
                                        (index - 1) as usize,
                                        self.spec_sign_extend(cursor),
                                        piece_end,
                                        filled_state,
                                    );
                                    let (post_state, post_mapper, post_pte) = Walker::after_post(
                                        below_state,
                                        below_mapper,
                                        *self,
                                        index,
                                        piece,
                                        filled_pte,
                                    );
                                    if !(below_outcome is Some && below_outcome->Some_0 is Ok) {
                                        below_outcome
                                    } else if Walker::post_rejects(
                                        below_state,
                                        below_mapper,
                                        *self,
                                        index,
                                        piece,
                                        filled_pte,
                                    ) {
                                        Some(
                                            Err(
                                                Walker::post_error(
                                                    below_state,
                                                    below_mapper,
                                                    *self,
                                                    index,
                                                    piece,
                                                    filled_pte,
                                                ),
                                            ),
                                        )
                                    } else if !Walker::post_ok(
                                        below_state,
                                        below_mapper,
                                        *self,
                                        index,
                                        piece,
                                        filled_pte,
                                    ) {
                                        None
                                    } else {
                                        match post_mapper.spec_write_result(pte_addr, post_pte) {
                                            Err(e) => Some(Err(e)),
                                            Ok(_) => if piece_end == end {
                                                Some(Ok(()))
                                            } else {
                                                self.spec_walk_mut_outcome_from::<
                                                    Walker,
                                                    Mapper,
                                                    Error,
                                                >(
                                                    post_mapper.spec_write(pte_addr, post_pte),
                                                    phys,
                                                    index,
                                                    self.spec_sign_extend(piece_end),
                                                    end,
                                                    post_state,
                                                )
                                            },
                                        }
                                    }
                                } else if piece_end == end {
                                    Some(Ok(()))
                                } else {
                                    self.spec_walk_mut_outcome_from::<Walker, Mapper, Error>(
                                        written,
                                        phys,
                                        index,
                                        self.spec_sign_extend(piece_end),
                                        end,
                                        filled_state,
                                    )
                                }
                            },
                        }
                    }
                },
            }
        }
    }

    /// The result of a read-only walk over `range` below the table at `phys`, where the walk's
    /// course decides it (see [`PageFormat::spec_walk_outcome_from`]).
    pub open spec fn spec_walk_outcome<Walker, Mapper, Error>(
        &self,
        mapper: Mapper,
        phys: u64,
        index: usize,
        range: Range<u64>,
        state: Walker::State,
    ) -> Option<Result<(), Error>>
        where
            Walker: PageWalker<Mapper, Error>,
            Mapper: PageTableMapper<Error>,
    {
        let index = if index >= self.levels@.len() {
            (self.levels@.len() - 1) as usize
        } else {
            index
        };
        self.spec_walk_outcome_from::<Walker, Mapper, Error>(
            mapper,
            phys,
            index,
            self.spec_sign_extend(range.start),
            range.end,
            state,
        )
    }

    /// The result of a walk that may rewrite entries over `range` below the table at `phys`,
    /// where the walk's course decides it (see [`PageFormat::spec_walk_mut_outcome_from`]).
    pub open spec fn spec_walk_mut_outcome<Walker, Mapper, Error>(
        &self,
        mapper: Mapper,
        phys: u64,
        index: usize,
        range: Range<u64>,
        state: Walker::State,
    ) -> Option<Result<(), Error>>
        where
            Walker: PageWalkerMut<Mapper, Error>,
            Mapper: PageTableMapper<Error>,
    {
        let index = if index >= self.levels@.len() {
            (self.levels@.len() - 1) as usize
        } else {
            index
        };
        self.spec_walk_mut_outcome_from::<Walker, Mapper, Error>(
            mapper,
            phys,
            index,
            self.spec_sign_extend(range.start),
            range.end,
            state,
        )
    }

    /// The end of the piece of `[cursor, end)` that lies in the page of `level` holding
    /// `cursor`: the first address of the next page, or `end` where that comes first.
    fn piece_end(level: &PageLevel, cursor: u64, end: u64) -> (r: u64)
        requires
            level.shift_bits < 64,
            cursor < end,
        ensures
            cursor < r,
            r <= end,
            r - 1 <= level.spec_end(cursor),
            r == spec_piece_end(*level, cursor, end),
    {
        let last = level.end(cursor);
        if last < end - 1 {
            last + 1
        } else {
            end
        }
    }

    /// The byte offset of entry `index` within a page table.
    pub(crate) fn entry_offset(&self, level: &PageLevel, index: u64) -> (r: u64)
        requires
            self.wf(),
            self.table_fits(*level),
            index < level.spec_entries(),
        ensures
            r == index * self.pte_size,
    {
        let size = self.pte_size as u64;
        let ghost entries = level.spec_entries();
        assert(index * size < 0x1_0000_0000_0000_0000) by (nonlinear_arith)
            requires
                index < entries,
                1 <= size,
                entries * size <= 0x1_0000_0000_0000_0000,
        ;
        index * size
    }

    /// Walks the page table at `phys_addr`, of level `level_index` (the root where
    /// `level_index` is too large), over the addresses of `range`.
    fn do_walk<Walker, Mapper, Error>(
        &self,
        phys_addr: u64,
        level_index: usize,
        range: Range<u64>,
        walker: &mut Walker,
        mapper: &Mapper,
    ) -> (r: Result<(), Error>)
        where
            Walker: PageWalker<Mapper, Error>,
            Mapper: PageTableMapper<Error>,
        requires
            self.wf(),
        ensures
            r is Ok ==> final(walker).state() == self.spec_walk::<Walker, Mapper, Error>(
                *mapper,
                phys_addr,
                level_index,
                range,
                old(walker).state(),
            ),
            self.spec_sign_extend(range.start) >= range.end ==> r is Ok,
            <Mapper as PageTableMapper<Error>>::infallible() && self.spec_walk_ok::<
                Walker,
                Mapper,
                Error,
            >(*mapper, phys_addr, level_index, range, old(walker).state()) ==> r is Ok,
            self.spec_walk_outcome::<Walker, Mapper, Error>(
                *mapper,
                phys_addr,
                level_index,
                range,
                old(walker).state(),
            ) is Some ==> r == self.spec_walk_outcome::<Walker, Mapper, Error>(
                *mapper,
                phys_addr,
                level_index,
                range,
                old(walker).state(),
            )->Some_0,
        decreases level_index,
    {
        let ghost ok_target = <Mapper as PageTableMapper<Error>>::infallible()
            && self.spec_walk_ok::<Walker, Mapper, Error>(
            *mapper,
            phys_addr,
            level_index,
            range,
            walker.state(),
        );
        let ghost outcome_target = self.spec_walk_outcome::<Walker, Mapper, Error>(
            *mapper,
            phys_addr,
            level_index,
            range,
            walker.state(),
        );
        let ghost target = self.spec_walk::<Walker, Mapper, Error>(
            *mapper,
            phys_addr,
            level_index,
            range,
            walker.state(),
        );
        let index = if level_index >= self.levels.len() {
            self.levels.len() - 1
        } else {
            level_index
        };
        let level = &self.levels[index];
        assert(1 <= level.va_bits < 64 && level.shifts_fit() && self.table_fits(*level));
        let mut cursor = self.sign_extend(range.start);
        while cursor < range.end
            invariant
                self.wf(),
                index < self.levels@.len(),
                index <= level_index,
                cursor < range.end ==> self.spec_sign_extend(range.start) < range.end,
                ok_target == (<Mapper as PageTableMapper<Error>>::infallible()
                    && self.spec_walk_ok::<Walker, Mapper, Error>(
                    *mapper,
                    phys_addr,
                    level_index,
                    range,
                    old(walker).state(),
                )),
                outcome_target == self.spec_walk_outcome::<Walker, Mapper, Error>(
                    *mapper,
                    phys_addr,
                    level_index,
                    range,
                    old(walker).state(),
                ),
                *level == self.levels@[index as int],
                1 <= level.va_bits < 64 && level.shifts_fit() && self.table_fits(*level),
                self.spec_walk_from::<Walker, Mapper, Error>(
                    *mapper,
                    phys_addr,
                    index,
                    cursor,
                    range.end,
                    walker.state(),
                ) == target,
                ok_target ==> <Mapper as PageTableMapper<Error>>::infallible()
                    && self.spec_walk_ok_from::<Walker, Mapper, Error>(
                    *mapper,
                    phys_addr,
                    index,
                    cursor,
                    range.end,
                    walker.state(),
                ),
                outcome_target is Some ==> self.spec_walk_outcome_from::<Walker, Mapper, Error>(
                    *mapper,
                    phys_addr,
                    index,
                    cursor,
                    range.end,
                    walker.state(),
                ) == outcome_target,
            decreases if cursor < range.end {
                range.end - cursor
            } else {
                0
            },
        {
            let piece_end = Self::piece_end(level, cursor, range.end);
            let entry = self.entry_offset(level, level.pte_index(cursor));
            let pte_addr = phys_addr.wrapping_add(entry);
            let pte = match mapper.read_pte(pte_addr) {
                Ok(pte) => pte,
                Err(e) => return Err(e),
            };
            let is_page = index == 0 || level.is_huge_page(pte);
            let pte_type = if is_page {
                PteType::Page(index)
            } else {
                PteType::PageTable(index)
            };
            let res = walker.handle_pte(mapper, self, pte_type, cursor..piece_end, &pte);
            if let Err(e) = res {
                return Err(e);
            }
            let present = level.is_present(pte);
            if !present {
                let res = walker.handle_pte_hole(mapper, self, index, cursor..piece_end, &pte);
                if let Err(e) = res {
                    return Err(e);
                }
            }
            if !is_page && present {
                let res = self.do_walk(pte & self.physical_mask, index - 1, cursor..piece_end, walker, mapper);
                if let Err(e) = res {
                    return Err(e);
                }
                let res = walker.handle_post_pte(mapper, self, index, cursor..piece_end, &pte);
                if let Err(e) = res {
                    return Err(e);
                }
            }
            cursor = if piece_end == range.end {
                range.end
            } else {
                self.sign_extend(piece_end)
            };
        }
        Ok(())
    }

    /// Walks the hierarchy whose root page table is at `phys_addr` over the virtual addresses
    /// of `range`, in ascending order and depth first, calling back `walker` for every entry
    /// whose pages meet the range. The walk descends only into present page tables. An empty
    /// range succeeds at once. Through a mapper that never fails the walk succeeds when every
    /// callback it makes succeeds. The first read or callback that fails ends the walk, and its
    /// error comes back unchanged ([`PageFormat::spec_walk_outcome`]).
    pub fn walk<Walker, Mapper, Error>(
        &self,
        phys_addr: u64,
        range: Range<u64>,
        walker: &mut Walker,
        mapper: &Mapper,
    ) -> (r: Result<(), Error>)
        where
            Walker: PageWalker<Mapper, Error>,
            Mapper: PageTableMapper<Error>,
        requires
            self.wf(),
        ensures
            r is Ok ==> final(walker).state() == self.spec_walk::<Walker, Mapper, Error>(
                *mapper,
                phys_addr,
                (self.levels@.len() - 1) as usize,
                range,
                old(walker).state(),
            ),
            self.spec_sign_extend(range.start) >= range.end ==> r is Ok,
            <Mapper as PageTableMapper<Error>>::infallible() && self.spec_walk_ok::<
                Walker,
                Mapper,
                Error,
            >(*mapper, phys_addr, (self.levels@.len() - 1) as usize, range, old(walker).state())
                ==> r is Ok,
            self.spec_walk_outcome::<Walker, Mapper, Error>(
                *mapper,
                phys_addr,
                (self.levels@.len() - 1) as usize,
                range,
                old(walker).state(),
            ) is Some ==> r == self.spec_walk_outcome::<Walker, Mapper, Error>(
                *mapper,
                phys_addr,
                (self.levels@.len() - 1) as usize,
                range,
                old(walker).state(),
            )->Some_0,
    {
        self.do_walk(phys_addr, self.levels.len() - 1, range, walker, mapper)
    }

    /// Walks the page table at `phys_addr`, of level `level_index` (the root where
    /// `level_index` is too large), over the addresses of `range`, writing each entry back after its callbacks.
    fn do_walk_mut<Walker, Mapper, Error>(
        &self,
        phys_addr: u64,
        level_index: usize,
        range: Range<u64>,
        walker: &mut Walker,
        mapper: &mut Mapper,
    ) -> (r: Result<(), Error>)
        where
            Walker: PageWalkerMut<Mapper, Error>,
            Mapper: PageTableMapper<Error>,
        requires
            self.wf(),
        ensures
            r is Ok ==> (final(walker).state(), *final(mapper)) == self.spec_walk_mut::<
                Walker,
                Mapper,
                Error,
            >(*old(mapper), phys_addr, level_index, range, old(walker).state()),
            self.spec_sign_extend(range.start) >= range.end ==> r is Ok,
            <Mapper as PageTableMapper<Error>>::infallible() && self.spec_walk_mut_ok::<
                Walker,
                Mapper,
                Error,
            >(*old(mapper), phys_addr, level_index, range, old(walker).state()) ==> r is Ok,
            self.spec_walk_mut_outcome::<Walker, Mapper, Error>(
                *old(mapper),
                phys_addr,
                level_index,
                range,
                old(walker).state(),
            ) is Some ==> r == self.spec_walk_mut_outcome::<Walker, Mapper, Error>(
                *old(mapper),
                phys_addr,
                level_index,
                range,
                old(walker).state(),
            )->Some_0,
        decreases level_index,
    {
        let ghost ok_target = <Mapper as PageTableMapper<Error>>::infallible()
            && self.spec_walk_mut_ok::<Walker, Mapper, Error>(
            *mapper,
            phys_addr,
            level_index,
            range,
            walker.state(),
        );
        let ghost outcome_target = self.spec_walk_mut_outcome::<Walker, Mapper, Error>(
            *mapper,
            phys_addr,
            level_index,
            range,
            walker.state(),
        );
        let ghost target = self.spec_walk_mut::<Walker, Mapper, Error>(
            *mapper,
            phys_addr,
            level_index,
            range,
            walker.state(),
        );
        let index = if level_index >= self.levels.len() {
            self.levels.len() - 1
        } else {
            level_index
        };
        let level = &self.levels[index];
        assert(1 <= level.va_bits < 64 && level.shifts_fit() && self.table_fits(*level));
        let mut cursor = self.sign_extend(range.start);
        while cursor < range.end
            invariant
                self.wf(),
                index < self.levels@.len(),
                index <= level_index,
                cursor < range.end ==> self.spec_sign_extend(range.start) < range.end,
                ok_target == (<Mapper as PageTableMapper<Error>>::infallible()
                    && self.spec_walk_mut_ok::<Walker, Mapper, Error>(
                    *old(mapper),
                    phys_addr,
                    level_index,
                    range,
                    old(walker).state(),
                )),
                outcome_target == self.spec_walk_mut_outcome::<Walker, Mapper, Error>(
                    *old(mapper),
                    phys_addr,
                    level_index,
                    range,
                    old(walker).state(),
                ),
                ok_target ==> <Mapper as PageTableMapper<Error>>::infallible()
                    && self.spec_walk_mut_ok_from::<Walker, Mapper, Error>(
                    *mapper,
                    phys_addr,
                    index,
                    cursor,
                    range.end,
                    walker.state(),
                ),
                outcome_target is Some ==> self.spec_walk_mut_outcome_from::<Walker, Mapper, Error>(
                    *mapper,
                    phys_addr,
                    index,
                    cursor,
                    range.end,
                    walker.state(),
                ) == outcome_target,
                *level == self.levels@[index as int],
                1 <= level.va_bits < 64 && level.shifts_fit() && self.table_fits(*level),
                self.spec_walk_mut_from::<Walker, Mapper, Error>(
                    *mapper,
                    phys_addr,
                    index,
                    cursor,
                    range.end,
                    walker.state(),
                ) == target,
            decreases if cursor < range.end {
                range.end - cursor
            } else {
                0
            },
        {
            let piece_end = Self::piece_end(level, cursor, range.end);
            let entry = self.entry_offset(level, level.pte_index(cursor));
            let pte_addr = phys_addr.wrapping_add(entry);
            let mut pte = match mapper.read_pte(pte_addr) {
                Ok(pte) => pte,
                Err(e) => return Err(e),
            };
            let pte_type = if index == 0 || level.is_huge_page(pte) {
                PteType::Page(index)
            } else {
                PteType::PageTable(index)
            };
            let res = walker.handle_pte(mapper, self, pte_type, cursor..piece_end, &mut pte);
            if let Err(e) = res {
                return Err(e);
            }
            if !level.is_present(pte) {
                let res = walker.handle_pte_hole(mapper, self, index, cursor..piece_end, &mut pte);
                if let Err(e) = res {
                    return Err(e);
                }
            }
            let res = mapper.write_pte(pte_addr, pte);
            if let Err(e) = res {
                return Err(e);
            }
            if index != 0 && !level.is_huge_page(pte) && level.is_present(pte) {
                let res = self.do_walk_mut(pte & self.physical_mask, index - 1, cursor..piece_end, walker, mapper);
                if let Err(e) = res {
                    return Err(e);
                }
                let res = walker.handle_post_pte(mapper, self, index, cursor..piece_end, &mut pte);
                if let Err(e) = res {
                    return Err(e);
                }
                let res = mapper.write_pte(pte_addr, pte);
                if let Err(e) = res {
                    return Err(e);
                }
            }
            cursor = if piece_end == range.end {
                range.end
            } else {
                self.sign_extend(piece_end)
            };
        }
        Ok(())
    }

    /// Walks the hierarchy like [`PageFormat::walk`], with callbacks that may rewrite entries.
    /// Each entry is written back after `handle_pte` and `handle_pte_hole`, before the walk
    /// descends through it, and again after `handle_post_pte`, so that a callback may allocate a
    /// page table on the way down and tear it down on the way up. It succeeds and fails as
    /// [`PageFormat::walk`] does, writes included; what was written before a failure stays
    /// ([`PageFormat::spec_walk_mut_outcome`]).
    pub fn walk_mut<Walker, Mapper, Error>(
        &self,
        phys_addr: u64,
        range: Range<u64>,
        walker: &mut Walker,
        mapper: &mut Mapper,
    ) -> (r: Result<(), Error>)
        where
            Walker: PageWalkerMut<Mapper, Error>,
            Mapper: PageTableMapper<Error>,
        requires
            self.wf(),
        ensures
            r is Ok ==> (final(walker).state(), *final(mapper)) == self.spec_walk_mut::<
                Walker,
                Mapper,
                Error,
            >(*old(mapper), phys_addr, (self.levels@.len() - 1) as usize, range, old(walker).state()),
            self.spec_sign_extend(range.start) >= range.end ==> r is Ok,
            <Mapper as PageTableMapper<Error>>::infallible() && self.spec_walk_mut_ok::<
                Walker,
                Mapper,
                Error,
            >(*old(mapper), phys_addr, (self.levels@.len() - 1) as usize, range, old(walker).state())
                ==> r is Ok,
            self.spec_walk_mut_outcome::<Walker, Mapper, Error>(
                *old(mapper),
                phys_addr,
                (self.levels@.len() - 1) as usize,
                range,
                old(walker).state(),
            ) is Some ==> r == self.spec_walk_mut_outcome::<Walker, Mapper, Error>(
                *old(mapper),
                phys_addr,
                (self.levels@.len() - 1) as usize,
                range,
                old(walker).state(),
            )->Some_0,
    {
        self.do_walk_mut(phys_addr, self.levels.len() - 1, range, walker, mapper)
    }
}

/// A read-only walk whose callbacks succeed on every argument succeeds through a mapper that
/// never fails.
pub proof fn lemma_walk_ok_when_callbacks_succeed<Walker, Mapper, Error>(
    format: PageFormat,
    mapper: Mapper,
    phys: u64,
    index: usize,
    cursor: u64,
    end: u64,
    state: Walker::State,
)
    where
        Walker: PageWalker<Mapper, Error>,
        Mapper: PageTableMapper<Error>,
    requires
        forall|st: Walker::State, m: Mapper, f: PageFormat, t: PteType, r: Range<u64>, p: u64|
            #[trigger] Walker::pte_ok(st, m, f, t, r, p),
        forall|st: Walker::State, m: Mapper, f: PageFormat, l: usize, r: Range<u64>, p: u64|
            #[trigger] Walker::hole_ok(st, m, f, l, r, p),
        forall|st: Walker::State, m: Mapper, f: PageFormat, l: usize, r: Range<u64>, p: u64|
            #[trigger] Walker::post_ok(st, m, f, l, r, p),
    ensures
        format.spec_walk_ok_from::<Walker, Mapper, Error>(mapper, phys, index, cursor, end, state),
    decreases index, if cursor < end {
        end - cursor
    } else {
        0
    },
{
    if cursor < end && index < format.levels@.len() {
        let level = format.levels@[index as int];
        let piece_end = spec_piece_end(level, cursor, end);
        lemma_piece_advances(format, index, cursor, end);
        let piece = cursor..piece_end;
        let pte = mapper.spec_pte(format.spec_pte_address(phys, level, cursor));
        let pte_type = format.spec_classify(index, pte);
        let seen = Walker::after_pte(state, mapper, format, pte_type, piece, pte);
        let filled = if !level.spec_is_present(pte) {
            Walker::after_hole(seen, mapper, format, index, piece, pte)
        } else {
            seen
        };
        let descends = pte_type is PageTable && level.spec_is_present(pte);
        let child = pte & format.physical_mask;
        let done = if descends {
            lemma_walk_ok_when_callbacks_succeed::<Walker, Mapper, Error>(
                format,
                mapper,
                child,
                (index - 1) as usize,
                format.spec_sign_extend(cursor),
                piece_end,
                filled,
            );
            let below = format.spec_walk_from::<Walker, Mapper, Error>(
                mapper,
                child,
                (index - 1) as usize,
                format.spec_sign_extend(cursor),
                piece_end,
                filled,
            );
            assert(Walker::post_ok(below, mapper, format, index, piece, pte));
            Walker::after_post(below, mapper, format, index, piece, pte)
        } else {
            filled
        };
        assert(Walker::pte_ok(state, mapper, format, pte_type, piece, pte));
        assert(Walker::hole_ok(seen, mapper, format, index, piece, pte));
        if piece_end != end {
            lemma_walk_ok_when_callbacks_succeed::<Walker, Mapper, Error>(
                format,
                mapper,
                phys,
                index,
                format.spec_sign_extend(piece_end),
                end,
                done,
            );
        }
    }
}

/// A walk that may rewrite entries, whose callbacks succeed on every argument, succeeds through
/// a mapper that never fails.
pub proof fn lemma_walk_mut_ok_when_callbacks_succeed<Walker, Mapper, Error>(
    format: PageFormat,
    mapper: Mapper,
    phys: u64,
    index: usize,
    cursor: u64,
    end: u64,
    state: Walker::State,
)
    where
        Walker: PageWalkerMut<Mapper, Error>,
        Mapper: PageTableMapper<Error>,
    requires
        forall|st: Walker::State, m: Mapper, f: PageFormat, t: PteType, r: Range<u64>, p: u64|
            #[trigger] Walker::pte_ok(st, m, f, t, r, p),
        forall|st: Walker::State, m: Mapper, f: PageFormat, l: usize, r: Range<u64>, p: u64|
            #[trigger] Walker::hole_ok(st, m, f, l, r, p),
        forall|st: Walker::State, m: Mapper, f: PageFormat, l: usize, r: Range<u64>, p: u64|
            #[trigger] Walker::post_ok(st, m, f, l, r, p),
    ensures
        format.spec_walk_mut_ok_from::<Walker, Mapper, Error>(mapper, phys, index, cursor, end, state),
    decreases index, if cursor < end {
        end - cursor
    } else {
        0
    },
{
    if cursor < end && index < format.levels@.len() {
        let level = format.levels@[index as int];
        let piece_end = spec_piece_end(level, cursor, end);
        lemma_piece_advances(format, index, cursor, end);
        let piece = cursor..piece_end;
        let pte_addr = format.spec_pte_address(phys, level, cursor);
        let pte = mapper.spec_pte(pte_addr);
        let (seen_state, seen_mapper, seen_pte) = Walker::after_pte(
            state,
            mapper,
            format,
            format.spec_classify(index, pte),
            piece,
            pte,
        );
        assert(Walker::pte_ok(state, mapper, format, format.spec_classify(index, pte), piece, pte));
        assert(Walker::hole_ok(seen_state, seen_mapper, format, index, piece, seen_pte));
        let (filled_state, filled_mapper, filled_pte) = if !level.spec_is_present(seen_pte) {
            Walker::after_hole(seen_state, seen_mapper, format, index, piece, seen_pte)
        } else {
            (seen_state, seen_mapper, seen_pte)
        };
        let written = filled_mapper.spec_write(pte_addr, filled_pte);
        let descends = index != 0 && !level.spec_is_huge_page(filled_pte) && level.spec_is_present(
            filled_pte,
        );
        let (below_state, below_mapper) = format.spec_walk_mut_from::<Walker, Mapper, Error>(
            written,
            filled_pte & format.physical_mask,
            (index - 1) as usize,
            format.spec_sign_extend(cursor),
            piece_end,
            filled_state,
        );
        assert(Walker::post_ok(below_state, below_mapper, format, index, piece, filled_pte));
        let (post_state, post_mapper, post_pte) = Walker::after_post(
            below_state,
            below_mapper,
            format,
            index,
            piece,
            filled_pte,
        );
        if descends {
            lemma_walk_mut_ok_when_callbacks_succeed::<Walker, Mapper, Error>(
                format,
                written,
                filled_pte & format.physical_mask,
                (index - 1) as usize,
                format.spec_sign_extend(cursor),
                piece_end,
                filled_state,
            );
        }
        let (next_state, next_mapper) = if descends {
            (post_state, post_mapper.spec_write(pte_addr, post_pte))
        } else {
            (filled_state, written)
        };
        if piece_end != end {
            lemma_walk_mut_ok_when_callbacks_succeed::<Walker, Mapper, Error>(
                format,
                next_mapper,
                phys,
                index,
                format.spec_sign_extend(piece_end),
                end,
                next_state,
            );
        }
    }
}

/// A read-only walk whose callbacks each either succeed or reject their arguments has a result
/// that the walk's course decides.
pub proof fn lemma_walk_outcome_known<Walker, Mapper, Error>(
    format: PageFormat,
    mapper: Mapper,
    phys: u64,
    index: usize,
    cursor: u64,
    end: u64,
    state: Walker::State,
)
    where
        Walker: PageWalker<Mapper, Error>,
        Mapper: PageTableMapper<Error>,
    requires
        forall|st: Walker::State, m: Mapper, f: PageFormat, t: PteType, r: Range<u64>, p: u64|
            #[trigger] Walker::pte_ok(st, m, f, t, r, p) || Walker::pte_rejects(st, m, f, t, r, p),
        forall|st: Walker::State, m: Mapper, f: PageFormat, l: usize, r: Range<u64>, p: u64|
            #[trigger] Walker::hole_ok(st, m, f, l, r, p) || Walker::hole_rejects(st, m, f, l, r, p),
        forall|st: Walker::State, m: Mapper, f: PageFormat, l: usize, r: Range<u64>, p: u64|
            #[trigger] Walker::post_ok(st, m, f, l, r, p) || Walker::post_rejects(st, m, f, l, r, p),
    ensures
        format.spec_walk_outcome_from::<Walker, Mapper, Error>(mapper, phys, index, cursor, end, state)
            is Some,
    decreases index, if cursor < end {
        end - cursor
    } else {
        0
    },
{
    if cursor < end && index < format.levels@.len() {
        lemma_piece_advances(format, index, cursor, end);
        let level = format.levels@[index as int];
        let piece_end = spec_piece_end(level, cursor, end);
        let piece = cursor..piece_end;
        let pte = mapper.spec_pte(format.spec_pte_address(phys, level, cursor));
        let pte_type = format.spec_classify(index, pte);
        let seen = Walker::after_pte(state, mapper, format, pte_type, piece, pte);
        let filled = if !level.spec_is_present(pte) {
            Walker::after_hole(seen, mapper, format, index, piece, pte)
        } else {
            seen
        };
        assert(Walker::pte_ok(state, mapper, format, pte_type, piece, pte) || Walker::pte_rejects(
            state,
            mapper,
            format,
            pte_type,
            piece,
            pte,
        ));
        assert(Walker::hole_ok(seen, mapper, format, index, piece, pte) || Walker::hole_rejects(
            seen,
            mapper,
            format,
            index,
            piece,
            pte,
        ));
        let child = pte & format.physical_mask;
        let done = if pte_type is PageTable && level.spec_is_present(pte) {
            lemma_walk_outcome_known::<Walker, Mapper, Error>(
                format,
                mapper,
                child,
                (index - 1) as usize,
                format.spec_sign_extend(cursor),
                piece_end,
                filled,
            );
            let below = format.spec_walk_from::<Walker, Mapper, Error>(
                mapper,
                child,
                (index - 1) as usize,
                format.spec_sign_extend(cursor),
                piece_end,
                filled,
            );
            assert(Walker::post_ok(below, mapper, format, index, piece, pte) || Walker::post_rejects(
                below,
                mapper,
                format,
                index,
                piece,
                pte,
            ));
            Walker::after_post(below, mapper, format, index, piece, pte)
        } else {
            filled
        };
        if piece_end != end {
            lemma_walk_outcome_known::<Walker, Mapper, Error>(
                format,
                mapper,
                phys,
                index,
                format.spec_sign_extend(piece_end),
                end,
                done,
            );
        }
    }
}

/// A walk that may rewrite entries, whose callbacks each either succeed or reject their
/// arguments, has a result that the walk's course decides.
pub proof fn lemma_walk_mut_outcome_known<Walker, Mapper, Error>(
    format: PageFormat,
    mapper: Mapper,
    phys: u64,
    index: usize,
    cursor: u64,
    end: u64,
    state: Walker::State,
)
    where
        Walker: PageWalkerMut<Mapper, Error>,
        Mapper: PageTableMapper<Error>,
    requires
        forall|st: Walker::State, m: Mapper, f: PageFormat, t: PteType, r: Range<u64>, p: u64|
            #[trigger] Walker::pte_ok(st, m, f, t, r, p) || Walker::pte_rejects(st, m, f, t, r, p),
        forall|st: Walker::State, m: Mapper, f: PageFormat, l: usize, r: Range<u64>, p: u64|
            #[trigger] Walker::hole_ok(st, m, f, l, r, p) || Walker::hole_rejects(st, m, f, l, r, p),
        forall|st: Walker::State, m: Mapper, f: PageFormat, l: usize, r: Range<u64>, p: u64|
            #[trigger] Walker::post_ok(st, m, f, l, r, p) || Walker::post_rejects(st, m, f, l, r, p),
    ensures
        format.spec_walk_mut_outcome_from::<Walker, Mapper, Error>(
            mapper,
            phys,
            index,
            cursor,
            end,
            state,
        ) is Some,
    decreases index, if cursor < end {
        end - cursor
    } else {
        0
    },
{
    if cursor < end && index < format.levels@.len() {
        lemma_piece_advances(format, index, cursor, end);
        let level = format.levels@[index as int];
        let piece_end = spec_piece_end(level, cursor, end);
        let piece = cursor..piece_end;
        let pte_addr = format.spec_pte_address(phys, level, cursor);
        let pte = mapper.spec_pte(pte_addr);
        let pte_type = format.spec_classify(index, pte);
        assert(Walker::pte_ok(state, mapper, format, pte_type, piece, pte) || Walker::pte_rejects(
            state,
            mapper,
            format,
            pte_type,
            piece,
            pte,
        ));
        let (seen_state, seen_mapper, seen_pte) = Walker::after_pte(
            state,
            mapper,
            format,
            pte_type,
            piece,
            pte,
        );
        assert(Walker::hole_ok(seen_state, seen_mapper, format, index, piece, seen_pte)
            || Walker::hole_rejects(seen_state, seen_mapper, format, index, piece, seen_pte));
        let (filled_state, filled_mapper, filled_pte) = if !level.spec_is_present(seen_pte) {
            Walker::after_hole(seen_state, seen_mapper, format, index, piece, seen_pte)
        } else {
            (seen_state, seen_mapper, seen_pte)
        };
        let written = filled_mapper.spec_write(pte_addr, filled_pte);
        let child = filled_pte & format.physical_mask;
        let (below_state, below_mapper) = format.spec_walk_mut_from::<Walker, Mapper, Error>(
            written,
            child,
            (index - 1) as usize,
            format.spec_sign_extend(cursor),
            piece_end,
            filled_state,
        );
        assert(Walker::post_ok(below_state, below_mapper, format, index, piece, filled_pte)
            || Walker::post_rejects(below_state, below_mapper, format, index, piece, filled_pte));
        let (post_state, post_mapper, post_pte) = Walker::after_post(
            below_state,
            below_mapper,
            format,
            index,
            piece,
            filled_pte,
        );
        let descends = index != 0 && !level.spec_is_huge_page(filled_pte) && level.spec_is_present(
            filled_pte,
        );
        if descends {
            lemma_walk_mut_outcome_known::<Walker, Mapper, Error>(
                format,
                written,
                child,
                (index - 1) as usize,
                format.spec_sign_extend(cursor),
                piece_end,
                filled_state,
            );
        }
        if piece_end != end {
            if descends {
                lemma_walk_mut_outcome_known::<Walker, Mapper, Error>(
                    format,
                    post_mapper.spec_write(pte_addr, post_pte),
                    phys,
                    index,
                    format.spec_sign_extend(piece_end),
                    end,
                    post_state,
                );
            } else {
                lemma_walk_mut_outcome_known::<Walker, Mapper, Error>(
                    format,
                    written,
                    phys,
                    index,
                    format.spec_sign_extend(piece_end),
                    end,
                    filled_state,
                );
            }
        }
    }
}

/// A walk that meets, above the leaf level, a present entry with the huge-page pattern over a
/// range within that entry's page treats it as a page: the walker sees that one entry, and
/// nothing of the table below it.
pub proof fn lemma_huge_page_ends_walk<Walker, Mapper, Error>(
    format: PageFormat,
    mapper: Mapper,
    phys: u64,
    index: usize,
    cursor: u64,
    end: u64,
    state: Walker::State,
)
    where
        Walker: PageWalker<Mapper, Error>,
        Mapper: PageTableMapper<Error>,
    requires
        format.wf(),
        0 < index < format.levels@.len(),
        format.levels@[index as int].huge_page_bit.0 != 0,
        cursor < end,
        end - 1 <= format.levels@[index as int].spec_end(cursor),
        ({
            let level = format.levels@[index as int];
            let pte = mapper.spec_pte(format.spec_pte_address(phys, level, cursor));
            &&& pte & level.present_bit.0 == level.present_bit.1
            &&& pte & level.huge_page_bit.0 == level.huge_page_bit.1
        }),
    ensures
        ({
            let level = format.levels@[index as int];
            let pte = mapper.spec_pte(format.spec_pte_address(phys, level, cursor));
            format.spec_walk_from::<Walker, Mapper, Error>(mapper, phys, index, cursor, end, state)
                == Walker::after_pte(state, mapper, format, PteType::Page(index), cursor..end, pte)
        }),
{
    let level = format.levels@[index as int];
    let pte = mapper.spec_pte(format.spec_pte_address(phys, level, cursor));
    crate::level::lemma_present_huge_is_page(level, pte);
    assert(spec_piece_end(level, cursor, end) == end);
}

/// The next piece of a walk starts after the current one: the end of the current piece lies
/// beyond the cursor, and its sign extension does not lie before it.
pub proof fn lemma_piece_advances(format: PageFormat, index: usize, cursor: u64, end: u64)
    requires
        cursor < end,
        index < format.levels@.len(),
    ensures
        spec_piece_end(format.levels@[index as int], cursor, end) > cursor,
        format.spec_sign_extend(spec_piece_end(format.levels@[index as int], cursor, end))
            >= spec_piece_end(format.levels@[index as int], cursor, end),
{
    let level = format.levels@[index as int];
    lemma_sign_extend_grows(format, spec_piece_end(level, cursor, end));
    let s = level.shift_bits;
    assert(cursor | (((1u64 << s) - 1) as u64) >= cursor) by (bit_vector);
}

/// Sign extension only sets bits, so it never makes an address smaller.
pub proof fn lemma_sign_extend_grows(format: PageFormat, a: u64)
    ensures
        format.spec_sign_extend(a) >= a,
{
    let vm = format.spec_virtual_mask();
    assert(!vm | a >= a) by (bit_vector);
}

/// Sign extension is idempotent, and where the sign bit is set it sets every bit above the
/// virtual address mask.
pub proof fn lemma_sign_extend_idempotent(format: PageFormat, a: u64)
    ensures
        format.spec_sign_extend(format.spec_sign_extend(a)) == format.spec_sign_extend(a),
        a & sign_bit_of(format.spec_virtual_mask()) == sign_bit_of(format.spec_virtual_mask())
            ==> format.spec_sign_extend(a) & !format.spec_virtual_mask() == !format.spec_virtual_mask(),
{
    let vm = format.spec_virtual_mask();
    let below_state = sign_bit_of(vm);
    assert(a & below_state == below_state ==> ((!vm | a) & below_state == below_state && (!vm | (!vm | a)) == (!vm | a) && (!vm | a) & !vm
        == !vm)) by (bit_vector);
}

} // verus!
