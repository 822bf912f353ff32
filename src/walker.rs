//! The kind of a page table entry met during a walk, and the callback traits that a walk drives.
use vstd::prelude::*;
use core::ops::Range;
use crate::address_space::PageTableMapper;
use crate::format::PageFormat;

verus! {

/// The PTE can either be a page or page table.
#[derive(Clone, Copy, Debug, PartialEq, Eq, Structural)]
pub enum PteType {
    /// The PTE refers to a physical page; a level above zero means a huge page.
    Page(usize),
    /// The PTE refers to another page table.
    PageTable(usize),
}

impl PteType {
    /// The level at which the PTE was found, whatever its kind.
    pub open spec fn spec_level(self) -> usize {
        match self {
            PteType::Page(level) => level,
            PteType::PageTable(level) => level,
        }
    }

    /// Returns `true` if the [`PteType`] is a page and `false` otherwise.
    pub fn is_page(&self) -> (r: bool)
        ensures
            r == (*self is Page),
    {
        match self {
            PteType::Page(_) => true,
            _ => false,
        }
    }

    /// Returns `true` if the [`PteType`] is a page table and `false` otherwise.
    pub fn is_page_table(&self) -> (r: bool)
        ensures
            r == (*self is PageTable),
    {
        match self {
            PteType::PageTable(_) => true,
            _ => false,
        }
    }

    /// The level at which the PTE is found: zero for the leaf page table, growing towards the
    /// root.
    pub fn level(&self) -> (r: usize)
        ensures
            r == self.spec_level(),
    {
        match self {
            PteType::Page(level) => *level,
            PteType::PageTable(level) => *level,
        }
    }

    /// Returns `true` when the PTE maps a page above the leaf level.
    pub fn is_huge_page(&self) -> (r: bool)
        ensures
            r == (*self is Page && self.spec_level() != 0),
    {
        match self {
            PteType::Page(level) => *level != 0,
            _ => false,
        }
    }
}

/// The callbacks of a read-only walk ([`PageFormat::walk`]). A walk calls them only on
/// arguments that their `requires` clauses describe: a non-empty range within one page of a
/// level of a well-formed format, and a PTE classified as the format says. What a successful
/// callback does to the walker's state is a spec function of the state and the callback's
/// arguments, so that the state after a whole walk is known ([`PageFormat::spec_walk`]). Spec
/// predicates say on which arguments a callback succeeds and on which it rejects them, and with
/// which error; their defaults promise nothing, and the walk's own result is stated over them
/// ([`PageFormat::spec_walk_ok`], [`PageFormat::spec_walk_outcome`]).
pub trait PageWalker<Mapper: PageTableMapper<Error>, Error>: Sized {
    /// What a walk computes.
    type State;

    /// The state of this walker.
    open spec fn state(&self) -> Self::State {
        arbitrary()
    }

    /// The state after `handle_pte` succeeded on these arguments.
    open spec fn after_pte(
        state: Self::State,
        mapper: Mapper,
        format: PageFormat,
        pte_type: PteType,
        range: Range<u64>,
        pte: u64,
    ) -> Self::State {
        state
    }

    /// The state after `handle_pte_hole` succeeded on these arguments.
    open spec fn after_hole(
        state: Self::State,
        mapper: Mapper,
        format: PageFormat,
        level: usize,
        range: Range<u64>,
        pte: u64,
    ) -> Self::State {
        state
    }

    /// The state after `handle_post_pte` succeeded on these arguments.
    open spec fn after_post(
        state: Self::State,
        mapper: Mapper,
        format: PageFormat,
        level: usize,
        range: Range<u64>,
        pte: u64,
    ) -> Self::State {
        state
    }

    /// Whether `handle_pte` succeeds on these arguments: it then returns `Ok`.
    open spec fn pte_ok(
        state: Self::State,
        mapper: Mapper,
        format: PageFormat,
        pte_type: PteType,
        range: Range<u64>,
        pte: u64,
    ) -> bool {
        false
    }

    /// The error with which `handle_pte` rejects these arguments.
    open spec fn pte_error(
        state: Self::State,
        mapper: Mapper,
        format: PageFormat,
        pte_type: PteType,
        range: Range<u64>,
        pte: u64,
    ) -> Error {
        arbitrary()
    }

    /// Whether `handle_pte` rejects these arguments: it then fails and changes nothing.
    open spec fn pte_rejects(
        state: Self::State,
        mapper: Mapper,
        format: PageFormat,
        pte_type: PteType,
        range: Range<u64>,
        pte: u64,
    ) -> bool {
        false
    }

    /// Whether `handle_pte_hole` succeeds on these arguments: it then returns `Ok`.
    open spec fn hole_ok(
        state: Self::State,
        mapper: Mapper,
        format: PageFormat,
        level: usize,
        range: Range<u64>,
        pte: u64,
    ) -> bool {
        false
    }

    /// The error with which `handle_pte_hole` rejects these arguments.
    open spec fn hole_error(
        state: Self::State,
        mapper: Mapper,
        format: PageFormat,
        level: usize,
        range: Range<u64>,
        pte: u64,
    ) -> Error {
        arbitrary()
    }

    /// Whether `handle_pte_hole` rejects these arguments: it then fails and changes nothing.
    open spec fn hole_rejects(
        state: Self::State,
        mapper: Mapper,
        format: PageFormat,
        level: usize,
        range: Range<u64>,
        pte: u64,
    ) -> bool {
        false
    }

    /// Whether `handle_post_pte` succeeds on these arguments: it then returns `Ok`.
    open spec fn post_ok(
        state: Self::State,
        mapper: Mapper,
        format: PageFormat,
        level: usize,
        range: Range<u64>,
        pte: u64,
    ) -> bool {
        false
    }

    /// The error with which `handle_post_pte` rejects these arguments.
    open spec fn post_error(
        state: Self::State,
        mapper: Mapper,
        format: PageFormat,
        level: usize,
        range: Range<u64>,
        pte: u64,
    ) -> Error {
        arbitrary()
    }

    /// Whether `handle_post_pte` rejects these arguments: it then fails and changes nothing.
    open spec fn post_rejects(
        state: Self::State,
        mapper: Mapper,
        format: PageFormat,
        level: usize,
        range: Range<u64>,
        pte: u64,
    ) -> bool {
        false
    }

    /// Handles every PTE that the walk meets.
    fn handle_pte(
        &mut self,
        mapper: &Mapper,
        format: &PageFormat,
        pte_type: PteType,
        range: Range<u64>,
        pte: &u64,
    ) -> (r: Result<(), Error>)
        requires
            format.visit_ok(pte_type.spec_level(), range),
            pte_type == format.spec_classify(pte_type.spec_level(), *pte),
        ensures
            Self::pte_ok(
                old(self).state(),
                *mapper,
                *format,
                pte_type,
                range,
                *pte,
            ) ==> r is Ok,
            Self::pte_rejects(
                old(self).state(),
                *mapper,
                *format,
                pte_type,
                range,
                *pte,
            ) ==> r == Err::<(), Error>(Self::pte_error(
                old(self).state(),
                *mapper,
                *format,
                pte_type,
                range,
                *pte,
            )) && final(self).state() == old(self).state(),
            r is Ok ==> final(self).state() == Self::after_pte(
                old(self).state(),
                *mapper,
                *format,
                pte_type,
                range,
                *pte,
            ),
    ;

    /// Handles a PTE that is not present, after `handle_pte`.
    fn handle_pte_hole(
        &mut self,
        mapper: &Mapper,
        format: &PageFormat,
        level: usize,
        range: Range<u64>,
        pte: &u64,
    ) -> (r: Result<(), Error>)
        requires
            format.visit_ok(level, range),
            !format.levels@[level as int].spec_is_present(*pte),
        ensures
            Self::hole_ok(
                old(self).state(),
                *mapper,
                *format,
                level,
                range,
                *pte,
            ) ==> r is Ok,
            Self::hole_rejects(
                old(self).state(),
                *mapper,
                *format,
                level,
                range,
                *pte,
            ) ==> r == Err::<(), Error>(Self::hole_error(
                old(self).state(),
                *mapper,
                *format,
                level,
                range,
                *pte,
            )) && final(self).state() == old(self).state(),
            r is Ok ==> final(self).state() == Self::after_hole(
                old(self).state(),
                *mapper,
                *format,
                level,
                range,
                *pte,
            ),
    ;

    /// Handles the PTE of a present page table after its subtree has been walked.
    fn handle_post_pte(
        &mut self,
        mapper: &Mapper,
        format: &PageFormat,
        level: usize,
        range: Range<u64>,
        pte: &u64,
    ) -> (r: Result<(), Error>)
        requires
            format.visit_ok(level, range),
            level > 0,
            format.levels@[level as int].spec_is_present(*pte),
            !format.levels@[level as int].spec_is_huge_page(*pte),
        ensures
            Self::post_ok(
                old(self).state(),
                *mapper,
                *format,
                level,
                range,
                *pte,
            ) ==> r is Ok,
            Self::post_rejects(
                old(self).state(),
                *mapper,
                *format,
                level,
                range,
                *pte,
            ) ==> r == Err::<(), Error>(Self::post_error(
                old(self).state(),
                *mapper,
                *format,
                level,
                range,
                *pte,
            )) && final(self).state() == old(self).state(),
            r is Ok ==> final(self).state() == Self::after_post(
                old(self).state(),
                *mapper,
                *format,
                level,
                range,
                *pte,
            ),
    ;
}

/// The callbacks of a walk that may rewrite entries ([`PageFormat::walk_mut`]), under the same
/// guarantees as those of [`PageWalker`]. The walk writes the entry back after
/// `handle_pte_hole` and again after `handle_post_pte`. What a successful callback does to the
/// walker's state, to the mapper and to the entry is a spec function of their values before and
/// of the callback's arguments, so that the outcome of a whole walk is known
/// ([`PageFormat::spec_walk_mut`]); predicates say when a callback succeeds or rejects its
/// arguments, as for [`PageWalker`].
pub trait PageWalkerMut<Mapper: PageTableMapper<Error>, Error>: Sized {
    /// What a walk computes.
    type State;

    /// The state of this walker.
    open spec fn state(&self) -> Self::State {
        arbitrary()
    }

    /// The state, the mapper and the entry after `handle_pte` succeeded on these arguments.
    open spec fn after_pte(
        state: Self::State,
        mapper: Mapper,
        format: PageFormat,
        pte_type: PteType,
        range: Range<u64>,
        pte: u64,
    ) -> (Self::State, Mapper, u64) {
        (state, mapper, pte)
    }

    /// The state, the mapper and the entry after `handle_pte_hole` succeeded on these arguments.
    open spec fn after_hole(
        state: Self::State,
        mapper: Mapper,
        format: PageFormat,
        level: usize,
        range: Range<u64>,
        pte: u64,
    ) -> (Self::State, Mapper, u64) {
        (state, mapper, pte)
    }

    /// The state, the mapper and the entry after `handle_post_pte` succeeded on these arguments.
    open spec fn after_post(
        state: Self::State,
        mapper: Mapper,
        format: PageFormat,
        level: usize,
        range: Range<u64>,
        pte: u64,
    ) -> (Self::State, Mapper, u64) {
        (state, mapper, pte)
    }

    /// Whether `handle_pte` succeeds on these arguments: it then returns `Ok`.
    open spec fn pte_ok(
        state: Self::State,
        mapper: Mapper,
        format: PageFormat,
        pte_type: PteType,
        range: Range<u64>,
        pte: u64,
    ) -> bool {
        false
    }

    /// The error with which `handle_pte` rejects these arguments.
    open spec fn pte_error(
        state: Self::State,
        mapper: Mapper,
        format: PageFormat,
        pte_type: PteType,
        range: Range<u64>,
        pte: u64,
    ) -> Error {
        arbitrary()
    }

    /// Whether `handle_pte` rejects these arguments: it then fails and changes nothing.
    open spec fn pte_rejects(
        state: Self::State,
        mapper: Mapper,
        format: PageFormat,
        pte_type: PteType,
        range: Range<u64>,
        pte: u64,
    ) -> bool {
        false
    }

    /// Whether `handle_pte_hole` succeeds on these arguments: it then returns `Ok`.
    open spec fn hole_ok(
        state: Self::State,
        mapper: Mapper,
        format: PageFormat,
        level: usize,
        range: Range<u64>,
        pte: u64,
    ) -> bool {
        false
    }

    /// The error with which `handle_pte_hole` rejects these arguments.
    open spec fn hole_error(
        state: Self::State,
        mapper: Mapper,
        format: PageFormat,
        level: usize,
        range: Range<u64>,
        pte: u64,
    ) -> Error {
        arbitrary()
    }

    /// Whether `handle_pte_hole` rejects these arguments: it then fails and changes nothing.
    open spec fn hole_rejects(
        state: Self::State,
        mapper: Mapper,
        format: PageFormat,
        level: usize,
        range: Range<u64>,
        pte: u64,
    ) -> bool {
        false
    }

    /// Whether `handle_post_pte` succeeds on these arguments: it then returns `Ok`.
    open spec fn post_ok(
        state: Self::State,
        mapper: Mapper,
        format: PageFormat,
        level: usize,
        range: Range<u64>,
        pte: u64,
    ) -> bool {
        false
    }

    /// The error with which `handle_post_pte` rejects these arguments.
    open spec fn post_error(
        state: Self::State,
        mapper: Mapper,
        format: PageFormat,
        level: usize,
        range: Range<u64>,
        pte: u64,
    ) -> Error {
        arbitrary()
    }

    /// Whether `handle_post_pte` rejects these arguments: it then fails and changes nothing.
    open spec fn post_rejects(
        state: Self::State,
        mapper: Mapper,
        format: PageFormat,
        level: usize,
        range: Range<u64>,
        pte: u64,
    ) -> bool {
        false
    }

    /// Handles every PTE that the walk meets.
    fn handle_pte(
        &mut self,
        mapper: &mut Mapper,
        format: &PageFormat,
        pte_type: PteType,
        range: Range<u64>,
        pte: &mut u64,
    ) -> (r: Result<(), Error>)
        requires
            format.visit_ok(pte_type.spec_level(), range),
            pte_type == format.spec_classify(pte_type.spec_level(), *old(pte)),
        ensures
            Self::pte_ok(
                old(self).state(),
                *old(mapper),
                *format,
                pte_type,
                range,
                *old(pte),
            ) ==> r is Ok,
            Self::pte_rejects(
                old(self).state(),
                *old(mapper),
                *format,
                pte_type,
                range,
                *old(pte),
            ) ==> r == Err::<(), Error>(Self::pte_error(
                old(self).state(),
                *old(mapper),
                *format,
                pte_type,
                range,
                *old(pte),
            )) && final(self).state() == old(self).state() && *final(mapper) == *old(mapper)
                && *final(pte) == *old(pte),
            r is Ok ==> (final(self).state(), *final(mapper), *final(pte)) == Self::after_pte(
                old(self).state(),
                *old(mapper),
                *format,
                pte_type,
                range,
                *old(pte),
            ),
    ;

    /// Handles a PTE that is not present, after `handle_pte`.
    fn handle_pte_hole(
        &mut self,
        mapper: &mut Mapper,
        format: &PageFormat,
        level: usize,
        range: Range<u64>,
        pte: &mut u64,
    ) -> (r: Result<(), Error>)
        requires
            format.visit_ok(level, range),
            !format.levels@[level as int].spec_is_present(*old(pte)),
        ensures
            Self::hole_ok(
                old(self).state(),
                *old(mapper),
                *format,
                level,
                range,
                *old(pte),
            ) ==> r is Ok,
            Self::hole_rejects(
                old(self).state(),
                *old(mapper),
                *format,
                level,
                range,
                *old(pte),
            ) ==> r == Err::<(), Error>(Self::hole_error(
                old(self).state(),
                *old(mapper),
                *format,
                level,
                range,
                *old(pte),
            )) && final(self).state() == old(self).state() && *final(mapper) == *old(mapper)
                && *final(pte) == *old(pte),
            r is Ok ==> (final(self).state(), *final(mapper), *final(pte)) == Self::after_hole(
                old(self).state(),
                *old(mapper),
                *format,
                level,
                range,
                *old(pte),
            ),
    ;

    /// Handles the PTE of a present page table after its subtree has been walked.
    fn handle_post_pte(
        &mut self,
        mapper: &mut Mapper,
        format: &PageFormat,
        level: usize,
        range: Range<u64>,
        pte: &mut u64,
    ) -> (r: Result<(), Error>)
        requires
            format.visit_ok(level, range),
            level > 0,
            format.levels@[level as int].spec_is_present(*old(pte)),
            !format.levels@[level as int].spec_is_huge_page(*old(pte)),
        ensures
            Self::post_ok(
                old(self).state(),
                *old(mapper),
                *format,
                level,
                range,
                *old(pte),
            ) ==> r is Ok,
            Self::post_rejects(
                old(self).state(),
                *old(mapper),
                *format,
                level,
                range,
                *old(pte),
            ) ==> r == Err::<(), Error>(Self::post_error(
                old(self).state(),
                *old(mapper),
                *format,
                level,
                range,
                *old(pte),
            )) && final(self).state() == old(self).state() && *final(mapper) == *old(mapper)
                && *final(pte) == *old(pte),
            r is Ok ==> (final(self).state(), *final(mapper), *final(pte)) == Self::after_post(
                old(self).state(),
                *old(mapper),
                *format,
                level,
                range,
                *old(pte),
            ),
    ;
}

} // verus!
