//! A generic software page-table walker and virtual address space manager.
//!
//! A [`PageFormat`] describes a hierarchy of page tables as a list of [`PageLevel`]s, leaf first.
//! [`PageFormat::walk`] and [`PageFormat::walk_mut`] traverse the tables that cover a virtual
//! address range and hand every page table entry to a [`PageWalker`] or [`PageWalkerMut`].
//! [`AddressSpace`] builds the usual operations (read, write, allocate, map, protect, unmap,
//! free, copy) from the strategies in [`walkers`], on top of a caller-supplied
//! [`PageTableMapper`] that reads and writes physical memory.
use vstd::prelude::*;

pub mod address_space;
pub mod arch;
pub mod format;
pub mod level;
pub mod walker;
pub mod walkers;



pub use level::PageLevel;
pub use walker::{PageWalker, PageWalkerMut, PteType};
pub use address_space::{AddressSpace, PageTableMapper};
pub use format::PageFormat;

