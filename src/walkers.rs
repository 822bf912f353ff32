//! The walk strategies that [`crate::AddressSpace`] is built from.
pub mod allocator;
pub mod copy;
pub mod mapper;
pub mod protector;
pub mod reader;
pub mod remover;
pub mod writer;

pub use allocator::PteAllocator;
pub use copy::{CopyFromWalker, CopyToWalker};
pub use mapper::PteMapper;
pub use protector::PteProtector;
pub use reader::PteReader;
pub use remover::{PteRemovalFlags, PteRemover};
pub use writer::PteWriter;
