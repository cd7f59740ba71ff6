use vstd::prelude::*;

use super::big::BigAllocator;
use crate::error::Result;
use crate::memory::block::Block;
use crate::memory::frage::Page;
use crate::memory::mmu::PageTableFlags;

verus! {

/// Two `BigAllocator`s, of a source and of a destination address space (possibly the same),
/// between which the mapping of blocks of pages can be copied: to load the code of a process
/// into another address space, or to share memory with it. The kernel and user space
/// implement it.
pub trait BigAllocatorPair {
    /// The allocator of the destination address space.
    type Dst: BigAllocator;

    /// The allocator of the source address space.
    type Src: BigAllocator;

    /// The allocator of the destination of `copy_mapping`.
    fn dst(&mut self) -> Self::Dst;

    /// The allocator of the source of `copy_mapping`.
    fn src(&mut self) -> Self::Src;

    /// Whether the source and the destination are the same allocator.
    fn is_same(&self) -> bool;

    /// Maps `dst_block` of the destination to the frames of `src_block` of the source, with
    /// the flags `flags`, or page by page with those of `src_block` where `flags` is `None`;
    /// unmaps what `dst_block` mapped before, freeing the frames nothing else maps.
    /// Returns `Error::InvalidArgument` where the blocks differ in size, or overlap in one
    /// allocator (but for the same block with new flags), and `Error::PermissionDenied`
    /// where the destination does not allow the flags of a page.
    fn copy_mapping(&mut self, src_block: Block<Page>, dst_block: Block<Page>, flags: Option<PageTableFlags>) -> Result<()>;
}

} // verus!
