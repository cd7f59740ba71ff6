use vstd::prelude::*;

use crate::error::{Error, Result};
use crate::memory::block::{valid_block, Block, Memory};
use crate::memory::frage::Page;
use crate::memory::mmu::PageTableFlags;

verus! {

/// The size of a page in bytes.
pub const PAGE_BYTES: usize = 4096;

/// The number of pages that `size` bytes take, rounding up.
pub open spec fn pages_for(size: int) -> int {
    (size + 4095) / 4096
}

/// A call made to a page allocator, with what it was handed.
#[derive(Clone, Copy, Debug)]
pub enum PageCall {
    /// `set_flags` with the flags.
    SetFlags(PageTableFlags),
    /// `reserve` with the size and the alignment.
    Reserve(usize, usize),
    /// `reserve_fixed` with the block.
    ReserveFixed(Block<Page>),
    /// `unreserve` with the block.
    Unreserve(Block<Page>),
    /// `rereserve` with the old block and its part to keep.
    Rereserve(Block<Page>, Block<Page>),
    /// `map` with the block and the flags.
    MapPages(Block<Page>, PageTableFlags),
    /// `unmap` with the block.
    Unmap(Block<Page>),
    /// `copy_mapping` with the old block, the new block and the flags.
    CopyMapping(Block<Page>, Block<Page>, Option<PageTableFlags>),
}

/// Whether `call` is `reserve_fixed` of the pages `block`.
pub open spec fn is_reserve_fixed(call: PageCall, block: (int, int)) -> bool {
    call matches PageCall::ReserveFixed(b) && b@ == block
}

/// Whether `call` is `unreserve` of the pages `block`.
pub open spec fn is_unreserve(call: PageCall, block: (int, int)) -> bool {
    call matches PageCall::Unreserve(b) && b@ == block
}

/// Whether `call` is `map` of the pages `block`, with any flags.
pub open spec fn is_map(call: PageCall, block: (int, int)) -> bool {
    call matches PageCall::MapPages(b, _) && b@ == block
}

/// Whether `call` is `map` of the pages `block` with the flags `flags`.
pub open spec fn is_map_with(call: PageCall, block: (int, int), flags: PageTableFlags) -> bool {
    call matches PageCall::MapPages(b, f) && b@ == block && f == flags
}

/// Whether `call` is `unmap` of the pages `block`.
pub open spec fn is_unmap(call: PageCall, block: (int, int)) -> bool {
    call matches PageCall::Unmap(b) && b@ == block
}

/// A general purpose allocator that hands out blocks of whole pages, either in the current
/// address space or in another one. The kernel and user space implement it.
///
/// An implementation must not hand out blocks of virtual addresses that are in use.
pub trait BigAllocator {
    /// The flags that pages get where an allocation does not name them.
    fn flags(&self) -> PageTableFlags;

    /// Sets the flags that pages get where an allocation does not name them.
    /// Returns `Error::PermissionDenied` where the allocator does not allow them.
    fn set_flags(&mut self, flags: PageTableFlags) -> Result<()>;

    /// Reserves a new block of consecutive virtual pages that holds `size` bytes aligned to
    /// `align`; maps nothing. Returns `Error::NoPage` where no such block is free.
    /// The block never starts at the null page.
    fn reserve(&mut self, size: usize, align: usize) -> (r: Result<Block<Page>>)
        ensures
            r matches Ok(b) ==> b.wf() && b.spec_count() * PAGE_BYTES >= size && b@.0 > 0,
    ;

    /// Reserves the given block of virtual pages; maps nothing.
    /// Returns `Error::NoPage` where a page of it is in use.
    fn reserve_fixed(&mut self, block: Block<Page>) -> Result<()>;

    /// Frees the block of virtual pages `block`, which was reserved and is no longer mapped.
    fn unreserve(&mut self, block: Block<Page>) -> Result<()>;

    /// Shrinks the reserved block `old_block` to its part `sub_block`.
    /// Returns `Error::InvalidArgument` where `sub_block` is not inside `old_block`.
    fn rereserve(&mut self, old_block: Block<Page>, sub_block: Block<Page>) -> Result<()>;

    /// Maps the reserved block `block` to new physical frames with the flags `flags`.
    /// Returns `Error::NoFrame` where no frame is free and `Error::PermissionDenied` where
    /// the allocator does not allow the flags.
    fn map(&mut self, block: Block<Page>, flags: PageTableFlags) -> Result<()>;

    /// Unmaps the block `block`, freeing the frames that nothing else maps.
    fn unmap(&mut self, block: Block<Page>) -> Result<()>;

    /// Maps the block `new_block` to the frames of the block `old_block`, with the flags
    /// `flags`, or page by page with those of `old_block` where `flags` is `None`.
    /// Returns `Error::InvalidArgument` where the blocks differ in size or overlap (but for
    /// the same block with new flags).
    fn copy_mapping(&mut self, old_block: Block<Page>, new_block: Block<Page>, flags: Option<PageTableFlags>) -> Result<()>;
}

/// The calls `now` extend the calls `before`.
pub open spec fn calls_extend(before: Seq<PageCall>, now: Seq<PageCall>) -> bool {
    before.len() <= now.len() && now.subrange(0, before.len() as int) =~= before
}

/// The calls of `now` made after those of `before`.
pub open spec fn calls_after(before: Seq<PageCall>, now: Seq<PageCall>) -> Seq<PageCall> {
    now.subrange(before.len() as int, now.len() as int)
}

/// What `grow` hands the allocator, by the calls `tail` it makes, for the result `r`:
/// - an empty block gets a new one: `reserve` with the size and the alignment, then `map`
///   of the block with `flags`;
/// - where the new end is not a valid page index, or the pages do not change, no call;
/// - else in place: `reserve_fixed` and `map` with `flags` of the pages past the old end;
/// - else moved: that `reserve_fixed` (which failed), `reserve` with the size and the
///   alignment, `copy_mapping` of the old block to the start of the new one, `map` with
///   `flags` of the rest of the new block where it is bigger, then `unmap` and `unreserve` of
///   the old block.
pub open spec fn grow_calls(
    old_block: Block<Page>,
    new_size: int,
    new_align: usize,
    flags: PageTableFlags,
    r: Result<Block<Page>>,
    tail: Seq<PageCall>,
) -> bool {
    let (s, e) = old_block@;
    let n = pages_for(new_size);
    if s == e {
        r matches Ok(b) ==> {
            &&& tail.len() == 2
            &&& tail[0] == PageCall::Reserve(new_size as usize, new_align)
            &&& is_map_with(tail[1], b@, flags)
        }
    } else if !valid_block::<Page>(s, s + n) {
        r is Err && tail.len() == 0
    } else if n == e - s {
        tail.len() == 0
    } else {
        r matches Ok(b) ==> {
            ||| {
                &&& b@ == (s, s + n)
                &&& tail.len() == 2
                &&& is_reserve_fixed(tail[0], (e, s + n))
                &&& is_map_with(tail[1], (e, s + n), flags)
            }
            ||| {
                let copied = if e - s < b.spec_count() { e - s } else { b.spec_count() };
                &&& tail.len() == if b.spec_count() > e - s { 6int } else { 5int }
                &&& is_reserve_fixed(tail[0], (e, s + n))
                &&& tail[1] == PageCall::Reserve(new_size as usize, new_align)
                &&& tail[2] matches PageCall::CopyMapping(o, c, None) && o == old_block
                    && c@ == (b@.0, b@.0 + copied)
                &&& b.spec_count() > e - s ==> is_map_with(tail[3], (b@.0 + (e - s), b@.1), flags)
                &&& is_unmap(tail[tail.len() - 2], old_block@)
                &&& is_unreserve(tail[tail.len() - 1], old_block@)
            }
        }
    }
}

/// A page allocator, borrowed, with the record of the calls made to it through this handle:
/// each call, with what it was handed, whether it succeeded or not.
pub struct PageCalls<'a, A: BigAllocator> {
    allocator: &'a mut A,
    calls: Ghost<Seq<PageCall>>,
}

impl<'a, A: BigAllocator> PageCalls<'a, A> {
    /// The calls made through this handle, oldest first.
    pub closed spec fn spec_calls(&self) -> Seq<PageCall> {
        self.calls@
    }

    /// A handle to `allocator` with no call made yet.
    pub fn new(allocator: &'a mut A) -> (r: Self)
        ensures
            r.spec_calls() == Seq::<PageCall>::empty(),
    {
        PageCalls { allocator, calls: Ghost(Seq::empty()) }
    }

    /// The flags that pages get where an allocation does not name them.
    pub fn flags(&self) -> (r: PageTableFlags) {
        self.allocator.flags()
    }

    /// `BigAllocator::reserve`, recorded.
    pub fn reserve(&mut self, size: usize, align: usize) -> (r: Result<Block<Page>>)
        ensures
            r matches Ok(b) ==> b.wf() && b.spec_count() * PAGE_BYTES >= size && b@.0 > 0,
            final(self).spec_calls() == old(self).spec_calls().push(PageCall::Reserve(size, align)),
    {
        let r = self.allocator.reserve(size, align);
        proof {
            self.calls@ = self.calls@.push(PageCall::Reserve(size, align));
        }
        r
    }

    /// `BigAllocator::reserve_fixed`, recorded.
    pub fn reserve_fixed(&mut self, block: Block<Page>) -> (r: Result<()>)
        ensures
            final(self).spec_calls() == old(self).spec_calls().push(PageCall::ReserveFixed(block)),
    {
        let r = self.allocator.reserve_fixed(block);
        proof {
            self.calls@ = self.calls@.push(PageCall::ReserveFixed(block));
        }
        r
    }

    /// `BigAllocator::unreserve`, recorded.
    pub fn unreserve(&mut self, block: Block<Page>) -> (r: Result<()>)
        ensures
            final(self).spec_calls() == old(self).spec_calls().push(PageCall::Unreserve(block)),
    {
        let r = self.allocator.unreserve(block);
        proof {
            self.calls@ = self.calls@.push(PageCall::Unreserve(block));
        }
        r
    }

    /// `BigAllocator::map`, recorded.
    pub fn map(&mut self, block: Block<Page>, flags: PageTableFlags) -> (r: Result<()>)
        ensures
            final(self).spec_calls() == old(self).spec_calls().push(PageCall::MapPages(block, flags)),
    {
        let r = self.allocator.map(block, flags);
        proof {
            self.calls@ = self.calls@.push(PageCall::MapPages(block, flags));
        }
        r
    }

    /// `BigAllocator::unmap`, recorded.
    pub fn unmap(&mut self, block: Block<Page>) -> (r: Result<()>)
        ensures
            final(self).spec_calls() == old(self).spec_calls().push(PageCall::Unmap(block)),
    {
        let r = self.allocator.unmap(block);
        proof {
            self.calls@ = self.calls@.push(PageCall::Unmap(block));
        }
        r
    }

    /// `BigAllocator::copy_mapping`, recorded.
    pub fn copy_mapping(&mut self, old_block: Block<Page>, new_block: Block<Page>, flags: Option<PageTableFlags>) -> (r: Result<()>)
        ensures
            final(self).spec_calls() == old(self).spec_calls().push(PageCall::CopyMapping(old_block, new_block, flags)),
    {
        let r = self.allocator.copy_mapping(old_block, new_block, flags);
        proof {
            self.calls@ = self.calls@.push(PageCall::CopyMapping(old_block, new_block, flags));
        }
        r
    }

    /// Grows the mapped block `old_block` to hold `new_size` bytes aligned to `new_align`,
    /// mapping the new pages with the flags `flags`. An empty `old_block` gets a new block.
    /// The block grows in place where the pages after it can be reserved; otherwise a new
    /// block is reserved, the old pages are moved there by mapping, the rest is mapped, and
    /// the old block is unmapped and freed.
    pub fn grow(&mut self, old_block: Block<Page>, new_size: usize, new_align: usize, flags: PageTableFlags) -> (r: Result<Block<Page>>)
        requires
            usize::BITS == 64,
            old_block.wf(),
            new_size >= old_block.spec_count() * PAGE_BYTES,
            new_size <= isize::MAX,
        ensures
            r matches Ok(b) ==> b.wf() && b.spec_count() * PAGE_BYTES >= new_size,
            old_block@.0 < old_block@.1 && pages_for(new_size as int) == old_block.spec_count()
                ==> r == Ok::<Block<Page>, Error>(old_block),
            calls_extend(old(self).spec_calls(), final(self).spec_calls()),
            grow_calls(old_block, new_size as int, new_align, flags, r,
                calls_after(old(self).spec_calls(), final(self).spec_calls())),
    {
        let ghost before = self.spec_calls();
        if old_block.is_empty() {
            let new_block = match self.reserve(new_size, new_align) {
                Ok(b) => b,
                Err(e) => return Err(e),
            };
            match self.map(new_block, flags) {
                Ok(()) => {},
                Err(e) => return Err(e),
            }
            proof {
                assert(calls_after(before, self.spec_calls()) =~= seq![
                    PageCall::Reserve(new_size, new_align), PageCall::MapPages(new_block, flags)]);
            }
            return Ok(new_block);
        }
        let new_page_count = (new_size + (PAGE_BYTES - 1)) / PAGE_BYTES;
        proof {
            old_block.lemma_bounds();
            assert(old_block@.0 * 4096 <= usize::MAX) by {
                assert(valid_block::<Page>(old_block@.0, old_block@.1));
            }
            assert(new_page_count <= 0x8_0000_0000_0000);
        }
        let new_block = match Block::<Page>::from_index(old_block.start(), old_block.start() + new_page_count) {
            Ok(b) => b,
            Err(e) => return Err(e),
        };
        if old_block.count() == new_block.count() {
            return Ok(old_block);
        }
        let additional_block = match Block::<Page>::from_index(old_block.end(), new_block.end()) {
            Ok(b) => b,
            Err(e) => return Err(e),
        };
        if self.reserve_fixed(additional_block).is_ok() {
            match self.map(additional_block, flags) {
                Ok(()) => {},
                Err(e) => return Err(e),
            }
            proof {
                assert(new_page_count * 4096 >= new_size) by (nonlinear_arith)
                    requires new_page_count == (new_size + 4095) / 4096;
                assert(calls_after(before, self.spec_calls()) =~= seq![
                    PageCall::ReserveFixed(additional_block), PageCall::MapPages(additional_block, flags)]);
            }
            return Ok(new_block);
        }
        let allocated_block = match self.reserve(new_size, new_align) {
            Ok(b) => b,
            Err(e) => return Err(e),
        };
        let copy_count = if old_block.count() < allocated_block.count() { old_block.count() } else { allocated_block.count() };
        proof {
            allocated_block.lemma_bounds();
        }
        let copy_block = match Block::<Page>::from_index(allocated_block.start(), allocated_block.start() + copy_count) {
            Ok(b) => b,
            Err(e) => return Err(e),
        };
        match self.copy_mapping(old_block, copy_block, None) {
            Ok(()) => {},
            Err(e) => return Err(e),
        }
        if allocated_block.count() > old_block.count() {
            let additional = match Block::<Page>::from_index(allocated_block.start() + old_block.count(), allocated_block.end()) {
                Ok(b) => b,
                Err(e) => return Err(e),
            };
            match self.map(additional, flags) {
                Ok(()) => {},
                Err(e) => return Err(e),
            }
        }
        match self.unmap(old_block) {
            Ok(()) => {},
            Err(e) => return Err(e),
        }
        match self.unreserve(old_block) {
            Ok(()) => {},
            Err(e) => return Err(e),
        }
        proof {
            let tail = calls_after(before, self.spec_calls());
            if allocated_block.spec_count() > old_block.spec_count() {
                assert(tail.len() == 6);
            } else {
                assert(tail.len() == 5);
            }
        }
        Ok(allocated_block)
    }}

/// Gives access to a `BigAllocator`, for example one that sits behind a lock.
pub trait BigAllocatorGuard {
    /// The allocator that `get` gives access to.
    type Allocator: BigAllocator;

    /// The allocator to use now.
    fn get(&self) -> Self::Allocator;
}

} // verus!
