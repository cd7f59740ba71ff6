use vstd::prelude::*;

use super::big::{
    calls_after, calls_extend, is_map, is_reserve_fixed, is_unmap, is_unreserve, BigAllocator, PageCall,
    PageCalls, PAGE_BYTES,
};
use crate::error::{Error, Result};
use crate::memory::addr::{Tag, Virt, VirtTag};
use crate::memory::block::{valid_block, Block, Memory};
use crate::memory::frage::Page;

verus! {

/// Whether to zero a new allocation or leave garbage in it.
#[derive(Clone, Copy, Debug, PartialEq, Eq, Structural)]
pub enum Initialize {
    /// Leave whatever the memory holds.
    Garbage,
    /// Fill the memory with zeros.
    Zero,
}

/// The pages `[start, end)` that hold the `size` bytes from the page-aligned `address`,
/// where those bytes lie in one half of the address space; the error that `try_into_block`
/// gives otherwise.
pub open spec fn spec_try_into_block(address: int, size: int) -> Result<(int, int)> {
    let end = address + size;
    if address % 4096 != 0 {
        Err(Error::InvalidAlignment)
    } else if end > usize::MAX {
        Err(Error::Overflow)
    } else if !VirtTag::spec_is_valid(end as usize) {
        Err(Error::InvalidArgument)
    } else if !VirtTag::spec_is_same_half(address as usize, end as usize) {
        Err(Error::Overflow)
    } else {
        Ok((address / 4096, if size == 0 { address / 4096 } else { (end - 1) / 4096 + 1 }))
    }
}

/// Whether `r` is the block that `spec_try_into_block` names, or its error.
pub open spec fn is_block_of(r: Result<Block<Page>>, address: int, size: int) -> bool {
    match spec_try_into_block(address, size) {
        Ok(pages) => r matches Ok(b) && b.wf() && b@ == pages,
        Err(e) => r == Err::<Block<Page>, Error>(e),
    }
}

/// The pages that hold the `size` bytes from `address`, which must be page-aligned:
/// `Error::InvalidAlignment` where it is not, `Error::Overflow` or
/// `Error::InvalidArgument` where the bytes leave the half of the address space of `address`.
pub fn try_into_block(address: Virt, size: usize) -> (r: Result<Block<Page>>)
    requires
        usize::BITS == 64,
    ensures
        is_block_of(r, address@ as int, size as int),
{
    if address.into_usize() % PAGE_BYTES != 0 {
        return Err(Error::InvalidAlignment);
    }
    let end = match address + size {
        Ok(end) => end,
        Err(e) => return Err(e),
    };
    proof {
        assert(address@ * 1 == address@) by (nonlinear_arith);
        assert(end@ * 1 == end@) by (nonlinear_arith);
        assert((end@ - 1) * 1 == end@ - 1) by (nonlinear_arith);
        if size > 0 {
            VirtTag::lemma_between(address@, (end@ - 1) as usize, end@);
        }
    }
    let block = match Block::<Virt>::new(address, end) {
        Ok(b) => b,
        Err(e) => return Err(e),
    };
    proof {
        VirtTag::lemma_zero_valid();
    }
    Ok(block.enclosing())
}

/// The block to zero for `initialize`: `fresh` where the memory must be zeroed, else none.
fn to_zero(fresh: Block<Page>, initialize: Initialize) -> (r: Block<Page>)
    ensures
        initialize == Initialize::Zero ==> r == fresh,
        initialize == Initialize::Garbage ==> r@.0 == r@.1,
{
    match initialize {
        Initialize::Zero => fresh,
        Initialize::Garbage => Block::zero(),
    }
}

/// The bytes from `old_size` to `new_size` of the block `block`, which growing with zeroed
/// memory must zero; none where `initialize` does not ask for zeroed memory.
/// Returns `Error::Overflow` where those bytes pass the end of the address space, and the
/// error of `Block::from_index` where they are no valid block of addresses.
fn bytes_to_zero(block: Block<Page>, old_size: usize, new_size: usize, initialize: Initialize) -> (r: Result<Block<Virt>>)
    requires
        old_size <= new_size,
    ensures
        initialize == Initialize::Garbage ==> (r matches Ok(z) && z@.0 == z@.1),
        initialize == Initialize::Zero ==> (r matches Ok(z)
            ==> z@ == (block@.0 * 4096 + old_size, block@.0 * 4096 + new_size)),
        initialize == Initialize::Zero && valid_block::<Virt>(block@.0 * 4096 + old_size, block@.0 * 4096 + new_size)
            && block@.0 * 4096 + new_size <= usize::MAX ==> r is Ok,
{
    match initialize {
        Initialize::Garbage => Ok(Block::zero()),
        Initialize::Zero => {
            let start = block.start();
            if start > usize::MAX / PAGE_BYTES {
                return Err(Error::Overflow);
            }
            let address = start * PAGE_BYTES;
            if new_size > usize::MAX - address {
                return Err(Error::Overflow);
            }
            proof {
                Virt::lemma_type();
            }
            Block::<Virt>::from_index(address + old_size, address + new_size)
        },
    }
}

/// An allocator of whole pages in the shape of `core::alloc::Allocator`, on top of a
/// `BigAllocator`: blocks are given by their address and size. Where a request asks for
/// zeroed memory, each operation returns, beside its result, the freshly mapped pages that
/// the caller is to zero; an empty block otherwise.
pub trait DryAllocator {
    /// Reserves and maps with the default flags a new block of `size` bytes aligned to
    /// `align`. Returns the block and the pages to zero.
    fn dry_allocate(&mut self, size: usize, align: usize, initialize: Initialize) -> (r: Result<(Block<Page>, Block<Page>)>)
        ensures
            r matches Ok((b, z)) ==> {
                &&& b.wf() && b.spec_count() * PAGE_BYTES >= size && b@.0 > 0
                &&& initialize == Initialize::Zero ==> z == b
                &&& initialize == Initialize::Garbage ==> z@.0 == z@.1
            },
    ;

    /// Unmaps and frees the pages that hold the `size` bytes from `address`.
    /// Returns the error of `try_into_block` where those bytes are no block of pages.
    fn dry_deallocate(&mut self, address: Virt, size: usize) -> (r: Result<()>)
        requires
            usize::BITS == 64,
        ensures
            spec_try_into_block(address@ as int, size as int) matches Err(e) ==> r == Err::<(), Error>(e),
    ;

    /// Grows the block of `old_size` bytes at `address` to hold `new_size` bytes aligned to
    /// `new_align`, in place where the pages after it can be reserved, else by moving it to
    /// a new block, whose first pages are mapped to the frames of the old ones, so that they
    /// keep their bytes. Returns the block and, where `initialize` asks for zeroed memory,
    /// the bytes from `old_size` to `new_size` of it, which the caller is to zero.
    fn dry_grow(&mut self, address: Virt, old_size: usize, new_size: usize, new_align: usize, initialize: Initialize) -> (r: Result<(Block<Page>, Block<Virt>)>)
        requires
            usize::BITS == 64,
            old_size <= new_size,
        ensures
            spec_try_into_block(address@ as int, old_size as int) matches Err(e) ==> r == Err::<(Block<Page>, Block<Virt>), Error>(e),
            spec_try_into_block(address@ as int, old_size as int) is Ok
                ==> (spec_try_into_block(address@ as int, new_size as int) matches Err(e)
                    ==> r == Err::<(Block<Page>, Block<Virt>), Error>(e)),
            ({
                let old = spec_try_into_block(address@ as int, old_size as int);
                let new = spec_try_into_block(address@ as int, new_size as int);
                (old matches Ok(o) && (new matches Ok(n) && o.1 - o.0 == n.1 - n.0)
                    && (initialize == Initialize::Garbage || (
                        valid_block::<Virt>(new->Ok_0.0 * 4096 + old_size, new->Ok_0.0 * 4096 + new_size)
                        && new->Ok_0.0 * 4096 + new_size <= usize::MAX)))
                    ==> (r matches Ok((b, _)) && b@ == new->Ok_0)
            }),
            r matches Ok((b, z)) ==> {
                &&& b.wf() && b.spec_count() * PAGE_BYTES >= new_size
                &&& initialize == Initialize::Garbage ==> z@.0 == z@.1
                &&& initialize == Initialize::Zero ==> z@ == (b@.0 * 4096 + old_size, b@.0 * 4096 + new_size)
            },
    ;

    /// Shrinks the block of `old_size` bytes at `address` to `new_size` bytes in place:
    /// unmaps the pages past the new end and gives them back. Returns the shrunk block.
    fn dry_shrink(&mut self, address: Virt, old_size: usize, new_size: usize) -> (r: Result<Block<Page>>)
        requires
            usize::BITS == 64,
            new_size <= old_size,
        ensures
            spec_try_into_block(address@ as int, old_size as int) matches Err(e) ==> r == Err::<Block<Page>, Error>(e),
            r matches Ok(b) ==> is_block_of(r, address@ as int, new_size as int),
    ;
}

impl<T: BigAllocator> DryAllocator for T {
    fn dry_allocate(&mut self, size: usize, align: usize, initialize: Initialize) -> (r: Result<(Block<Page>, Block<Page>)>) {
        let block = match self.reserve(size, align) {
            Ok(b) => b,
            Err(e) => return Err(e),
        };
        let flags = self.flags();
        match self.map(block, flags) {
            Ok(()) => {},
            Err(e) => return Err(e),
        }
        Ok((block, to_zero(block, initialize)))
    }

    fn dry_deallocate(&mut self, address: Virt, size: usize) -> (r: Result<()>) {
        let block = match try_into_block(address, size) {
            Ok(b) => b,
            Err(e) => return Err(e),
        };
        match self.unmap(block) {
            Ok(()) => {},
            Err(e) => return Err(e),
        }
        self.unreserve(block)
    }

    fn dry_grow(&mut self, address: Virt, old_size: usize, new_size: usize, new_align: usize, initialize: Initialize) -> (r: Result<(Block<Page>, Block<Virt>)>) {
        let mut calls = PageCalls::new(self);
        calls.dry_grow(address, old_size, new_size, new_align, initialize)
    }

    fn dry_shrink(&mut self, address: Virt, old_size: usize, new_size: usize) -> (r: Result<Block<Page>>) {
        let old_block = match try_into_block(address, old_size) {
            Ok(b) => b,
            Err(e) => return Err(e),
        };
        let new_block = match try_into_block(address, new_size) {
            Ok(b) => b,
            Err(e) => return Err(e),
        };
        if old_block.count() == new_block.count() {
            return Ok(new_block);
        }
        proof {
            lemma_block_pages(address@ as int, new_size as int);
            lemma_block_pages(address@ as int, old_size as int);
        }
        let tail_block = match Block::<Page>::from_index(new_block.end(), old_block.end()) {
            Ok(b) => b,
            Err(e) => return Err(e),
        };
        match self.unmap(tail_block) {
            Ok(()) => {},
            Err(e) => return Err(e),
        }
        match self.rereserve(old_block, new_block) {
            Ok(()) => {},
            Err(e) => return Err(e),
        }
        Ok(new_block)
    }
}

/// The pages of a block hold its bytes.
proof fn lemma_block_pages(address: int, size: int)
    requires
        address % 4096 == 0,
        0 <= address,
        0 <= size,
    ensures
        ({
            let end = if size == 0 { address / 4096 } else { (address + size - 1) / 4096 + 1 };
            &&& (end - address / 4096) * 4096 >= size
            &&& address / 4096 <= end
        }),
{
    let a = address / 4096;
    vstd::arithmetic::div_mod::lemma_fundamental_div_mod(address, 4096);
    if size > 0 {
        let x = address + size - 1;
        vstd::arithmetic::div_mod::lemma_fundamental_div_mod(x, 4096);
        assert(0 <= x % 4096 < 4096);
    }
}


impl<'a, A: BigAllocator> PageCalls<'a, A> {
    /// `DryAllocator::dry_grow` through this handle, with the calls it makes: see
    /// `dry_grow_calls`.
    pub fn dry_grow(&mut self, address: Virt, old_size: usize, new_size: usize, new_align: usize, initialize: Initialize) -> (r: Result<(Block<Page>, Block<Virt>)>)
        requires
            usize::BITS == 64,
            old_size <= new_size,
        ensures
            spec_try_into_block(address@ as int, old_size as int) matches Err(e) ==> r == Err::<(Block<Page>, Block<Virt>), Error>(e),
            spec_try_into_block(address@ as int, old_size as int) is Ok
                ==> (spec_try_into_block(address@ as int, new_size as int) matches Err(e)
                    ==> r == Err::<(Block<Page>, Block<Virt>), Error>(e)),
            ({
                let old = spec_try_into_block(address@ as int, old_size as int);
                let new = spec_try_into_block(address@ as int, new_size as int);
                (old matches Ok(o) && (new matches Ok(n) && o.1 - o.0 == n.1 - n.0)
                    && (initialize == Initialize::Garbage || (
                        valid_block::<Virt>(new->Ok_0.0 * 4096 + old_size, new->Ok_0.0 * 4096 + new_size)
                        && new->Ok_0.0 * 4096 + new_size <= usize::MAX)))
                    ==> (r matches Ok((b, _)) && b@ == new->Ok_0)
            }),
            r matches Ok((b, z)) ==> {
                &&& b.wf() && b.spec_count() * PAGE_BYTES >= new_size
                &&& initialize == Initialize::Garbage ==> z@.0 == z@.1
                &&& initialize == Initialize::Zero ==> z@ == (b@.0 * 4096 + old_size, b@.0 * 4096 + new_size)
            },
            calls_extend(old(self).spec_calls(), final(self).spec_calls()),
            dry_grow_calls(address@ as int, old_size as int, new_size as int, new_align, r,
                calls_after(old(self).spec_calls(), final(self).spec_calls())),
    {
        let ghost before = self.spec_calls();
        let old_block = match try_into_block(address, old_size) {
            Ok(b) => b,
            Err(e) => return Err(e),
        };
        let new_block = match try_into_block(address, new_size) {
            Ok(b) => b,
            Err(e) => return Err(e),
        };
        proof {
            old_block.lemma_bounds();
            new_block.lemma_bounds();
            lemma_block_pages(address@ as int, new_size as int);
        }
        if old_block.count() == new_block.count() {
            let zero = match bytes_to_zero(new_block, old_size, new_size, initialize) {
                Ok(z) => z,
                Err(e) => return Err(e),
            };
            return Ok((new_block, zero));
        }
        let additional_block = match Block::<Page>::from_index(old_block.end(), new_block.end()) {
            Ok(b) => b,
            Err(e) => return Err(e),
        };
        let flags = self.flags();
        if self.reserve_fixed(additional_block).is_ok() {
            match self.map(additional_block, flags) {
                Ok(()) => {},
                Err(e) => return Err(e),
            }
            let zero = match bytes_to_zero(new_block, old_size, new_size, initialize) {
                Ok(z) => z,
                Err(e) => return Err(e),
            };
            return Ok((new_block, zero));
        }
        let allocated_block = match self.reserve(new_size, new_align) {
            Ok(b) => b,
            Err(e) => return Err(e),
        };
        proof {
            allocated_block.lemma_bounds();
        }
        let copy_count = if old_block.count() < allocated_block.count() { old_block.count() } else { allocated_block.count() };
        let copy_block = match Block::<Page>::from_index(allocated_block.start(), allocated_block.start() + copy_count) {
            Ok(b) => b,
            Err(e) => return Err(e),
        };
        match self.copy_mapping(old_block, copy_block, None) {
            Ok(()) => {},
            Err(e) => return Err(e),
        }
        let mut fresh = Block::zero();
        if allocated_block.count() > old_block.count() {
            fresh = match Block::<Page>::from_index(allocated_block.start() + old_block.count(), allocated_block.end()) {
                Ok(b) => b,
                Err(e) => return Err(e),
            };
            match self.map(fresh, flags) {
                Ok(()) => {},
                Err(e) => return Err(e),
            }
        }
        match self.unmap(old_block) {
            Ok(()) => {},
            Err(e) => return Err(e),
        }
        match self.unreserve(old_block) {
            Ok(()) => {},
            Err(e) => return Err(e),
        }
        let zero = match bytes_to_zero(allocated_block, old_size, new_size, initialize) {
            Ok(z) => z,
            Err(e) => return Err(e),
        };
        Ok((allocated_block, zero))
    }
}

/// What `dry_grow` hands the allocator, by the calls `tail` it makes, for the result `r`,
/// where the `old_size` bytes at `address` are the pages `o` and the `new_size` bytes the
/// pages `n`:
/// - where either is no block of pages, or both have as many pages, no call;
/// - else in place: `reserve_fixed` and `map` of the pages past the old end;
/// - else moved: that `reserve_fixed` (which failed), `reserve` with the new size and the
///   alignment, `copy_mapping` of the old pages to the start of the new block, `map` of the
///   rest of the new block where it is bigger, then `unmap` and `unreserve` of the old pages.
pub open spec fn dry_grow_calls(
    address: int,
    old_size: int,
    new_size: int,
    new_align: usize,
    r: Result<(Block<Page>, Block<Virt>)>,
    tail: Seq<PageCall>,
) -> bool {
    match (spec_try_into_block(address, old_size), spec_try_into_block(address, new_size)) {
        (Ok(o), Ok(n)) => {
            if o.1 - o.0 == n.1 - n.0 {
                tail.len() == 0
            } else {
                r matches Ok((b, _)) ==> {
                    ||| {
                        &&& b@ == n
                        &&& tail.len() == 2
                        &&& is_reserve_fixed(tail[0], (o.1, n.1))
                        &&& is_map(tail[1], (o.1, n.1))
                    }
                    ||| {
                        let old_count = o.1 - o.0;
                        let copied = if old_count < b.spec_count() { old_count } else { b.spec_count() };
                        &&& tail.len() == if b.spec_count() > old_count { 6int } else { 5int }
                        &&& is_reserve_fixed(tail[0], (o.1, n.1))
                        &&& tail[1] == PageCall::Reserve(new_size as usize, new_align)
                        &&& tail[2] matches PageCall::CopyMapping(x, c, None) && x@ == o
                            && c@ == (b@.0, b@.0 + copied)
                        &&& b.spec_count() > old_count ==> is_map(tail[3], (b@.0 + old_count, b@.1))
                        &&& is_unmap(tail[tail.len() - 2], o)
                        &&& is_unreserve(tail[tail.len() - 1], o)
                    }
                }
            }
        },
        _ => tail.len() == 0,
    }
}

} // verus!
