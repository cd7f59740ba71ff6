use vstd::prelude::*;

use crate::error::{Error, Result};
use crate::memory::addr::{Tag, Virt, VirtTag};
use crate::memory::block::{last_index, valid_block, valid_index, Block, Memory};
use crate::memory::frage::Page;

use super::big::{
    calls_after, calls_extend, is_map, is_unmap, is_unreserve, BigAllocator, BigAllocatorGuard, PageCall,
    PageCalls, PAGE_BYTES,
};

verus! {

/// The number of slabs that a quarry holds.
pub const SLAB_COUNT: usize = 16;

/// The size of a slab in bytes: one mebibyte.
pub const SLAB_SIZE: usize = 0x10_0000;

/// The number of pages of a slab.
pub const SLAB_PAGE_COUNT: usize = 256;

/// The slab number and the number within that slab of allocation `index`, where a slab
/// holds `per_slab` allocations.
pub open spec fn coordinates(index: int, per_slab: int) -> (int, int) {
    (index / per_slab, index % per_slab)
}

/// The pages that `count` allocations of `size` bytes at the start of a slab take.
pub open spec fn slab_pages(count: int, size: int) -> int {
    (count * size + 4095) / 4096
}

/// The page indexes of the slab that starts at page `start`; empty for the zero page,
/// which marks a slab not reserved.
pub open spec fn slab_of(start: Page) -> (int, int) {
    if start@ == 0 {
        (0, 0)
    } else {
        (start.spec_index(), start.spec_index() + SLAB_PAGE_COUNT)
    }
}

/// How many slabs `count` allocations use, the last one maybe in part.
pub open spec fn slabs_used(count: int, per_slab: int) -> int {
    let (slab, offset) = coordinates(count, per_slab);
    if offset > 0 { slab + 1 } else { slab }
}

/// The number of allocations that the pages mapped for `count` requested allocations hold:
/// the whole slabs before the slab of `count`, and as many allocations as the mapped pages
/// of that slab hold, no more than the quarry holds.
pub open spec fn mapped_count(count: int, per_slab: int, size: int) -> int {
    let (slab, offset) = coordinates(count, per_slab);
    let in_slab = slab_pages(offset, size) * 4096 / size;
    let in_slab = if in_slab < per_slab { in_slab } else { per_slab };
    let total = slab * per_slab + in_slab;
    let capacity = per_slab * SLAB_COUNT;
    if total < capacity { total } else { capacity }
}

/// The pages that growing from `old` to `new` allocations maps.
pub open spec fn map_frames(old: int, new: int, per_slab: int, size: int) -> int {
    let (old_slab, old_offset) = coordinates(old, per_slab);
    let (new_slab, new_offset) = coordinates(new, per_slab);
    let old_pages = slab_pages(old_offset, size);
    let new_pages = slab_pages(new_offset, size);
    if old_slab == new_slab {
        if old_pages < new_pages { new_pages - old_pages } else { 0 }
    } else {
        let rest = if old_offset > 0 && old_pages < SLAB_PAGE_COUNT { SLAB_PAGE_COUNT - old_pages } else { 0 };
        let first_whole = if old_offset > 0 { old_slab + 1 } else { old_slab };
        let last = if new_offset > 0 { new_pages } else { 0 };
        rest + (new_slab - first_whole) * SLAB_PAGE_COUNT + last
    }
}

/// The pages that `count` allocations take: the whole slabs before the slab of `count` and
/// the pages of that slab that its allocations take.
pub open spec fn total_pages(count: int, per_slab: int, size: int) -> int {
    (count / per_slab) * SLAB_PAGE_COUNT + slab_pages(count % per_slab, size)
}

/// Growing from `old` to `new` allocations maps the pages that `new` allocations take less
/// those that `old` allocations take.
pub proof fn lemma_map_frames_direct(old: int, new: int, per_slab: int, size: int)
    requires
        0 <= old <= new,
        per_slab >= 1,
        size >= 1,
        per_slab * size <= SLAB_SIZE,
    ensures
        map_frames(old, new, per_slab, size) == total_pages(new, per_slab, size) - total_pages(old, per_slab, size),
{
    let os = old / per_slab;
    let oo = old % per_slab;
    let ns = new / per_slab;
    let no = new % per_slab;
    vstd::arithmetic::div_mod::lemma_fundamental_div_mod(old, per_slab);
    vstd::arithmetic::div_mod::lemma_fundamental_div_mod(new, per_slab);
    vstd::arithmetic::div_mod::lemma_div_is_ordered(old, new, per_slab);
    assert(oo * size <= SLAB_SIZE && no * size <= SLAB_SIZE) by (nonlinear_arith)
        requires 0 <= oo < per_slab, 0 <= no < per_slab, per_slab * size <= SLAB_SIZE, size >= 1;
    assert(0 <= slab_pages(oo, size) <= SLAB_PAGE_COUNT);
    assert(0 <= slab_pages(no, size) <= SLAB_PAGE_COUNT);
    assert(slab_pages(0, size) == 0);
    if os == ns {
        assert(oo <= no);
        assert(oo * size <= no * size) by (nonlinear_arith)
            requires oo <= no, size >= 1;
        assert(slab_pages(oo, size) <= slab_pages(no, size));
    }
}

/// A helper of the fixed size allocator: `SLAB_COUNT` slabs of `SLAB_SIZE` bytes, cut into
/// allocations of `size` bytes. Slabs are reserved whole as they are needed, and mapped
/// page by page as far as the allocations in use need; the owner tells how many there are.
/// A slab not reserved starts at the zero page.
#[derive(Debug)]
pub struct Quarry {
    /// The size of an allocation.
    size: usize,
    /// The number of allocations in a slab.
    slab_allocation_count: usize,
    /// The first pages of the slabs.
    slabs: [Page; 16],
}

impl Quarry {
    /// The size of an allocation.
    pub closed spec fn spec_size(&self) -> int {
        self.size as int
    }

    /// The number of allocations in a slab.
    pub closed spec fn spec_per_slab(&self) -> int {
        self.slab_allocation_count as int
    }

    /// The first pages of the slabs.
    pub closed spec fn spec_slabs(&self) -> Seq<Page> {
        self.slabs@
    }

    /// The number of allocations that the quarry holds.
    pub open spec fn spec_capacity(&self) -> int {
        self.spec_per_slab() * SLAB_COUNT
    }

    /// The size is positive and fits into a slab as many times as a slab holds allocations,
    /// and every reserved slab is a valid block of pages.
    pub closed spec fn wf(&self) -> bool {
        &&& 0 < self.size <= SLAB_SIZE
        &&& self.slab_allocation_count == SLAB_SIZE / self.size
        &&& self.slabs@.len() == SLAB_COUNT
        &&& forall|i: int| 0 <= i < SLAB_COUNT ==> #[trigger] slab_valid(self.slabs@[i])
    }

    /// The block of pages of slab `index`.
    pub open spec fn spec_slab(&self, index: int) -> (int, int) {
        slab_of(self.spec_slabs()[index])
    }

    /// The bounds of a valid quarry.
    pub proof fn lemma_wf(&self)
        requires
            self.wf(),
        ensures
            0 < self.spec_size() <= SLAB_SIZE,
            self.spec_per_slab() == SLAB_SIZE as int / self.spec_size(),
            1 <= self.spec_per_slab() <= SLAB_SIZE,
            self.spec_per_slab() * self.spec_size() <= SLAB_SIZE,
            self.spec_slabs().len() == SLAB_COUNT,
            forall|i: int| 0 <= i < SLAB_COUNT ==> #[trigger] slab_valid(self.spec_slabs()[i]),
    {
        assert(self.slab_allocation_count * self.size <= SLAB_SIZE) by (nonlinear_arith)
            requires self.slab_allocation_count == SLAB_SIZE / self.size, self.size > 0;
        assert(self.slab_allocation_count >= 1) by (nonlinear_arith)
            requires self.slab_allocation_count == SLAB_SIZE / self.size, 0 < self.size <= SLAB_SIZE;
    }

    /// An empty quarry of allocations of `size` bytes.
    pub fn new(size: usize) -> (r: Self)
        requires
            0 < size <= SLAB_SIZE,
        ensures
            r.wf(),
            r.spec_size() == size,
            r.spec_per_slab() == SLAB_SIZE / size,
            forall|i: int| 0 <= i < SLAB_COUNT ==> (#[trigger] r.spec_slabs()[i])@ == 0,
    {
        let zero = Page::zero();
        let r = Quarry { size, slab_allocation_count: SLAB_SIZE / size, slabs: [zero; 16] };
        assert forall|i: int| 0 <= i < SLAB_COUNT implies #[trigger] slab_valid(r.slabs@[i]) by {
            assert(r.slabs@[i] == zero);
        }
        r
    }

    /// The size of an allocation.
    pub fn size(&self) -> (r: usize)
        ensures
            r == self.spec_size(),
    {
        self.size
    }

    /// The number of allocations that the quarry holds.
    pub fn capacity(&self) -> (r: usize)
        requires
            self.wf(),
        ensures
            r == self.spec_capacity(),
    {
        proof {
            self.lemma_wf();
        }
        self.slab_allocation_count * SLAB_COUNT
    }

    /// The slab number and the number within that slab of allocation `index`.
    pub fn allocation_coordinates(&self, index: usize) -> (r: (usize, usize))
        requires
            self.wf(),
        ensures
            (r.0 as int, r.1 as int) == coordinates(index as int, self.spec_per_slab()),
    {
        proof {
            self.lemma_wf();
        }
        (index / self.slab_allocation_count, index % self.slab_allocation_count)
    }

    /// The pages that `count` allocations at the start of a slab take.
    pub fn slab_page_count(&self, count: usize) -> (r: usize)
        requires
            self.wf(),
            count <= self.spec_per_slab(),
        ensures
            r == slab_pages(count as int, self.spec_size()),
            r <= SLAB_PAGE_COUNT,
    {
        proof {
            self.lemma_wf();
            assert(count * self.size <= SLAB_SIZE) by (nonlinear_arith)
                requires count <= self.slab_allocation_count, self.slab_allocation_count * self.size <= SLAB_SIZE;
        }
        (count * self.size + (PAGE_BYTES - 1)) / PAGE_BYTES
    }

    /// The block of pages of the slab that starts at page `start`, empty where `start`
    /// is the zero page.
    pub fn slab_at(start: Page) -> (r: Block<Page>)
        requires
            slab_valid(start),
        ensures
            r@ == slab_of(start),
            r.wf(),
    {
        proof {
            Page::lemma_type();
        }
        if start.address().into_usize() == 0 {
            let r = Block::<Page>::zero();
            proof {
                lemma_empty_slab_valid();
            }
            r
        } else {
            Block::from_count_unchecked(start, SLAB_PAGE_COUNT)
        }
    }

    /// The block of pages of slab `index`.
    pub fn slab(&self, index: usize) -> (r: Block<Page>)
        requires
            self.wf(),
            index < SLAB_COUNT,
        ensures
            r@ == self.spec_slab(index as int),
            r.wf(),
    {
        proof {
            self.lemma_wf();
        }
        Self::slab_at(self.slabs[index])
    }

    /// The address of allocation `index`, or the zero address where its slab is not reserved.
    pub fn allocation(&self, index: usize) -> (r: Virt)
        requires
            usize::BITS == 64,
            self.wf(),
            index < self.spec_capacity(),
        ensures
            ({
                let (slab, offset) = coordinates(index as int, self.spec_per_slab());
                let block = self.spec_slab(slab);
                if block.0 == block.1 {
                    r@ == 0
                } else {
                    r@ == block.0 * PAGE_BYTES + offset * self.spec_size()
                }
            }),
    {
        proof {
            self.lemma_wf();
        }
        let (slab_index, offset) = self.allocation_coordinates(index);
        proof {
            assert(slab_index < SLAB_COUNT) by (nonlinear_arith)
                requires
                    slab_index == index / self.slab_allocation_count,
                    index < self.slab_allocation_count * 16,
                    self.slab_allocation_count >= 1;
        }
        let slab = self.slab(slab_index);
        if slab.is_empty() {
            return Virt::zero();
        }
        proof {
            assert(offset * self.size < SLAB_SIZE) by (nonlinear_arith)
                requires offset < self.slab_allocation_count, self.slab_allocation_count * self.size <= SLAB_SIZE, self.size > 0;
            lemma_slab_address(self.slabs@[slab_index as int], offset * self.size);
        }
        slab.address_unchecked(offset * self.size)
    }

    /// The number of allocation `address` would have in slab `index`: the slab number times
    /// the allocations in a slab, plus the offset from the start of the slab over the size.
    pub open spec fn spec_index_in(&self, index: int, address: int) -> int {
        index * self.spec_per_slab() + (address - self.spec_slab(index).0 * PAGE_BYTES) / self.spec_size()
    }

    /// Whether slab `index` is the first reserved slab that contains `address`.
    pub open spec fn spec_first_containing(&self, index: int, address: int) -> bool {
        &&& 0 <= index < SLAB_COUNT
        &&& slab_contains(self.spec_slab(index), address)
        &&& forall|j: int| 0 <= j < index ==> !(#[trigger] slab_contains(self.spec_slab(j), address))
    }

    /// The number of the allocation at `address`: in the first reserved slab that contains
    /// it, its offset from the start of the slab over the size of an allocation.
    /// `None` where no reserved slab contains it.
    pub fn allocation_index(&self, address: Virt) -> (r: Option<usize>)
        requires
            usize::BITS == 64,
            self.wf(),
            forall|i: int| #[trigger] self.spec_first_containing(i, address@ as int)
                ==> self.spec_index_in(i, address@ as int) <= usize::MAX,
        ensures
            match r {
                None => forall|i: int| 0 <= i < SLAB_COUNT
                    ==> !(#[trigger] slab_contains(self.spec_slab(i), address@ as int)),
                Some(n) => exists|i: int| #[trigger] self.spec_first_containing(i, address@ as int)
                    && n == self.spec_index_in(i, address@ as int),
            },
    {
        proof {
            self.lemma_wf();
        }
        let mut slab_index: usize = 0;
        while slab_index < SLAB_COUNT
            invariant
                self.wf(),
                usize::BITS == 64,
                slab_index <= SLAB_COUNT,
                forall|i: int| #[trigger] self.spec_first_containing(i, address@ as int)
                    ==> self.spec_index_in(i, address@ as int) <= usize::MAX,
                forall|j: int| 0 <= j < slab_index ==> !(#[trigger] slab_contains(self.spec_slab(j), address@ as int)),
            decreases SLAB_COUNT - slab_index,
        {
            let slab = self.slab(slab_index);
            if !slab.is_empty() && slab.contains_address(address) {
                let offset = slab.offset_unchecked(address);
                proof {
                    self.lemma_wf();
                    assert(self.spec_first_containing(slab_index as int, address@ as int));
                    assert(self.spec_index_in(slab_index as int, address@ as int) <= usize::MAX);
                    assert(slab_index * self.slab_allocation_count <= 16 * SLAB_SIZE) by (nonlinear_arith)
                        requires slab_index < 16, self.slab_allocation_count <= SLAB_SIZE;
                }
                return Some(slab_index * self.slab_allocation_count + offset / self.size);
            }
            slab_index = slab_index + 1;
        }
        None
    }

    /// Reserves, with the allocator of `fallback`, the slabs that `new_count` allocations
    /// use beyond those that `old_count` allocations use and are reserved already.
    /// On an error of the allocator the slabs reserved before it stay.
    pub fn reserve<G: BigAllocatorGuard>(&mut self, old_count: usize, new_count: usize, fallback: &G) -> (r: Result<()>)
        requires
            old(self).wf(),
            old_count < new_count <= old(self).spec_capacity(),
        ensures
            final(self).wf(),
            final(self).spec_size() == old(self).spec_size(),
            final(self).spec_per_slab() == old(self).spec_per_slab(),
            forall|i: int| 0 <= i < SLAB_COUNT && !(slabs_used(old_count as int, old(self).spec_per_slab()) <= i
                < slabs_used(new_count as int, old(self).spec_per_slab()))
                ==> #[trigger] final(self).spec_slabs()[i] == old(self).spec_slabs()[i],
            r is Ok ==> forall|i: int| slabs_used(old_count as int, old(self).spec_per_slab()) <= i
                < slabs_used(new_count as int, old(self).spec_per_slab())
                ==> (#[trigger] final(self).spec_slabs()[i])@ != 0,
            slabs_used(old_count as int, old(self).spec_per_slab()) == slabs_used(new_count as int, old(self).spec_per_slab())
                ==> r is Ok,
    {
        let mut allocator = fallback.get();
        let mut calls = PageCalls::new(&mut allocator);
        self.reserve_with(old_count, new_count, &mut calls)
    }

    /// Reserves, with the allocator behind `allocator`, the slabs that `new_count` allocations
    /// use beyond those that `old_count` allocations use and are reserved already.
    /// On an error of the allocator the slabs reserved before it stay.
    /// Each slab is asked for with `reserve` of `SLAB_SIZE` bytes aligned to a page, one call
    /// per slab, stopping at the first error.
    pub fn reserve_with<A: BigAllocator>(&mut self, old_count: usize, new_count: usize, allocator: &mut PageCalls<A>) -> (r: Result<()>)
        requires
            old(self).wf(),
            old_count < new_count <= old(self).spec_capacity(),
        ensures
            final(self).wf(),
            final(self).spec_size() == old(self).spec_size(),
            final(self).spec_per_slab() == old(self).spec_per_slab(),
            forall|i: int| 0 <= i < SLAB_COUNT && !(slabs_used(old_count as int, old(self).spec_per_slab()) <= i
                < slabs_used(new_count as int, old(self).spec_per_slab()))
                ==> #[trigger] final(self).spec_slabs()[i] == old(self).spec_slabs()[i],
            r is Ok ==> forall|i: int| slabs_used(old_count as int, old(self).spec_per_slab()) <= i
                < slabs_used(new_count as int, old(self).spec_per_slab())
                ==> (#[trigger] final(self).spec_slabs()[i])@ != 0,
            slabs_used(old_count as int, old(self).spec_per_slab()) == slabs_used(new_count as int, old(self).spec_per_slab())
                ==> r is Ok,
            calls_extend(old(allocator).spec_calls(), final(allocator).spec_calls()),
            ({
                let tail = calls_after(old(allocator).spec_calls(), final(allocator).spec_calls());
                let count = slabs_used(new_count as int, old(self).spec_per_slab())
                    - slabs_used(old_count as int, old(self).spec_per_slab());
                &&& are_slab_reserves(tail)
                &&& r is Ok ==> tail.len() == count
                &&& r is Err ==> 0 < tail.len() <= count
            }),
    {
        proof {
            self.lemma_wf();
        }
        let (old_slab, old_offset) = self.allocation_coordinates(old_count);
        let (new_slab, new_offset) = self.allocation_coordinates(new_count);
        let first = if old_offset > 0 { old_slab + 1 } else { old_slab };
        let last = if new_offset > 0 { new_slab + 1 } else { new_slab };
        proof {
            lemma_slabs_used_monotone(old_count as int, new_count as int, self.slab_allocation_count as int);
            assert(new_slab <= SLAB_COUNT) by (nonlinear_arith)
                requires new_slab == new_count / self.slab_allocation_count, new_count <= self.slab_allocation_count * 16, self.slab_allocation_count >= 1;
            assert(new_slab == SLAB_COUNT ==> new_offset == 0) by (nonlinear_arith)
                requires
                    new_slab == new_count / self.slab_allocation_count,
                    new_offset == new_count % self.slab_allocation_count,
                    new_count <= self.slab_allocation_count * 16,
                    self.slab_allocation_count >= 1;
        }
        let ghost before = allocator.spec_calls();
        let mut slab_index = first;
        while slab_index < last
            invariant
                self.wf(),
                self.size == old(self).size,
                self.slab_allocation_count == old(self).slab_allocation_count,
                first <= slab_index <= last <= SLAB_COUNT,
                first == slabs_used(old_count as int, old(self).spec_per_slab()),
                last == slabs_used(new_count as int, old(self).spec_per_slab()),
                forall|i: int| 0 <= i < SLAB_COUNT && !(first <= i < slab_index)
                    ==> #[trigger] self.slabs@[i] == old(self).slabs@[i],
                forall|i: int| first <= i < slab_index ==> (#[trigger] self.slabs@[i])@ != 0,
                before == old(allocator).spec_calls(),
                calls_extend(before, allocator.spec_calls()),
                are_slab_reserves(calls_after(before, allocator.spec_calls())),
                calls_after(before, allocator.spec_calls()).len() == slab_index - first,
            decreases last - slab_index,
        {
            let ghost prior = allocator.spec_calls();
            let result = allocator.reserve(SLAB_SIZE, PAGE_BYTES);
            proof {
                lemma_calls_step(before, prior, allocator.spec_calls());
                let tail = calls_after(before, allocator.spec_calls());
                assert(tail.last() == PageCall::Reserve(SLAB_SIZE, PAGE_BYTES));
                assert forall|k: int| 0 <= k < tail.len() implies #[trigger] tail[k] == PageCall::Reserve(SLAB_SIZE, PAGE_BYTES) by {
                    if k < tail.len() - 1 {
                        assert(tail[k] == calls_after(before, prior)[k]);
                    }
                }
            }
            let block = match result {
                Ok(b) => b,
                Err(e) => return Err(e),
            };
            proof {
                Page::lemma_type();
                lemma_reserved_slab(block);
            }
            let start = block.start_element();
            proof {
                lemma_reserved_slab_start(block, start);
                assert(start@ == block@.0 * 4096);
            }
            self.slabs[slab_index] = start;
            slab_index = slab_index + 1;
        }
        Ok(())
    }

    /// Maps, with the allocator of `fallback`, the pages that `new_count` allocations need
    /// beyond those that `old_count` allocations need and are mapped already, after
    /// reserving the slabs they need (see `reserve`). The pages of a slab are mapped from
    /// its start; as whole pages may hold more allocations than asked for, `new_count`
    /// becomes the number that the mapped pages hold (see `mapped_count`).
    /// Returns the number of pages mapped (see `map_frames`).
    /// On an error of the allocator what was reserved and mapped before it stays.
    pub fn map<G: BigAllocatorGuard>(&mut self, old_count: usize, new_count: &mut usize, fallback: &G) -> (r: Result<usize>)
        requires
            usize::BITS == 64,
            old(self).wf(),
            old_count < *old(new_count) <= old(self).spec_capacity(),
            forall|i: int| 0 <= i < slabs_used(old_count as int, old(self).spec_per_slab())
                ==> (#[trigger] old(self).spec_slabs()[i])@ != 0,
        ensures
            final(self).wf(),
            final(self).spec_size() == old(self).spec_size(),
            final(self).spec_per_slab() == old(self).spec_per_slab(),
            forall|i: int| 0 <= i < slabs_used(old_count as int, old(self).spec_per_slab())
                ==> #[trigger] final(self).spec_slabs()[i] == old(self).spec_slabs()[i],
            r is Err ==> *final(new_count) == *old(new_count),
            r matches Ok(frames) ==> {
                &&& frames == map_frames(old_count as int, *old(new_count) as int, old(self).spec_per_slab(), old(self).spec_size())
                &&& *final(new_count) == mapped_count(*old(new_count) as int, old(self).spec_per_slab(), old(self).spec_size())
                &&& forall|i: int| 0 <= i < slabs_used(*old(new_count) as int, old(self).spec_per_slab())
                    ==> (#[trigger] final(self).spec_slabs()[i])@ != 0
            },
            slabs_used(old_count as int, old(self).spec_per_slab()) == slabs_used(*old(new_count) as int, old(self).spec_per_slab())
                && map_frames(old_count as int, *old(new_count) as int, old(self).spec_per_slab(), old(self).spec_size()) == 0
                ==> r is Ok,
    {
        let mut allocator = fallback.get();
        let mut calls = PageCalls::new(&mut allocator);
        self.map_with(old_count, new_count, &mut calls)
    }

    /// Maps, with the allocator behind `allocator`, the pages that `new_count` allocations need
    /// beyond those that `old_count` allocations need and are mapped already, after
    /// reserving the slabs they need (see `reserve`). The pages of a slab are mapped from
    /// its start; as whole pages may hold more allocations than asked for, `new_count`
    /// becomes the number that the mapped pages hold (see `mapped_count`).
    /// Returns the number of pages mapped (see `map_frames`).
    /// On an error of the allocator what was reserved and mapped before it stays.
    /// The calls are the slab reserves of `reserve_with`, then `map` of each block of
    /// `map_plan`, in its order, stopping at the first error.
    pub fn map_with<A: BigAllocator>(&mut self, old_count: usize, new_count: &mut usize, allocator: &mut PageCalls<A>) -> (r: Result<usize>)
        requires
            usize::BITS == 64,
            old(self).wf(),
            old_count < *old(new_count) <= old(self).spec_capacity(),
            forall|i: int| 0 <= i < slabs_used(old_count as int, old(self).spec_per_slab())
                ==> (#[trigger] old(self).spec_slabs()[i])@ != 0,
        ensures
            final(self).wf(),
            final(self).spec_size() == old(self).spec_size(),
            final(self).spec_per_slab() == old(self).spec_per_slab(),
            forall|i: int| 0 <= i < slabs_used(old_count as int, old(self).spec_per_slab())
                ==> #[trigger] final(self).spec_slabs()[i] == old(self).spec_slabs()[i],
            r is Err ==> *final(new_count) == *old(new_count),
            r matches Ok(frames) ==> {
                &&& frames == map_frames(old_count as int, *old(new_count) as int, old(self).spec_per_slab(), old(self).spec_size())
                &&& *final(new_count) == mapped_count(*old(new_count) as int, old(self).spec_per_slab(), old(self).spec_size())
                &&& forall|i: int| 0 <= i < slabs_used(*old(new_count) as int, old(self).spec_per_slab())
                    ==> (#[trigger] final(self).spec_slabs()[i])@ != 0
            },
            slabs_used(old_count as int, old(self).spec_per_slab()) == slabs_used(*old(new_count) as int, old(self).spec_per_slab())
                && map_frames(old_count as int, *old(new_count) as int, old(self).spec_per_slab(), old(self).spec_size()) == 0
                ==> r is Ok,
            calls_extend(old(allocator).spec_calls(), final(allocator).spec_calls()),
            ({
                let tail = calls_after(old(allocator).spec_calls(), final(allocator).spec_calls());
                let reserves = slabs_used(*old(new_count) as int, old(self).spec_per_slab())
                    - slabs_used(old_count as int, old(self).spec_per_slab());
                let plan = map_plan(final(self).spec_slabs(), old_count as int, *old(new_count) as int,
                    old(self).spec_per_slab(), old(self).spec_size());
                &&& follows_map_plan(tail, reserves, plan)
                &&& r is Ok ==> tail.len() == reserves + plan.len()
                &&& r is Err ==> tail.len() > 0
            }),
    {
        proof {
            self.lemma_wf();
            lemma_slabs_used_monotone(old_count as int, *new_count as int, self.slab_allocation_count as int);
            lemma_slabs_used_bound(*new_count as int, self.slab_allocation_count as int);
        }
        let requested = *new_count;
        let ghost before = allocator.spec_calls();
        let ghost reserves = slabs_used(requested as int, self.spec_per_slab()) - slabs_used(old_count as int, self.spec_per_slab());
        let reserved_result = self.reserve_with(old_count, requested, &mut *allocator);
        proof {
            assert(calls_extend(before, allocator.spec_calls()));
            assert(are_slab_reserves(calls_after(before, allocator.spec_calls())));
            lemma_reserves_follow(calls_after(before, allocator.spec_calls()), reserves,
                map_plan(self.spec_slabs(), old_count as int, requested as int, self.spec_per_slab(), self.spec_size()));
        }
        match reserved_result {
            Ok(()) => {},
            Err(e) => return Err(e),
        }
        proof {
            self.lemma_wf();
            assert forall|i: int| 0 <= i < slabs_used(requested as int, self.slab_allocation_count as int)
                implies (#[trigger] self.slabs@[i])@ != 0 by {
                if i < slabs_used(old_count as int, self.slab_allocation_count as int) {
                    assert(self.spec_slabs()[i] == old(self).spec_slabs()[i]);
                }
            }
        }
        let ghost reserved = *self;
        let capacity = self.capacity();
        let (old_slab, old_offset) = self.allocation_coordinates(old_count);
        let old_pages = self.slab_page_count(old_offset);
        let (new_slab, new_offset) = self.allocation_coordinates(requested);
        proof {
            assert(old_slab < SLAB_COUNT) by (nonlinear_arith)
                requires old_slab == old_count / self.slab_allocation_count, old_count < self.slab_allocation_count * 16, self.slab_allocation_count >= 1;
            assert(new_slab <= SLAB_COUNT) by (nonlinear_arith)
                requires new_slab == requested / self.slab_allocation_count, requested <= self.slab_allocation_count * 16, self.slab_allocation_count >= 1;
            assert(new_slab == SLAB_COUNT ==> new_offset == 0) by (nonlinear_arith)
                requires
                    new_slab == requested / self.slab_allocation_count,
                    new_offset == requested % self.slab_allocation_count,
                    requested <= self.slab_allocation_count * 16,
                    self.slab_allocation_count >= 1;
            assert(new_slab >= old_slab) by {
                vstd::arithmetic::div_mod::lemma_div_is_ordered(old_count as int, requested as int, self.slab_allocation_count as int);
            }
            assert(new_slab == old_slab ==> new_offset > old_offset) by (nonlinear_arith)
                requires
                    new_slab == requested / self.slab_allocation_count,
                    new_offset == requested % self.slab_allocation_count,
                    old_slab == old_count / self.slab_allocation_count,
                    old_offset == old_count % self.slab_allocation_count,
                    old_count < requested,
                    self.slab_allocation_count >= 1;
        }
        let new_pages = self.slab_page_count(new_offset);
        let ghost plan = map_plan(self.spec_slabs(), old_count as int, requested as int, self.spec_per_slab(), self.spec_size());
        let ghost head: int = if old_slab != new_slab && old_offset > 0 && old_pages < SLAB_PAGE_COUNT { 1 } else { 0 };
        proof {
            lemma_map_plan(self.spec_slabs(), old_count as int, requested as int, self.spec_per_slab(), self.spec_size());
        }
        let ghost total = map_frames(old_count as int, *old(new_count) as int, old(self).spec_per_slab(), old(self).spec_size());
        proof {
            if new_offset > 0 {
                assert(new_offset * self.size >= 1) by (nonlinear_arith)
                    requires new_offset >= 1, self.size >= 1;
            }
        }
        let mut frames: usize = 0;
        if old_slab == new_slab {
            if old_pages < new_pages {
                let slab = self.slab(old_slab);
                proof {
                    lemma_sub_slab(self.slabs@[old_slab as int], old_pages as int, new_pages as int);
                }
                let block = slab.slice(old_pages..new_pages).unwrap();
                let flags = allocator.flags();
                let ghost prior = allocator.spec_calls();
                let mapped = allocator.map(block, flags);
                proof {
                    lemma_follows_map_push(before, prior, allocator.spec_calls(), reserves, plan, block, flags);
                }
                match mapped {
                    Ok(()) => {},
                    Err(e) => return Err(e),
                }
                frames = new_pages - old_pages;
            }
        } else {
            let first_whole = if old_offset > 0 {
                if old_pages < SLAB_PAGE_COUNT {
                    let slab = self.slab(old_slab);
                    proof {
                        lemma_sub_slab(self.slabs@[old_slab as int], old_pages as int, SLAB_PAGE_COUNT as int);
                    }
                    let block = slab.slice(old_pages..SLAB_PAGE_COUNT).unwrap();
                    let flags = allocator.flags();
                    let ghost prior = allocator.spec_calls();
                    let mapped = allocator.map(block, flags);
                    proof {
                        lemma_follows_map_push(before, prior, allocator.spec_calls(), reserves, plan, block, flags);
                    }
                    match mapped {
                        Ok(()) => {},
                        Err(e) => return Err(e),
                    }
                    frames = SLAB_PAGE_COUNT - old_pages;
                }
                old_slab + 1
            } else {
                old_slab
            };
            let mut slab_index = first_whole;
            while slab_index < new_slab
                invariant
                    first_whole < new_slab ==> total > 0,
                    total == map_frames(old_count as int, *old(new_count) as int, old(self).spec_per_slab(), old(self).spec_size()),
                    self.wf(),
                    *self == reserved,
                    self.size == old(self).size,
                    self.slab_allocation_count == old(self).slab_allocation_count,
                    forall|i: int| 0 <= i < slabs_used(old_count as int, old(self).spec_per_slab())
                        ==> #[trigger] self.spec_slabs()[i] == old(self).spec_slabs()[i],
                    first_whole <= slab_index <= new_slab <= SLAB_COUNT,
                    frames == (if old_offset > 0 && old_pages < SLAB_PAGE_COUNT { SLAB_PAGE_COUNT - old_pages } else { 0 })
                        + (slab_index - first_whole) * SLAB_PAGE_COUNT,
                    old_pages <= SLAB_PAGE_COUNT,
                    plan == map_plan(reserved.spec_slabs(), old_count as int, requested as int, reserved.spec_per_slab(), reserved.spec_size()),
                    first_whole == (if old_offset > 0 { old_slab + 1 } else { old_slab as int }),
                    head == (if old_offset > 0 && old_pages < SLAB_PAGE_COUNT { 1int } else { 0int }),
                    head + (new_slab - first_whole) <= plan.len(),
                    forall|k: int| 0 <= k < new_slab - first_whole ==> #[trigger] plan[head + k] == slab_of(reserved.spec_slabs()[first_whole + k]),
                    before == old(allocator).spec_calls(),
                    requested == *old(new_count),
                    reserves == slabs_used(*old(new_count) as int, old(self).spec_per_slab())
                        - slabs_used(old_count as int, old(self).spec_per_slab()),
                    calls_extend(before, allocator.spec_calls()),
                    follows_map_plan(calls_after(before, allocator.spec_calls()), reserves, plan),
                    calls_after(before, allocator.spec_calls()).len() == reserves + head + (slab_index - first_whole),
                decreases new_slab - slab_index,
            {
                let slab = self.slab(slab_index);
                let flags = allocator.flags();
                let ghost prior = allocator.spec_calls();
                let mapped = allocator.map(slab, flags);
                proof {
                    assert(plan[head + (slab_index - first_whole)] == slab_of(reserved.spec_slabs()[slab_index as int]));
                    lemma_follows_map_push(before, prior, allocator.spec_calls(), reserves, plan, slab, flags);
                }
                match mapped {
                    Ok(()) => {},
                    Err(e) => return Err(e),
                }
                frames = frames + SLAB_PAGE_COUNT;
                slab_index = slab_index + 1;
            }
            if new_offset > 0 {
                let slab = self.slab(new_slab);
                proof {
                    assert(new_offset * self.size >= 1) by (nonlinear_arith)
                        requires new_offset >= 1, self.size >= 1;
                    assert(new_slab < slabs_used(requested as int, self.slab_allocation_count as int));
                    lemma_sub_slab(self.slabs@[new_slab as int], 0, new_pages as int);
                }
                let block = slab.slice(0..new_pages).unwrap();
                let flags = allocator.flags();
                let ghost prior = allocator.spec_calls();
                let mapped = allocator.map(block, flags);
                proof {
                    lemma_follows_map_push(before, prior, allocator.spec_calls(), reserves, plan, block, flags);
                }
                match mapped {
                    Ok(()) => {},
                    Err(e) => return Err(e),
                }
                frames = frames + new_pages;
            }
        }
        if requested != capacity {
            proof {
                assert(new_slab * self.slab_allocation_count <= 16 * self.slab_allocation_count) by (nonlinear_arith)
                    requires new_slab <= 16;
            }
            let in_slab = new_pages * PAGE_BYTES / self.size;
            let in_slab = if in_slab < self.slab_allocation_count { in_slab } else { self.slab_allocation_count };
            let total = new_slab * self.slab_allocation_count + in_slab;
            *new_count = if total < capacity { total } else { capacity };
        } else {
            proof {
                vstd::arithmetic::div_mod::lemma_fundamental_div_mod_converse(
                    requested as int, self.slab_allocation_count as int, 16, 0);
                assert(0 * (self.size as int) == 0);
                assert(mapped_count(requested as int, self.slab_allocation_count as int, self.size as int) == capacity);
            }
        }
        Ok(frames)
    }

    /// Unmaps and frees, with the allocator of `fallback`, all the pages and slabs that
    /// `count` allocations use: the whole slabs before the slab of `count` and the mapped
    /// pages of that slab. Returns the number of pages unmapped.
    /// On an error of the allocator the slabs freed before it are marked free.
    pub fn unmap<G: BigAllocatorGuard>(&mut self, count: usize, fallback: &G) -> (r: Result<usize>)
        requires
            usize::BITS == 64,
            old(self).wf(),
            count <= old(self).spec_capacity(),
            forall|i: int| 0 <= i < slabs_used(count as int, old(self).spec_per_slab())
                ==> (#[trigger] old(self).spec_slabs()[i])@ != 0,
        ensures
            final(self).wf(),
            final(self).spec_size() == old(self).spec_size(),
            final(self).spec_per_slab() == old(self).spec_per_slab(),
            forall|i: int| slabs_used(count as int, old(self).spec_per_slab()) <= i < SLAB_COUNT
                ==> #[trigger] final(self).spec_slabs()[i] == old(self).spec_slabs()[i],
            r matches Ok(frames) ==> {
                let (slab, offset) = coordinates(count as int, old(self).spec_per_slab());
                &&& frames == slab * SLAB_PAGE_COUNT + if offset > 0 { slab_pages(offset, old(self).spec_size()) } else { 0 }
                &&& forall|i: int| 0 <= i < slabs_used(count as int, old(self).spec_per_slab())
                    ==> (#[trigger] final(self).spec_slabs()[i])@ == 0
            },
            count == 0 ==> r is Ok,
    {
        let mut allocator = fallback.get();
        let mut calls = PageCalls::new(&mut allocator);
        self.unmap_with(count, &mut calls)
    }

    /// Unmaps and frees, with the allocator behind `allocator`, all the pages and slabs that
    /// `count` allocations use: the whole slabs before the slab of `count` and the mapped
    /// pages of that slab. Returns the number of pages unmapped.
    /// On an error of the allocator the slabs freed before it are marked free.
    /// The calls are those of `unmap_plan`, in its order, stopping at the first error.
    pub fn unmap_with<A: BigAllocator>(&mut self, count: usize, allocator: &mut PageCalls<A>) -> (r: Result<usize>)
        requires
            usize::BITS == 64,
            old(self).wf(),
            count <= old(self).spec_capacity(),
            forall|i: int| 0 <= i < slabs_used(count as int, old(self).spec_per_slab())
                ==> (#[trigger] old(self).spec_slabs()[i])@ != 0,
        ensures
            final(self).wf(),
            final(self).spec_size() == old(self).spec_size(),
            final(self).spec_per_slab() == old(self).spec_per_slab(),
            forall|i: int| slabs_used(count as int, old(self).spec_per_slab()) <= i < SLAB_COUNT
                ==> #[trigger] final(self).spec_slabs()[i] == old(self).spec_slabs()[i],
            r matches Ok(frames) ==> {
                let (slab, offset) = coordinates(count as int, old(self).spec_per_slab());
                &&& frames == slab * SLAB_PAGE_COUNT + if offset > 0 { slab_pages(offset, old(self).spec_size()) } else { 0 }
                &&& forall|i: int| 0 <= i < slabs_used(count as int, old(self).spec_per_slab())
                    ==> (#[trigger] final(self).spec_slabs()[i])@ == 0
            },
            count == 0 ==> r is Ok,
            calls_extend(old(allocator).spec_calls(), final(allocator).spec_calls()),
            ({
                let tail = calls_after(old(allocator).spec_calls(), final(allocator).spec_calls());
                let plan = unmap_plan(old(self).spec_slabs(), count as int, old(self).spec_per_slab(), old(self).spec_size());
                &&& follows_unmap_plan(tail, plan)
                &&& r is Ok ==> tail.len() == plan.len()
                &&& r is Err ==> tail.len() > 0
            }),
    {
        proof {
            self.lemma_wf();
        }
        let (slab_index, offset) = self.allocation_coordinates(count);
        proof {
            assert(slab_index <= SLAB_COUNT) by (nonlinear_arith)
                requires slab_index == count / self.slab_allocation_count, count <= self.slab_allocation_count * 16, self.slab_allocation_count >= 1;
            assert(slab_index == SLAB_COUNT ==> offset == 0) by (nonlinear_arith)
                requires
                    slab_index == count / self.slab_allocation_count,
                    offset == count % self.slab_allocation_count,
                    count <= self.slab_allocation_count * 16,
                    self.slab_allocation_count >= 1;
        }
        proof {
            if count == 0 {
                assert(slab_index == 0 && offset == 0) by (nonlinear_arith)
                    requires
                        slab_index == count / self.slab_allocation_count,
                        offset == count % self.slab_allocation_count,
                        count == 0,
                        self.slab_allocation_count >= 1;
            }
        }
        let page_count = self.slab_page_count(offset);
        let ghost before = allocator.spec_calls();
        let ghost plan = unmap_plan(self.spec_slabs(), count as int, self.spec_per_slab(), self.spec_size());
        let mut frames: usize = 0;
        let mut i: usize = 0;
        while i < slab_index
            invariant
                count == 0 ==> slab_index == 0,
                self.wf(),
                self.size == old(self).size,
                self.slab_allocation_count == old(self).slab_allocation_count,
                i <= slab_index <= SLAB_COUNT,
                slab_index == count as int / old(self).spec_per_slab(),
                offset == count as int % old(self).spec_per_slab(),
                slab_index == SLAB_COUNT ==> offset == 0,
                frames == i * SLAB_PAGE_COUNT,
                forall|j: int| 0 <= j < i ==> (#[trigger] self.slabs@[j])@ == 0,
                forall|j: int| i <= j < SLAB_COUNT ==> #[trigger] self.slabs@[j] == old(self).slabs@[j],
                plan == unmap_plan(old(self).spec_slabs(), count as int, old(self).spec_per_slab(), old(self).spec_size()),
                old(self).spec_per_slab() >= 1,
                before == old(allocator).spec_calls(),
                calls_extend(before, allocator.spec_calls()),
                follows_unmap_plan(calls_after(before, allocator.spec_calls()), plan),
                calls_after(before, allocator.spec_calls()).len() == 2 * i,
            decreases slab_index - i,
        {
            let slab = self.slab(i);
            let ghost prior = allocator.spec_calls();
            let unmapped = allocator.unmap(slab);
            proof {
                lemma_unmap_plan_whole(old(self).spec_slabs(), count as int, old(self).spec_per_slab(), old(self).spec_size(), i as int);
                lemma_calls_step(before, prior, allocator.spec_calls());
                let tail = calls_after(before, allocator.spec_calls());
                assert(tail[2 * i] == PageCall::Unmap(slab));
                assert(follows_unmap_plan(tail, plan)) by {
                    assert forall|k: int| 0 <= k < tail.len() implies #[trigger] follows_unmap_call(tail[k], plan[k]) by {
                        if k < 2 * i {
                            assert(tail[k] == calls_after(before, prior)[k]);
                        }
                    }
                }
            }
            match unmapped {
                Ok(()) => {},
                Err(e) => return Err(e),
            }
            let ghost prior = allocator.spec_calls();
            let unreserved = allocator.unreserve(slab);
            proof {
                lemma_calls_step(before, prior, allocator.spec_calls());
                let tail = calls_after(before, allocator.spec_calls());
                assert(tail[2 * i + 1] == PageCall::Unreserve(slab));
                assert(follows_unmap_plan(tail, plan)) by {
                    assert forall|k: int| 0 <= k < tail.len() implies #[trigger] follows_unmap_call(tail[k], plan[k]) by {
                        if k < 2 * i + 1 {
                            assert(tail[k] == calls_after(before, prior)[k]);
                        }
                    }
                }
            }
            match unreserved {
                Ok(()) => {},
                Err(e) => return Err(e),
            }
            frames = frames + SLAB_PAGE_COUNT;
            proof {
                Page::lemma_type();
            }
            self.slabs[i] = Page::zero();
            proof {
                lemma_empty_slab_valid();
                assert(slab_valid(self.slabs@[i as int]));
            }
            i = i + 1;
        }
        if offset > 0 {
            let slab = self.slab(slab_index);
            proof {
                if page_count > 0 {
                    lemma_sub_slab(self.slabs@[slab_index as int], 0, page_count as int);
                }
            }
            let mapped = if page_count > 0 { slab.slice(0..page_count).unwrap() } else { Block::zero() };
            let ghost prior = allocator.spec_calls();
            let unmapped = allocator.unmap(mapped);
            proof {
                lemma_unmap_plan_partial(old(self).spec_slabs(), count as int, old(self).spec_per_slab(), old(self).spec_size());
                lemma_calls_step(before, prior, allocator.spec_calls());
                let tail = calls_after(before, allocator.spec_calls());
                assert(tail[2 * slab_index as int] == PageCall::Unmap(mapped));
                assert(follows_unmap_plan(tail, plan)) by {
                    assert forall|k: int| 0 <= k < tail.len() implies #[trigger] follows_unmap_call(tail[k], plan[k]) by {
                        if k < 2 * slab_index {
                            assert(tail[k] == calls_after(before, prior)[k]);
                        }
                    }
                }
            }
            match unmapped {
                Ok(()) => {},
                Err(e) => return Err(e),
            }
            let ghost prior = allocator.spec_calls();
            let unreserved = allocator.unreserve(slab);
            proof {
                lemma_calls_step(before, prior, allocator.spec_calls());
                let tail = calls_after(before, allocator.spec_calls());
                assert(tail[2 * slab_index + 1] == PageCall::Unreserve(slab));
                assert(follows_unmap_plan(tail, plan)) by {
                    assert forall|k: int| 0 <= k < tail.len() implies #[trigger] follows_unmap_call(tail[k], plan[k]) by {
                        if k < 2 * slab_index + 1 {
                            assert(tail[k] == calls_after(before, prior)[k]);
                        }
                    }
                }
            }
            match unreserved {
                Ok(()) => {},
                Err(e) => return Err(e),
            }
            frames = frames + page_count;
            proof {
                Page::lemma_type();
            }
            self.slabs[slab_index] = Page::zero();
            proof {
                lemma_empty_slab_valid();
                assert(slab_valid(self.slabs@[slab_index as int]));
            }
        }
        Ok(frames)
    }
}

/// A part `[from, to)` of a reserved slab is a valid block.
proof fn lemma_sub_slab(start: Page, from: int, to: int)
    requires
        slab_valid(start),
        start@ != 0,
        0 <= from < to <= SLAB_PAGE_COUNT,
    ensures
        valid_block::<Page>(start.spec_index() + from, start.spec_index() + to),
{
    Page::lemma_type();
    VirtTag::lemma_align();
    let s = start.spec_index();
    let e = s + SLAB_PAGE_COUNT;
    assert(valid_index::<Page>(s) && valid_index::<Page>(e - 1));
    let a = (s * 4096) as usize;
    let b = ((e - 1) * 4096) as usize;
    assert(s * 4096 <= (s + from) * 4096 <= (s + to - 1) * 4096 <= (e - 1) * 4096) by (nonlinear_arith)
        requires 0 <= from < to <= 256, e == s + 256;
    let x = ((s + from) * 4096) as usize;
    let y = ((s + to - 1) * 4096) as usize;
    VirtTag::lemma_between(a, x, b);
    VirtTag::lemma_between(a, y, b);
    VirtTag::lemma_same_half_equivalence(x, a, y);
    assert(last_index(s + from, s + to) == s + to - 1);
}

/// No more than all the slabs are used.
proof fn lemma_slabs_used_bound(count: int, per_slab: int)
    requires
        0 <= count <= per_slab * SLAB_COUNT,
        per_slab >= 1,
    ensures
        slabs_used(count, per_slab) <= SLAB_COUNT,
{
    assert(count / per_slab <= 16) by (nonlinear_arith)
        requires 0 <= count <= per_slab * 16, per_slab >= 1;
    assert(count / per_slab == 16 ==> count % per_slab == 0) by (nonlinear_arith)
        requires 0 <= count <= per_slab * 16, per_slab >= 1;
}

/// More allocations use no fewer slabs.
pub proof fn lemma_slabs_used_monotone(old: int, new: int, per_slab: int)
    requires
        0 <= old <= new,
        per_slab >= 1,
    ensures
        slabs_used(old, per_slab) <= slabs_used(new, per_slab),
{
    vstd::arithmetic::div_mod::lemma_div_is_ordered(old, new, per_slab);
    vstd::arithmetic::div_mod::lemma_fundamental_div_mod(old, per_slab);
    vstd::arithmetic::div_mod::lemma_fundamental_div_mod(new, per_slab);
    if old / per_slab == new / per_slab && old % per_slab > 0 {
        assert(new % per_slab >= old % per_slab);
    }
}

/// The slab of allocation `n` is among those that `len > n` allocations use.
pub proof fn lemma_slab_in_use(n: int, len: int, per_slab: int)
    requires
        0 <= n < len,
        per_slab >= 1,
    ensures
        n / per_slab < slabs_used(len, per_slab),
{
    lemma_slabs_used_monotone(n + 1, len, per_slab);
    vstd::arithmetic::div_mod::lemma_fundamental_div_mod(n, per_slab);
    vstd::arithmetic::div_mod::lemma_fundamental_div_mod(n + 1, per_slab);
    let q = n / per_slab;
    let r = n % per_slab;
    let q1 = (n + 1) / per_slab;
    let r1 = (n + 1) % per_slab;
    assert(q1 > q || (q1 == q && r1 > 0)) by (nonlinear_arith)
        requires
            n == per_slab * q + r,
            n + 1 == per_slab * q1 + r1,
            0 <= r < per_slab,
            0 <= r1 < per_slab,
    ;
}

/// A reserved slab starts past the null page.
pub proof fn lemma_reserved_slab_nonnull(q: Quarry, index: int)
    requires
        q.wf(),
        0 <= index < SLAB_COUNT,
        q.spec_slabs()[index]@ != 0,
    ensures
        1 <= q.spec_slab(index).0 < q.spec_slab(index).1,
{
    let start = q.spec_slabs()[index];
    assert(slab_valid(q.slabs@[index]));
    assert(start@ % 4096 == 0);
    assert(start@ >= 4096);
}

/// What `unmap_with` hands the allocator for `count` allocations over the slabs `slabs`, in
/// order, each entry `(true, pages)` for `unmap` and `(false, pages)` for `unreserve`: for each
/// whole slab before the slab of `count`, its pages unmapped then freed; then, where that slab
/// is used in part, its mapped pages (the empty block at zero where none) unmapped and the slab
/// freed.
pub open spec fn unmap_plan(slabs: Seq<Page>, count: int, per_slab: int, size: int) -> Seq<(bool, (int, int))> {
    let (slab, offset) = coordinates(count, per_slab);
    let whole = Seq::new((2 * slab) as nat, |j: int| (j % 2 == 0, slab_of(slabs[j / 2])));
    if offset > 0 {
        let pages = slab_pages(offset, size);
        let start = slab_of(slabs[slab]).0;
        let mapped = if pages > 0 { (start, start + pages) } else { (0int, 0int) };
        whole + seq![(true, mapped), (false, slab_of(slabs[slab]))]
    } else {
        whole
    }
}

/// Whether `call` is the call that the entry `step` of `unmap_plan` names.
pub open spec fn follows_unmap_call(call: PageCall, step: (bool, (int, int))) -> bool {
    if step.0 {
        is_unmap(call, step.1)
    } else {
        is_unreserve(call, step.1)
    }
}

/// Whether the calls `tail` are the first of the plan `plan`.
pub open spec fn follows_unmap_plan(tail: Seq<PageCall>, plan: Seq<(bool, (int, int))>) -> bool {
    &&& tail.len() <= plan.len()
    &&& forall|k: int| 0 <= k < tail.len() ==> #[trigger] follows_unmap_call(tail[k], plan[k])
}

/// One more call: the calls after `before` grow by the last one.
proof fn lemma_calls_step(before: Seq<PageCall>, prior: Seq<PageCall>, now: Seq<PageCall>)
    requires
        calls_extend(before, prior),
        now == prior.push(now.last()),
    ensures
        calls_extend(before, now),
        calls_after(before, now) =~= calls_after(before, prior).push(now.last()),
        calls_after(before, now).len() == calls_after(before, prior).len() + 1,
{
    assert(now.subrange(0, before.len() as int) =~= prior.subrange(0, before.len() as int));
}

/// The entries of `unmap_plan` for a whole slab `i` before the slab of `count`.
proof fn lemma_unmap_plan_whole(slabs: Seq<Page>, count: int, per_slab: int, size: int, i: int)
    requires
        per_slab >= 1,
        0 <= count,
        0 <= i < count / per_slab,
    ensures
        unmap_plan(slabs, count, per_slab, size).len() >= 2 * i + 2,
        unmap_plan(slabs, count, per_slab, size)[2 * i] == (true, slab_of(slabs[i])),
        unmap_plan(slabs, count, per_slab, size)[2 * i + 1] == (false, slab_of(slabs[i])),
{
    let (slab, offset) = coordinates(count, per_slab);
    let whole = Seq::new((2 * slab) as nat, |j: int| (j % 2 == 0, slab_of(slabs[j / 2])));
    assert((2 * i) / 2 == i && (2 * i + 1) / 2 == i && (2 * i) % 2 == 0 && (2 * i + 1) % 2 == 1);
    if offset > 0 {
        let plan = unmap_plan(slabs, count, per_slab, size);
        assert(plan[2 * i] == whole[2 * i]);
        assert(plan[2 * i + 1] == whole[2 * i + 1]);
    }
}

/// The last two entries of `unmap_plan` where the slab of `count` is used in part.
proof fn lemma_unmap_plan_partial(slabs: Seq<Page>, count: int, per_slab: int, size: int)
    requires
        per_slab >= 1,
        0 <= count,
        count % per_slab > 0,
    ensures
        ({
            let (slab, offset) = coordinates(count, per_slab);
            let plan = unmap_plan(slabs, count, per_slab, size);
            let pages = slab_pages(offset, size);
            let start = slab_of(slabs[slab]).0;
            &&& plan.len() == 2 * slab + 2
            &&& plan[2 * slab] == (true, if pages > 0 { (start, start + pages) } else { (0int, 0int) })
            &&& plan[2 * slab + 1] == (false, slab_of(slabs[slab]))
        }),
{
}

/// The first page of slab `index` of `slabs`.
pub open spec fn slab_start(slabs: Seq<Page>, index: int) -> int {
    slab_of(slabs[index]).0
}

/// The blocks of pages that `map_with` maps for growing from `old` to `new` allocations over
/// the reserved slabs `slabs`, in order: where both lie in one slab, its pages from those
/// that `old` allocations take to those that `new` take; else the rest of the slab of `old`
/// where it is used in part, every whole slab after it before the slab of `new`, and the
/// pages of the slab of `new` that `new` allocations take.
pub open spec fn map_plan(slabs: Seq<Page>, old: int, new: int, per_slab: int, size: int) -> Seq<(int, int)> {
    let (old_slab, old_offset) = coordinates(old, per_slab);
    let (new_slab, new_offset) = coordinates(new, per_slab);
    let old_pages = slab_pages(old_offset, size);
    let new_pages = slab_pages(new_offset, size);
    if old_slab == new_slab {
        if old_pages < new_pages {
            seq![(slab_start(slabs, old_slab) + old_pages, slab_start(slabs, old_slab) + new_pages)]
        } else {
            Seq::empty()
        }
    } else {
        let head = if old_offset > 0 && old_pages < SLAB_PAGE_COUNT {
            seq![(slab_start(slabs, old_slab) + old_pages, slab_start(slabs, old_slab) + SLAB_PAGE_COUNT)]
        } else {
            Seq::empty()
        };
        let first_whole = if old_offset > 0 { old_slab + 1 } else { old_slab };
        let whole = Seq::new((new_slab - first_whole) as nat, |k: int| slab_of(slabs[first_whole + k]));
        let last = if new_offset > 0 {
            seq![(slab_start(slabs, new_slab), slab_start(slabs, new_slab) + new_pages)]
        } else {
            Seq::empty()
        };
        head + whole + last
    }
}

/// Whether the call number `k` of `tail` is what `map_with` makes at that step: one of the
/// first `reserves` slab reserves, then `map` of the blocks of `plan`.
pub open spec fn follows_map_call(tail: Seq<PageCall>, k: int, reserves: int, plan: Seq<(int, int)>) -> bool {
    if k < reserves {
        tail[k] == PageCall::Reserve(SLAB_SIZE, PAGE_BYTES)
    } else {
        is_map(tail[k], plan[k - reserves])
    }
}

/// Whether the calls `tail` are the first of the `reserves` slab reserves and the maps of `plan`.
pub open spec fn follows_map_plan(tail: Seq<PageCall>, reserves: int, plan: Seq<(int, int)>) -> bool {
    &&& tail.len() <= reserves + plan.len()
    &&& forall|k: int| 0 <= k < tail.len() ==> #[trigger] follows_map_call(tail, k, reserves, plan)
}

/// Slab reserves, no more than `reserves`, are the first calls of any such plan.
proof fn lemma_reserves_follow(tail: Seq<PageCall>, reserves: int, plan: Seq<(int, int)>)
    requires
        are_slab_reserves(tail),
        tail.len() <= reserves,
    ensures
        follows_map_plan(tail, reserves, plan),
{
    assert forall|k: int| 0 <= k < tail.len() implies #[trigger] follows_map_call(tail, k, reserves, plan) by {
        assert(tail[k] == PageCall::Reserve(SLAB_SIZE, PAGE_BYTES));
    }
}

/// One more `map`, of the next block of the plan, keeps the calls following the plan.
proof fn lemma_follows_map_push(
    before: Seq<PageCall>,
    prior: Seq<PageCall>,
    now: Seq<PageCall>,
    reserves: int,
    plan: Seq<(int, int)>,
    block: Block<Page>,
    flags: crate::memory::mmu::PageTableFlags,
)
    requires
        calls_extend(before, prior),
        follows_map_plan(calls_after(before, prior), reserves, plan),
        reserves <= calls_after(before, prior).len() < reserves + plan.len(),
        block@ == plan[calls_after(before, prior).len() - reserves],
        now == prior.push(PageCall::MapPages(block, flags)),
    ensures
        calls_extend(before, now),
        follows_map_plan(calls_after(before, now), reserves, plan),
        calls_after(before, now).len() == calls_after(before, prior).len() + 1,
{
    lemma_calls_step(before, prior, now);
    let old_tail = calls_after(before, prior);
    let tail = calls_after(before, now);
    assert forall|k: int| 0 <= k < tail.len() implies #[trigger] follows_map_call(tail, k, reserves, plan) by {
        if k < old_tail.len() {
            assert(tail[k] == old_tail[k]);
            assert(follows_map_call(old_tail, k, reserves, plan));
        }
    }
}

/// The blocks of `map_plan`, case by case.
proof fn lemma_map_plan(slabs: Seq<Page>, old: int, new: int, per_slab: int, size: int)
    ensures
        ({
            let (old_slab, old_offset) = coordinates(old, per_slab);
            let (new_slab, new_offset) = coordinates(new, per_slab);
            let old_pages = slab_pages(old_offset, size);
            let new_pages = slab_pages(new_offset, size);
            let plan = map_plan(slabs, old, new, per_slab, size);
            let head: int = if old_offset > 0 && old_pages < SLAB_PAGE_COUNT { 1 } else { 0 };
            let first_whole = if old_offset > 0 { old_slab + 1 } else { old_slab };
            &&& old_slab == new_slab && old_pages < new_pages ==> plan.len() == 1
                && plan[0] == (slab_start(slabs, old_slab) + old_pages, slab_start(slabs, old_slab) + new_pages)
            &&& old_slab != new_slab && first_whole <= new_slab ==> {
                &&& plan.len() == head + (new_slab - first_whole) + if new_offset > 0 { 1int } else { 0 }
                &&& head == 1 ==> plan[0] == (slab_start(slabs, old_slab) + old_pages, slab_start(slabs, old_slab) + SLAB_PAGE_COUNT)
                &&& forall|k: int| 0 <= k < new_slab - first_whole ==> #[trigger] plan[head + k] == slab_of(slabs[first_whole + k])
                &&& new_offset > 0 ==> plan[head + (new_slab - first_whole)] == (slab_start(slabs, new_slab), slab_start(slabs, new_slab) + new_pages)
            }
        }),
{
    let (old_slab, old_offset) = coordinates(old, per_slab);
    let (new_slab, new_offset) = coordinates(new, per_slab);
    let old_pages = slab_pages(old_offset, size);
    let new_pages = slab_pages(new_offset, size);
    if old_slab != new_slab {
        let first_whole = if old_offset > 0 { old_slab + 1 } else { old_slab };
        if first_whole <= new_slab {
            let head_seq = if old_offset > 0 && old_pages < SLAB_PAGE_COUNT {
                seq![(slab_start(slabs, old_slab) + old_pages, slab_start(slabs, old_slab) + SLAB_PAGE_COUNT)]
            } else {
                Seq::<(int, int)>::empty()
            };
            let whole = Seq::new((new_slab - first_whole) as nat, |k: int| slab_of(slabs[first_whole + k]));
            let last = if new_offset > 0 {
                seq![(slab_start(slabs, new_slab), slab_start(slabs, new_slab) + new_pages)]
            } else {
                Seq::<(int, int)>::empty()
            };
            let plan = map_plan(slabs, old, new, per_slab, size);
            assert(plan == head_seq + whole + last);
            assert forall|k: int| 0 <= k < new_slab - first_whole implies #[trigger] plan[head_seq.len() + k] == slab_of(slabs[first_whole + k]) by {
                assert((head_seq + whole)[head_seq.len() + k] == whole[k]);
            }
        }
    }
}

/// Whether every call of `calls` is `reserve` of one slab: `SLAB_SIZE` bytes aligned to a page.
pub open spec fn are_slab_reserves(calls: Seq<PageCall>) -> bool {
    forall|i: int| 0 <= i < calls.len() ==> #[trigger] calls[i] == PageCall::Reserve(SLAB_SIZE, PAGE_BYTES)
}

/// Whether the slab that starts at page `start` is empty or a valid block of pages.
pub open spec fn slab_valid(start: Page) -> bool {
    start@ % 4096 == 0 && valid_block::<Page>(slab_of(start).0, slab_of(start).1)
}

/// Where no two reserved slabs share an address, the number of the allocation at the
/// address of allocation `n` in a reserved slab is `n` again: `allocation_index` gives back
/// what `allocation` gave.
pub proof fn lemma_allocation_round_trip(q: Quarry, n: int)
    requires
        q.wf(),
        0 <= n < q.spec_capacity(),
        q.spec_slab(coordinates(n, q.spec_per_slab()).0).0 < q.spec_slab(coordinates(n, q.spec_per_slab()).0).1,
        forall|i: int, j: int, a: int|
            0 <= i < SLAB_COUNT && 0 <= j < SLAB_COUNT && i != j && #[trigger] slab_contains(q.spec_slab(i), a)
                ==> !#[trigger] slab_contains(q.spec_slab(j), a),
    ensures
        ({
            let (slab, offset) = coordinates(n, q.spec_per_slab());
            let address = q.spec_slab(slab).0 * PAGE_BYTES + offset * q.spec_size();
            &&& q.spec_first_containing(slab, address)
            &&& q.spec_index_in(slab, address) == n
        }),
{
    q.lemma_wf();
    let per_slab = q.spec_per_slab();
    let size = q.spec_size();
    let slab = n / per_slab;
    let offset = n % per_slab;
    let block = q.spec_slab(slab);
    let address = block.0 * PAGE_BYTES + offset * size;
    assert(0 <= slab < SLAB_COUNT) by (nonlinear_arith)
        requires slab == n / per_slab, 0 <= n < per_slab * 16, per_slab >= 1;
    assert(0 <= offset < per_slab);
    assert(0 <= offset * size < per_slab * size) by (nonlinear_arith)
        requires 0 <= offset < per_slab, size > 0;
    assert(block.1 == block.0 + SLAB_PAGE_COUNT);
    assert(slab_contains(block, address));
    assert forall|j: int| 0 <= j < slab implies !(#[trigger] slab_contains(q.spec_slab(j), address)) by {
        assert(slab_contains(q.spec_slab(slab), address));
    }
    assert((offset * size) / size == offset) by {
        vstd::arithmetic::div_mod::lemma_div_multiples_vanish(offset, size);
        vstd::arithmetic::mul::lemma_mul_is_commutative(offset, size);
    }
    vstd::arithmetic::div_mod::lemma_fundamental_div_mod(n, per_slab);
}

/// Whether the slab `slab` is reserved and contains the address `address`, by the test of
/// `Block::contains_address`: from its start on, and below its end.
pub open spec fn slab_contains(slab: (int, int), address: int) -> bool {
    &&& slab.0 < slab.1
    &&& slab.0 * PAGE_BYTES <= address < slab.1 * PAGE_BYTES
}

/// The empty slab is a valid block.
proof fn lemma_empty_slab_valid()
    ensures
        valid_block::<Page>(0, 0),
{
    Page::lemma_type();
    VirtTag::lemma_zero_valid();
    VirtTag::lemma_same_half_equivalence(0, 0, 0);
}

/// An offset within a reserved slab gives an address within `usize`.
proof fn lemma_slab_address(start: Page, offset: int)
    requires
        usize::BITS == 64,
        slab_valid(start),
        start@ != 0,
        0 <= offset < SLAB_SIZE,
    ensures
        start.spec_index() * PAGE_BYTES + offset <= usize::MAX,
{
    let s = start.spec_index();
    assert(valid_index::<Page>(s + 255));
    assert((s + 255) * 4096 <= usize::MAX);
    assert(usize::MAX == 0xFFFF_FFFF_FFFF_FFFF);
    assert(s * 4096 + offset <= 0xFFFF_FFFF_FFFF_FFFF) by (nonlinear_arith)
        requires (s + 255) * 4096 <= 0xFFFF_FFFF_FFFF_FFFF, 0 <= offset < 0x10_0000, s >= 0;
}

/// A block that the allocator reserved for a slab is valid and long enough.
proof fn lemma_reserved_slab(block: Block<Page>)
    requires
        block.wf(),
        block.spec_count() * PAGE_BYTES >= SLAB_SIZE,
    ensures
        block.spec_count() >= SLAB_PAGE_COUNT,
{
}

/// The first page of a block reserved for a slab starts a valid slab.
proof fn lemma_reserved_slab_start(block: Block<Page>, start: Page)
    requires
        block.wf(),
        block.spec_count() >= SLAB_PAGE_COUNT,
        start.spec_index() == block@.0,
        start.is_valid(),
    ensures
        slab_valid(start),
{
    Page::lemma_type();
    VirtTag::lemma_align();
    if start@ == 0 {
        lemma_empty_slab_valid();
    } else {
        let s = block@.0;
        let e = block@.1;
        assert(valid_index::<Page>(s) && valid_index::<Page>(e - 1));
        let a = (s * 4096) as usize;
        let b = ((e - 1) * 4096) as usize;
        assert(s * 4096 <= (s + 255) * 4096 <= (e - 1) * 4096) by (nonlinear_arith)
            requires s + 255 <= e - 1;
        let x = ((s + 255) * 4096) as usize;
        VirtTag::lemma_between(a, x, b);
        assert(valid_index::<Page>(s + 255));
        assert(last_index(s, s + 256) == s + 255);
    }
}

} // verus!
