use vstd::prelude::*;

use crate::collections::dynamic_bitmap::{bitmap_pages, DynamicBitmap, BITS_PER_PAGE};
use crate::error::Result;
use crate::memory::addr::Virt;

use super::big::{
    calls_after, calls_extend, is_map, BigAllocator, BigAllocatorGuard, PageCall, PageCalls, PAGE_BYTES,
};
use super::dispatcher::MIN_SIZE;
use super::info::Info;
use super::quarry::{
    coordinates, follows_map_plan, lemma_reserved_slab_nonnull, lemma_slabs_used_monotone, lemma_slab_in_use, map_frames, map_plan,
    slab_pages, slabs_used, Quarry,
    SLAB_COUNT, SLAB_PAGE_COUNT, SLAB_SIZE,
};

verus! {

/// The number of allocations that a cache clip of a size class holds; a stock-up adds as many.
pub const CLIP_SIZE: usize = 22;

/// The pages of each guard zone around the bitmap of an allocator.
pub const BITMAP_GUARD_ZONE_PAGE_COUNT: usize = 1;

/// An allocator of blocks of one fixed size: a quarry cut into blocks of that size, and a
/// bitmap that tells which of them are taken.
pub struct FixedSizeAllocator {
    /// Which blocks are taken.
    bitmap: DynamicBitmap,
    /// The statistics of the allocator.
    info: Info,
    /// Where the blocks lie, once the allocator has blocks.
    quarry: Option<Quarry>,
}

impl FixedSizeAllocator {
    /// Which blocks are taken.
    pub closed spec fn spec_bitmap(&self) -> DynamicBitmap {
        self.bitmap
    }

    /// The statistics of the allocator.
    pub closed spec fn spec_info(&self) -> Info {
        self.info
    }

    /// Where the blocks lie.
    pub closed spec fn spec_quarry(&self) -> Option<Quarry> {
        self.quarry
    }

    /// The bitmap and the quarry are valid, the bitmap has no more blocks than the quarry
    /// holds, and its reserved pages hold as many bits as the quarry holds blocks.
    pub closed spec fn wf(&self) -> bool {
        &&& self.bitmap.wf()
        &&& match self.quarry {
            None => self.bitmap.spec_bitmap().spec_len() == 0,
            Some(q) => {
                &&& q.wf()
                &&& self.bitmap.spec_bitmap().spec_len() <= q.spec_capacity()
                &&& self.bitmap.spec_is_reserved() ==> self.bitmap.spec_capacity() >= q.spec_capacity()
            },
        }
    }

    /// Whether the slabs of the blocks of the bitmap are reserved.
    pub open spec fn slabs_ready(&self) -> bool {
        self.spec_quarry() matches Some(q) ==> forall|i: int|
            0 <= i < slabs_used(self.spec_bitmap().spec_bitmap().spec_len(), q.spec_per_slab())
            ==> (#[trigger] q.spec_slabs()[i])@ != 0
    }

    /// What a valid allocator keeps: a valid bitmap with a true count of free blocks, and no
    /// blocks before it has a quarry.
    pub proof fn lemma_wf(&self)
        requires
            self.wf(),
        ensures
            self.spec_bitmap().wf(),
            self.spec_bitmap().spec_bitmap().spec_consistent(),
            self.spec_quarry() is None ==> self.spec_bitmap().spec_bitmap().spec_len() == 0,
            self.spec_quarry() matches Some(q) ==> q.wf(),
    {
        self.bitmap.lemma_wf();
    }

    /// An allocator with no blocks.
    pub fn new() -> (r: Self)
        ensures
            r.wf(),
            r.spec_quarry() is None,
            !r.spec_bitmap().spec_is_reserved(),
            r.spec_bitmap().spec_bitmap()@ == Seq::<bool>::empty(),
            r.spec_bitmap().spec_bitmap().spec_free() == 0,
            r.spec_info()@.0@ == (0usize, 0usize),
            r.spec_info()@.1@ == (0usize, 0usize),
            r.spec_info()@.2@ == (0usize, 0usize),
            r.spec_info()@.3@ == (0usize, 0usize),
    {
        FixedSizeAllocator { bitmap: DynamicBitmap::new(), info: Info::new(), quarry: None }
    }

    /// The statistics of the allocator.
    pub fn info(&self) -> (r: &Info)
        ensures
            *r == self.spec_info(),
    {
        &self.info
    }

    /// The statistics of the allocator, to update them.
    pub fn info_mut(&mut self) -> (r: &mut Info)
        ensures
            *r == old(self).spec_info(),
            final(self).spec_info() == *final(r),
            final(self).spec_bitmap() == old(self).spec_bitmap(),
            final(self).spec_quarry() == old(self).spec_quarry(),
            final(self).wf() == old(self).wf(),
    {
        &mut self.info
    }

    /// Whether no block is free.
    pub fn is_empty(&self) -> (r: bool)
        ensures
            r == (self.spec_bitmap().spec_bitmap().spec_free() == 0),
    {
        self.bitmap.free() == 0
    }

    /// The size of the blocks.
    pub fn size(&self) -> (r: usize)
        requires
            self.spec_quarry() is Some,
        ensures
            r == self.spec_quarry()->0.spec_size(),
    {
        match &self.quarry {
            Some(q) => q.size(),
            None => 0,
        }
    }

    /// Takes a free block and returns its address; the zero address where no block is free
    /// or the slab of the block taken is not reserved (the block is then freed again).
    pub fn allocate(&mut self) -> (r: Virt)
        requires
            usize::BITS == 64,
            old(self).wf(),
            old(self).spec_quarry() is Some,
        ensures
            final(self).wf(),
            final(self).spec_quarry() == old(self).spec_quarry(),
            final(self).spec_info() == old(self).spec_info(),
            r@ == 0 ==> final(self).spec_bitmap().spec_bitmap()@ == old(self).spec_bitmap().spec_bitmap()@,
            r@ != 0 ==> exists|n: int| 0 <= n < old(self).spec_bitmap().spec_bitmap().spec_len()
                && !old(self).spec_bitmap().spec_bitmap()@[n]
                && final(self).spec_bitmap().spec_bitmap()@ == old(self).spec_bitmap().spec_bitmap()@.update(n, true)
                && r@ == quarry_address(old(self).spec_quarry()->0, n),
            old(self).slabs_ready() && old(self).spec_bitmap().spec_bitmap().spec_free() > 0 ==> r@ != 0,
    {
        let ghost q = self.quarry->0;
        proof {
            self.bitmap.spec_bitmap().lemma_view();
            self.lemma_wf();
            self.bitmap.spec_bitmap().lemma_free_bounds();
        }
        match self.bitmap.allocate() {
            Some(index) => {
                proof {
                    self.bitmap.spec_bitmap().lemma_view();
                    q.lemma_wf();
                    if old(self).slabs_ready() {
                        lemma_slab_in_use(index as int, old(self).spec_bitmap().spec_bitmap().spec_len(), q.spec_per_slab());
                        assert(index as int / q.spec_per_slab() < SLAB_COUNT) by (nonlinear_arith)
                            requires
                                index < q.spec_per_slab() * SLAB_COUNT,
                                q.spec_per_slab() >= 1,
                                index >= 0;
                        lemma_reserved_slab_nonnull(q, index as int / q.spec_per_slab());
                        assert(index as int % q.spec_per_slab() * q.spec_size() >= 0) by (nonlinear_arith)
                            requires q.spec_per_slab() >= 1, q.spec_size() >= 1, index >= 0;
                    }
                }
                let address = match &self.quarry {
                    Some(q) => q.allocation(index),
                    None => Virt::zero(),
                };
                if address.into_usize() == 0 {
                    self.bitmap.set_free(index);
                    proof {
                        assert(self.bitmap.spec_bitmap()@ =~= old(self).spec_bitmap().spec_bitmap()@);
                    }
                    return Virt::zero();
                }
                proof {
                    assert(address@ == quarry_address(q, index as int));
                }
                address
            },
            None => Virt::zero(),
        }
    }

    /// Frees the block at `address`, which must be a taken block of the allocator.
    pub fn deallocate(&mut self, address: Virt)
        requires
            usize::BITS == 64,
            old(self).wf(),
            old(self).spec_quarry() is Some,
            ({
                let q = old(self).spec_quarry()->0;
                exists|i: int| #[trigger] q.spec_first_containing(i, address@ as int)
                    && q.spec_index_in(i, address@ as int) < old(self).spec_bitmap().spec_bitmap().spec_len()
                    && old(self).spec_bitmap().spec_bitmap()@[q.spec_index_in(i, address@ as int)]
            }),
        ensures
            final(self).wf(),
            final(self).spec_quarry() == old(self).spec_quarry(),
            final(self).spec_info() == old(self).spec_info(),
            ({
                let q = old(self).spec_quarry()->0;
                exists|i: int| #[trigger] q.spec_first_containing(i, address@ as int)
                    && final(self).spec_bitmap().spec_bitmap()@
                        == old(self).spec_bitmap().spec_bitmap()@.update(q.spec_index_in(i, address@ as int), false)
            }),
    {
        let ghost q = self.quarry->0;
        let ghost i = choose|i: int| #[trigger] q.spec_first_containing(i, address@ as int)
            && q.spec_index_in(i, address@ as int) < old(self).spec_bitmap().spec_bitmap().spec_len()
            && old(self).spec_bitmap().spec_bitmap()@[q.spec_index_in(i, address@ as int)];
        proof {
            lemma_first_containing_unique(q, i, address@ as int);
            self.bitmap.spec_bitmap().lemma_view();
            self.bitmap.lemma_wf();
            self.bitmap.spec_bitmap().lemma_free_bounds();
            assert forall|j: int| #[trigger] q.spec_first_containing(j, address@ as int)
                implies q.spec_index_in(j, address@ as int) <= usize::MAX by {
                assert(j == i);
            }
        }
        let index = match &self.quarry {
            Some(quarry) => quarry.allocation_index(address).unwrap(),
            None => 0,
        };
        proof {
            assert(index == q.spec_index_in(i, address@ as int));
        }
        self.bitmap.set_free(index);
    }

    /// Adds up to `CLIP_SIZE` blocks of `size` bytes to the allocator, no more than its
    /// quarry holds: makes the quarry where there is none, reserves the pages of the bitmap
    /// where it is empty, and maps with the allocator of `fallback` the pages that the bitmap
    /// and the quarry need for the new blocks. Counts the mapped pages in the statistics and
    /// returns their number; zero where the quarry is full.
    pub fn stock_up<G: BigAllocatorGuard>(&mut self, size: usize, fallback: &G) -> (r: Result<usize>)
        requires
            usize::BITS == 64,
            old(self).wf(),
            old(self).slabs_ready(),
            size % MIN_SIZE == 0,
            0 < size <= SLAB_SIZE,
            old(self).spec_quarry() matches Some(q) ==> q.spec_size() == size,
            old(self).spec_bitmap().spec_bitmap().spec_len() == 0 ==> !old(self).spec_bitmap().spec_is_reserved(),
            old(self).spec_info()@.2@.1 + 0x2_0000 <= usize::MAX,
        ensures
            final(self).wf(),
            final(self).spec_quarry() matches Some(q) && q.spec_size() == size,
            ({
                let q = final(self).spec_quarry()->0;
                let old_len = old(self).spec_bitmap().spec_bitmap().spec_len();
                let capacity = q.spec_capacity();
                let new_len = if old_len + CLIP_SIZE < capacity { old_len + CLIP_SIZE } else { capacity };
                &&& r is Err ==> final(self).spec_info() == old(self).spec_info()
                &&& r matches Ok(frames) ==> {
                    &&& frames <= 0x2_0000
                    &&& final(self).slabs_ready()
                    &&& final(self).spec_info()@.2@.1 == old(self).spec_info()@.2@.1 + frames
                    &&& final(self).spec_info()@.2@.0 == old(self).spec_info()@.2@.0
                    &&& final(self).spec_info()@.0 == old(self).spec_info()@.0
                    &&& final(self).spec_info()@.1 == old(self).spec_info()@.1
                    &&& final(self).spec_info()@.3 == old(self).spec_info()@.3
                    &&& new_len == old_len ==> frames == 0 && final(self).spec_bitmap() == old(self).spec_bitmap()
                    &&& new_len > old_len ==> {
                        &&& final(self).spec_bitmap().spec_bitmap().spec_len() == new_len
                        &&& frames == bitmap_pages(new_len) - bitmap_pages(old_len)
                            + map_frames(old_len, new_len, q.spec_per_slab(), size as int)
                        &&& final(self).spec_bitmap().spec_bitmap()@ == old(self).spec_bitmap().spec_bitmap()@
                            + Seq::new((new_len - old_len) as nat, |i: int| false)
                    }
                }
            }),
    {
        let mut allocator = fallback.get();
        let mut calls = PageCalls::new(&mut allocator);
        self.stock_up_with(size, &mut calls)
    }

    /// Adds up to `CLIP_SIZE` blocks of `size` bytes to the allocator, no more than its
    /// quarry holds: makes the quarry where there is none, reserves the pages of the bitmap
    /// where it is empty, and maps with the allocator of `fallback` the pages that the bitmap
    /// and the quarry need for the new blocks. Counts the mapped pages in the statistics and
    /// returns their number; zero where the quarry is full.
    /// The calls it makes are those of `follows_stock_up`, through the handle `allocator`.
    #[verifier::spinoff_prover]
    #[verifier::rlimit(60)]
    pub fn stock_up_with<A: BigAllocator>(&mut self, size: usize, allocator: &mut PageCalls<A>) -> (r: Result<usize>)
        requires
            usize::BITS == 64,
            old(self).wf(),
            old(self).slabs_ready(),
            size % MIN_SIZE == 0,
            0 < size <= SLAB_SIZE,
            old(self).spec_quarry() matches Some(q) ==> q.spec_size() == size,
            old(self).spec_bitmap().spec_bitmap().spec_len() == 0 ==> !old(self).spec_bitmap().spec_is_reserved(),
            old(self).spec_info()@.2@.1 + 0x2_0000 <= usize::MAX,
        ensures
            final(self).wf(),
            final(self).spec_quarry() matches Some(q) && q.spec_size() == size,
            ({
                let q = final(self).spec_quarry()->0;
                let old_len = old(self).spec_bitmap().spec_bitmap().spec_len();
                let capacity = q.spec_capacity();
                let new_len = if old_len + CLIP_SIZE < capacity { old_len + CLIP_SIZE } else { capacity };
                &&& r is Err ==> final(self).spec_info() == old(self).spec_info()
                &&& r matches Ok(frames) ==> {
                    &&& frames <= 0x2_0000
                    &&& final(self).slabs_ready()
                    &&& final(self).spec_info()@.2@.1 == old(self).spec_info()@.2@.1 + frames
                    &&& final(self).spec_info()@.2@.0 == old(self).spec_info()@.2@.0
                    &&& final(self).spec_info()@.0 == old(self).spec_info()@.0
                    &&& final(self).spec_info()@.1 == old(self).spec_info()@.1
                    &&& final(self).spec_info()@.3 == old(self).spec_info()@.3
                    &&& new_len == old_len ==> frames == 0 && final(self).spec_bitmap() == old(self).spec_bitmap()
                    &&& new_len > old_len ==> {
                        &&& final(self).spec_bitmap().spec_bitmap().spec_len() == new_len
                        &&& frames == bitmap_pages(new_len) - bitmap_pages(old_len)
                            + map_frames(old_len, new_len, q.spec_per_slab(), size as int)
                        &&& final(self).spec_bitmap().spec_bitmap()@ == old(self).spec_bitmap().spec_bitmap()@
                            + Seq::new((new_len - old_len) as nat, |i: int| false)
                    }
                }
            }),
            calls_extend(old(allocator).spec_calls(), final(allocator).spec_calls()),
            ({
                let tail = calls_after(old(allocator).spec_calls(), final(allocator).spec_calls());
                let q = final(self).spec_quarry()->0;
                let old_len = old(self).spec_bitmap().spec_bitmap().spec_len();
                let capacity = q.spec_capacity();
                let new_len = if old_len + CLIP_SIZE < capacity { old_len + CLIP_SIZE } else { capacity };
                let reserve_call = if old_len == 0 {
                    Some(PageCall::Reserve(
                        ((2 * BITMAP_GUARD_ZONE_PAGE_COUNT + bitmap_pages(capacity)) * PAGE_BYTES) as usize,
                        PAGE_BYTES,
                    ))
                } else {
                    None
                };
                let start = final(self).spec_bitmap().spec_pages().0 + final(self).spec_bitmap().spec_guard();
                let map_block = if bitmap_pages(old_len) < bitmap_pages(new_len) {
                    Some((start + bitmap_pages(old_len), start + bitmap_pages(new_len)))
                } else {
                    None
                };
                let reserves = slabs_used(new_len, q.spec_per_slab()) - slabs_used(old_len, q.spec_per_slab());
                let plan = map_plan(q.spec_slabs(), old_len, new_len, q.spec_per_slab(), size as int);
                &&& new_len == old_len ==> tail.len() == 0
                &&& new_len > old_len ==> follows_stock_up(tail, reserve_call, map_block, reserves, plan)
                &&& new_len > old_len && r is Ok ==> tail.len() == stock_up_call_count(reserve_call, map_block, reserves, plan)
            }),
    {
        let mut quarry = match self.quarry.take() {
            Some(q) => q,
            None => Quarry::new(size),
        };
        proof {
            quarry.lemma_wf();
            self.bitmap.spec_bitmap().lemma_view();
            self.bitmap.lemma_wf();
        }
        let ghost before = allocator.spec_calls();
        let old_len = self.bitmap.len();
        let capacity = quarry.capacity();
        let new_len = if old_len + CLIP_SIZE < capacity { old_len + CLIP_SIZE } else { capacity };
        if new_len == old_len {
            self.quarry = Some(quarry);
            return Ok(0);
        }
        if self.bitmap.is_empty() {
            proof {
                assert((2 * 1 + bitmap_pages(capacity as int)) * PAGE_BYTES <= isize::MAX) by (nonlinear_arith)
                    requires capacity <= 16 * SLAB_SIZE;
            }
            match self.bitmap.reserve_with(capacity, BITMAP_GUARD_ZONE_PAGE_COUNT, &mut *allocator) {
                Ok(()) => {},
                Err(e) => {
                    self.quarry = Some(quarry);
                    return Err(e);
                },
            }
        }
        let ghost after_reserve = allocator.spec_calls();
        let ghost reserve_call = if old_len == 0 {
            Some(PageCall::Reserve(
                ((2 * BITMAP_GUARD_ZONE_PAGE_COUNT + bitmap_pages(capacity as int)) * PAGE_BYTES) as usize,
                PAGE_BYTES,
            ))
        } else {
            None
        };
        proof {
            if old_len != 0 {
                assert(calls_after(before, after_reserve) =~= Seq::<PageCall>::empty());
            }
            assert(calls_extend(before, after_reserve));
        }
        proof {
            self.bitmap.lemma_wf();
            lemma_bitmap_room(self.bitmap.spec_capacity(), capacity as int, new_len as int);
        }
        let mut bitmap_frames: usize = 0;
        let ghost bitmap_before_map = self.bitmap;
        if new_len > self.bitmap.len() {
            let mapped = self.bitmap.map_with(new_len, &mut *allocator);
            bitmap_frames = match mapped {
                Ok(f) => f,
                Err(e) => {
                    self.quarry = Some(quarry);
                    proof {
                        let now = allocator.spec_calls();
                        let mb = Some((self.bitmap.spec_pages().0 + self.bitmap.spec_guard() + bitmap_pages(old_len as int),
                            self.bitmap.spec_pages().0 + self.bitmap.spec_guard() + bitmap_pages(new_len as int)));
                        lemma_calls_chain(before, after_reserve, now);
                        quarry.lemma_wf();
                        lemma_slabs_used_monotone(old_len as int, new_len as int, quarry.spec_per_slab());
                        assert(calls_after(now, now) =~= Seq::<PageCall>::empty());
                        assert(calls_after(after_reserve, now) + calls_after(now, now) =~= calls_after(after_reserve, now));
                        lemma_stock_up_follows(calls_after(before, after_reserve), calls_after(after_reserve, now),
                            calls_after(now, now), reserve_call, mb,
                            slabs_used(new_len as int, quarry.spec_per_slab()) - slabs_used(old_len as int, quarry.spec_per_slab()),
                            map_plan(quarry.spec_slabs(), old_len as int, new_len as int, quarry.spec_per_slab(), size as int));
                    }
                    return Err(e);
                },
            };
        }
        let ghost after_map = allocator.spec_calls();
        let ghost start = self.bitmap.spec_pages().0 + self.bitmap.spec_guard();
        let ghost map_block = if bitmap_pages(old_len as int) < bitmap_pages(new_len as int) {
            Some((start + bitmap_pages(old_len as int), start + bitmap_pages(new_len as int)))
        } else {
            None
        };
        proof {
            if !(new_len > bitmap_before_map.spec_bitmap().spec_len()) || bitmap_pages(old_len as int) == bitmap_pages(new_len as int) {
                assert(calls_after(after_reserve, after_map) =~= Seq::<PageCall>::empty());
            }
            assert(calls_extend(after_reserve, after_map));
        }
        let mut actual = new_len;
        let ghost quarry_before = quarry;
        let quarry_result = quarry.map_with(old_len, &mut actual, &mut *allocator);
        proof {
            let now = allocator.spec_calls();
            lemma_calls_chain(after_reserve, after_map, now);
            lemma_calls_chain(before, after_reserve, now);
            assert(calls_after(before, now) =~= calls_after(before, after_reserve) + calls_after(after_reserve, after_map)
                + calls_after(after_map, now));
            lemma_stock_up_follows(calls_after(before, after_reserve), calls_after(after_reserve, after_map),
                calls_after(after_map, now), reserve_call, map_block,
                slabs_used(new_len as int, quarry_before.spec_per_slab()) - slabs_used(old_len as int, quarry_before.spec_per_slab()),
                map_plan(quarry.spec_slabs(), old_len as int, new_len as int, quarry.spec_per_slab(), size as int));
        }
        let quarry_frames = match quarry_result {
            Ok(f) => f,
            Err(e) => {
                self.quarry = Some(quarry);
                return Err(e);
            },
        };
        proof {
            assert(bitmap_frames <= 0x1_0000) by (nonlinear_arith)
                requires bitmap_frames <= (new_len + 32767) / 32768, new_len <= 16 * SLAB_SIZE;
            lemma_map_frames_bound(old_len as int, new_len as int, quarry.spec_per_slab(), size as int);
        }
        let frames = bitmap_frames + quarry_frames;
        self.quarry = Some(quarry);
        if frames > 0 {
            self.info.pages_allocation(frames);
        }
        Ok(frames)
    }
}

impl FixedSizeAllocator {
    /// Unmaps and frees, with the allocator of `fallback`, the pages of the quarry and of the
    /// bitmap, and drops the quarry. Every block must be free, and the statistics must show no
    /// allocation, allocated byte or requested byte outstanding. Counts the unmapped pages in
    /// the statistics and returns their number.
    pub fn unmap<G: BigAllocatorGuard>(&mut self, fallback: &G) -> (r: Result<usize>)
        requires
            usize::BITS == 64,
            old(self).wf(),
            old(self).slabs_ready(),
            old(self).spec_bitmap().spec_bitmap().spec_free() == old(self).spec_bitmap().spec_bitmap().spec_len(),
            old(self).spec_info()@.0@.0 == old(self).spec_info()@.0@.1,
            old(self).spec_info()@.1@.0 == old(self).spec_info()@.1@.1,
            old(self).spec_info()@.3@.0 == old(self).spec_info()@.3@.1,
            old(self).spec_info()@.2@.0 + 0x2_0000 <= usize::MAX,
        ensures
            final(self).wf(),
            r matches Ok(frames) ==> {
                let len = old(self).spec_bitmap().spec_bitmap().spec_len();
                let quarry_frames = match old(self).spec_quarry() {
                    None => 0,
                    Some(q) => {
                        let (slab, offset) = coordinates(len, q.spec_per_slab());
                        slab * SLAB_PAGE_COUNT + if offset > 0 { slab_pages(offset, q.spec_size()) } else { 0 }
                    },
                };
                &&& frames == quarry_frames + if len > 0 { bitmap_pages(len) } else { 0 }
                &&& final(self).spec_quarry() is None
                &&& final(self).spec_bitmap().spec_bitmap().spec_len() == 0
                &&& final(self).spec_info()@.2@.0 == old(self).spec_info()@.2@.0 + frames
                &&& final(self).spec_info()@.2@.1 == old(self).spec_info()@.2@.1
                &&& final(self).spec_info()@.0 == old(self).spec_info()@.0
                &&& final(self).spec_info()@.1 == old(self).spec_info()@.1
                &&& final(self).spec_info()@.3 == old(self).spec_info()@.3
            },
            old(self).spec_bitmap().spec_bitmap().spec_len() == 0 ==> r is Ok,
    {
        let len = self.bitmap.len();
        proof {
            self.bitmap.spec_bitmap().lemma_view();
        }
        let mut quarry_frames: usize = 0;
        match self.quarry.take() {
            Some(mut quarry) => {
                proof {
                    quarry.lemma_wf();
                }
                let result = quarry.unmap(len, fallback);
                let ghost unmapped = quarry;
                self.quarry = Some(quarry);
                match result {
                    Ok(f) => {
                        proof {
                            lemma_unmap_frames_bound(len as int, unmapped.spec_per_slab(), unmapped.spec_size());
                        }
                        quarry_frames = f;
                    },
                    Err(e) => return Err(e),
                }
            },
            None => {},
        }
        let mut bitmap_frames: usize = 0;
        if len > 0 {
            proof {
                self.bitmap.lemma_wf();
            }
            bitmap_frames = match self.bitmap.unmap(fallback) {
                Ok(f) => f,
                Err(e) => return Err(e),
            };
            proof {
                assert(bitmap_frames <= 0x1_0000) by (nonlinear_arith)
                    requires bitmap_frames == (len + 32767) / 32768, len <= 16 * SLAB_SIZE;
                self.bitmap.spec_bitmap().lemma_view();
            }
        }
        let frames = quarry_frames + bitmap_frames;
        if frames > 0 {
            self.info.pages_deallocation(frames);
        }
        self.quarry = None;
        Ok(frames)
    }
}

/// The number of calls that stocking up makes in full: the bitmap reserve and map where
/// there are, then the slab reserves and the maps of the quarry's plan.
pub open spec fn stock_up_call_count(reserve_call: Option<PageCall>, map_block: Option<(int, int)>, reserves: int, plan: Seq<(int, int)>) -> int {
    (if reserve_call is Some { 1int } else { 0 }) + (if map_block is Some { 1int } else { 0 })
        + reserves + plan.len()
}

/// Whether the calls `tail` are the first of those that stocking up makes: `reserve_call`
/// for the bitmap where there is one, `map` of the pages `map_block` of the bitmap where there
/// is one, then those of `Quarry::map_with` for `reserves` slab reserves and the plan `plan`.
pub open spec fn follows_stock_up(tail: Seq<PageCall>, reserve_call: Option<PageCall>, map_block: Option<(int, int)>, reserves: int, plan: Seq<(int, int)>) -> bool {
    let nr: int = if reserve_call is Some { 1 } else { 0 };
    let nm: int = if map_block is Some { 1 } else { 0 };
    &&& tail.len() <= stock_up_call_count(reserve_call, map_block, reserves, plan)
    &&& nr == 1 && tail.len() > 0 ==> tail[0] == reserve_call->0
    &&& nm == 1 && tail.len() > nr ==> is_map(tail[nr], map_block->0)
    &&& tail.len() > nr + nm ==> follows_map_plan(tail.subrange(nr + nm, tail.len() as int), reserves, plan)
}

/// The calls after `before` to `c` are those after `before` to `b` and then those after `b`.
proof fn lemma_calls_chain(a: Seq<PageCall>, b: Seq<PageCall>, c: Seq<PageCall>)
    requires
        calls_extend(a, b),
        calls_extend(b, c),
    ensures
        calls_extend(a, c),
        calls_after(a, c) =~= calls_after(a, b) + calls_after(b, c),
{
    assert(c.subrange(0, a.len() as int) =~= b.subrange(0, a.len() as int));
    assert(c.subrange(0, b.len() as int) =~= b);
}

/// Calls of the bitmap's reserve, of the bitmap's map and of the quarry, one after the other,
/// are the first of those of stocking up.
proof fn lemma_stock_up_follows(
    t1: Seq<PageCall>,
    t2: Seq<PageCall>,
    t3: Seq<PageCall>,
    reserve_call: Option<PageCall>,
    map_block: Option<(int, int)>,
    reserves: int,
    plan: Seq<(int, int)>,
)
    requires
        reserve_call is Some ==> t1 == seq![reserve_call->0],
        reserve_call is None ==> t1.len() == 0,
        map_block is Some ==> t2.len() == 1 && is_map(t2[0], map_block->0),
        map_block is None ==> t2.len() == 0,
        follows_map_plan(t3, reserves, plan),
    ensures
        follows_stock_up(t1 + t2 + t3, reserve_call, map_block, reserves, plan),
        (t1 + t2 + t3).len() == t1.len() + t2.len() + t3.len(),
{
    let tail = t1 + t2 + t3;
    let n = t1.len() + t2.len();
    assert(tail.subrange(n as int, tail.len() as int) =~= t3);
    if t1.len() == 1 {
        assert(tail[0] == t1[0]);
    }
    if t2.len() == 1 {
        assert(tail[t1.len() as int] == t2[0]);
    }
}

/// Unmapping a quarry frees no more pages than all its slabs have.
proof fn lemma_unmap_frames_bound(count: int, per_slab: int, size: int)
    requires
        0 <= count <= per_slab * SLAB_COUNT,
        per_slab >= 1,
        0 < size,
        per_slab * size <= SLAB_SIZE,
    ensures
        ({
            let (slab, offset) = coordinates(count, per_slab);
            slab * SLAB_PAGE_COUNT + (if offset > 0 { slab_pages(offset, size) } else { 0 }) <= 0x1_0000
        }),
{
    let slab = count / per_slab;
    let offset = count % per_slab;
    assert(slab <= 16) by (nonlinear_arith)
        requires slab == count / per_slab, count <= per_slab * 16, per_slab >= 1;
    assert(offset * size <= SLAB_SIZE) by (nonlinear_arith)
        requires 0 <= offset < per_slab, per_slab * size <= SLAB_SIZE, size > 0;
}

/// Reserved pages that hold as many bits as the quarry holds blocks hold the pages that any
/// number of blocks up to that needs.
proof fn lemma_bitmap_room(bits: int, capacity: int, len: int)
    requires
        bits % (BITS_PER_PAGE as int) == 0,
        0 <= len <= capacity <= bits,
    ensures
        bitmap_pages(len) * BITS_PER_PAGE <= bits,
{
    assert(bitmap_pages(len) * 32768 <= bits) by (nonlinear_arith)
        requires bits % 32768 == 0, 0 <= len <= bits;
}

/// Growing a quarry maps no more pages than all its slabs have.
proof fn lemma_map_frames_bound(old: int, new: int, per_slab: int, size: int)
    requires
        0 <= old < new <= per_slab * SLAB_COUNT,
        per_slab >= 1,
        0 < size,
        per_slab * size <= SLAB_SIZE,
    ensures
        map_frames(old, new, per_slab, size) <= 0x1_0000,
{
    let os = old / per_slab;
    let oo = old % per_slab;
    let ns = new / per_slab;
    let no = new % per_slab;
    assert(0 <= oo < per_slab && 0 <= no < per_slab);
    assert(ns <= 16) by (nonlinear_arith)
        requires ns == new / per_slab, new <= per_slab * 16, per_slab >= 1;
    assert(0 <= os <= ns) by {
        vstd::arithmetic::div_mod::lemma_div_is_ordered(old, new, per_slab);
    }
    assert(oo * size <= SLAB_SIZE && no * size <= SLAB_SIZE) by (nonlinear_arith)
        requires 0 <= oo < per_slab, 0 <= no < per_slab, per_slab * size <= SLAB_SIZE, size > 0;
    assert(slab_pages(oo, size) <= 256 && slab_pages(no, size) <= 256);
    assert(slab_pages(oo, size) >= 0 && slab_pages(no, size) >= 0) by (nonlinear_arith)
        requires 0 <= oo, 0 <= no, size > 0;
}

/// The address of block `n` of the quarry `q`, or zero where its slab is not reserved.
pub open spec fn quarry_address(q: Quarry, n: int) -> int {
    let (slab, offset) = super::quarry::coordinates(n, q.spec_per_slab());
    let block = q.spec_slab(slab);
    if block.0 == block.1 { 0 } else { block.0 * PAGE_BYTES + offset * q.spec_size() }
}

/// Only one slab is the first that contains an address.
proof fn lemma_first_containing_unique(q: Quarry, i: int, address: int)
    requires
        q.spec_first_containing(i, address),
    ensures
        forall|j: int| #[trigger] q.spec_first_containing(j, address) ==> j == i,
{
}

} // verus!
