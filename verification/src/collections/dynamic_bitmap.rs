use vstd::prelude::*;

use crate::allocator::big::{
    calls_after, calls_extend, is_map, is_unmap, is_unreserve, BigAllocator, BigAllocatorGuard, PageCall,
    PageCalls, PAGE_BYTES,
};
use crate::error::Result;
use crate::memory::addr::{Tag, VirtTag};
use crate::memory::block::{last_index, valid_block, valid_index, Block, Memory};
use crate::memory::frage::Page;

use super::bitmap::{bit_of, entry_count, free_count, lemma_grown_words, Bitmap};

verus! {

/// The bits that one page of a bitmap holds.
pub const BITS_PER_PAGE: usize = 32768;

/// The pages that a bitmap of `len` elements takes.
pub open spec fn bitmap_pages(len: int) -> int {
    (len + 32767) / 32768
}

/// A free-space bitmap that grows: its words live in pages that an allocator reserves in the
/// address space at once, with unmapped guard zones of `guard_zone_page_count` pages on both
/// sides, and maps as the bitmap grows.
pub struct DynamicBitmap {
    /// The bitmap of the current size.
    bitmap: Bitmap,
    /// The pages of each guard zone.
    guard_zone_page_count: usize,
    /// The reserved pages, guard zones included; only those that the bitmap needs are mapped.
    pages: Block<Page>,
}

impl DynamicBitmap {
    /// The bitmap of the current size.
    pub closed spec fn spec_bitmap(&self) -> Bitmap {
        self.bitmap
    }

    /// The pages of each guard zone.
    pub closed spec fn spec_guard(&self) -> int {
        self.guard_zone_page_count as int
    }

    /// The reserved pages, guard zones included.
    pub closed spec fn spec_pages(&self) -> (int, int) {
        self.pages@
    }

    /// Whether pages are reserved for the bitmap.
    pub open spec fn spec_is_reserved(&self) -> bool {
        self.spec_pages().0 < self.spec_pages().1
    }

    /// The number of elements that the reserved pages hold.
    pub open spec fn spec_capacity(&self) -> int {
        (self.spec_pages().1 - self.spec_pages().0 - 2 * self.spec_guard()) * BITS_PER_PAGE
    }

    /// The bitmap is valid, its padding is clear and its count of free elements true; it
    /// fits into the reserved pages between the guard zones, and is empty where none are.
    pub closed spec fn wf(&self) -> bool {
        &&& self.bitmap.wf()
        &&& self.bitmap.padding_clear()
        &&& self.bitmap.spec_consistent()
        &&& self.pages.wf()
        &&& !self.spec_is_reserved() ==> self.bitmap.spec_len() == 0 && self.guard_zone_page_count == 0
        &&& self.spec_is_reserved() ==> {
            &&& self.pages.spec_count() >= 2 * self.guard_zone_page_count + 1
            &&& bitmap_pages(self.bitmap.spec_len()) <= self.pages.spec_count() - 2 * self.guard_zone_page_count
        }
    }

    /// What a valid bitmap keeps: a valid, consistent bitmap that is empty where no pages are
    /// reserved, and room for whole pages of bits where they are.
    pub proof fn lemma_wf(&self)
        requires
            self.wf(),
        ensures
            self.spec_bitmap().wf(),
            self.spec_bitmap().spec_consistent(),
            !self.spec_is_reserved() ==> self.spec_bitmap().spec_len() == 0,
            self.spec_capacity() % (BITS_PER_PAGE as int) == 0,
    {
        vstd::arithmetic::div_mod::lemma_mod_multiples_basic(
            self.spec_pages().1 - self.spec_pages().0 - 2 * self.spec_guard(), BITS_PER_PAGE as int);
    }

    /// An empty bitmap with no pages.
    pub fn new() -> (r: Self)
        ensures
            r.wf(),
            !r.spec_is_reserved(),
            r.spec_bitmap()@ == Seq::<bool>::empty(),
            r.spec_bitmap().spec_free() == 0,
            r.spec_bitmap().spec_len() == 0,
    {
        let r = DynamicBitmap { bitmap: Bitmap::zero(), guard_zone_page_count: 0, pages: Block::zero() };
        proof {
            lemma_zero_block_valid();
        }
        r
    }

    /// The number of elements.
    pub fn len(&self) -> (r: usize)
        ensures
            r == self.spec_bitmap().spec_len(),
    {
        self.bitmap.len()
    }

    /// The number of free elements.
    pub fn free(&self) -> (r: usize)
        ensures
            r == self.spec_bitmap().spec_free(),
    {
        self.bitmap.free()
    }

    /// Whether the bitmap has no elements.
    pub fn is_empty(&self) -> (r: bool)
        ensures
            r == (self.spec_bitmap().spec_len() == 0),
    {
        self.bitmap.is_empty()
    }

    /// Whether element `number` is free.
    pub fn is_free(&self, number: usize) -> (r: bool)
        requires
            self.wf(),
            number < self.spec_bitmap().spec_len(),
        ensures
            r == !self.spec_bitmap()@[number as int],
    {
        self.bitmap.is_free(number)
    }

    /// Marks the taken element `number` free.
    pub fn set_free(&mut self, number: usize)
        requires
            old(self).wf(),
            number < old(self).spec_bitmap().spec_len(),
            old(self).spec_bitmap()@[number as int],
        ensures
            final(self).wf(),
            final(self).spec_bitmap()@ == old(self).spec_bitmap()@.update(number as int, false),
            final(self).spec_bitmap().spec_free() == old(self).spec_bitmap().spec_free() + 1,
            final(self).spec_bitmap().spec_len() == old(self).spec_bitmap().spec_len(),
            final(self).spec_pages() == old(self).spec_pages(),
            final(self).spec_guard() == old(self).spec_guard(),
    {
        proof {
            self.bitmap.lemma_view();
            self.bitmap.lemma_free_bounds();
            assert(self.bitmap@[number as int]);
        }
        self.bitmap.set_free(number);
    }

    /// Finds a free element, marks it taken and returns its number; see `Bitmap::allocate`.
    pub fn allocate(&mut self) -> (r: Option<usize>)
        requires
            old(self).wf(),
        ensures
            final(self).wf(),
            final(self).spec_pages() == old(self).spec_pages(),
            final(self).spec_guard() == old(self).spec_guard(),
            final(self).spec_bitmap().spec_len() == old(self).spec_bitmap().spec_len(),
            match r {
                None => {
                    &&& final(self).spec_bitmap() == old(self).spec_bitmap()
                    &&& forall|m: int| 0 <= m < old(self).spec_bitmap().spec_len() ==> #[trigger] old(self).spec_bitmap()@[m]
                },
                Some(n) => {
                    &&& n < old(self).spec_bitmap().spec_len()
                    &&& !old(self).spec_bitmap()@[n as int]
                    &&& final(self).spec_bitmap()@ == old(self).spec_bitmap()@.update(n as int, true)
                    &&& final(self).spec_bitmap().spec_free() == old(self).spec_bitmap().spec_free() - 1
                },
            },
    {
        proof {
            self.bitmap.lemma_view();
            self.bitmap.lemma_free_bounds();
        }
        self.bitmap.allocate()
    }

    /// Reserves, with the allocator of `allocator`, pages for a bitmap of `capacity`
    /// elements, between guard zones of `guard_zone_page_count` pages.
    /// Returns the error of the allocator, `Error::NoPage` where no such block is free.
    pub fn reserve<G: BigAllocatorGuard>(&mut self, capacity: usize, guard_zone_page_count: usize, allocator: &G) -> (r: Result<()>)
        requires
            old(self).wf(),
            !old(self).spec_is_reserved(),
            capacity > 0,
            (2 * guard_zone_page_count + bitmap_pages(capacity as int)) * PAGE_BYTES <= isize::MAX,
        ensures
            final(self).wf(),
            r is Err ==> *final(self) == *old(self),
            r is Ok ==> {
                &&& final(self).spec_is_reserved()
                &&& final(self).spec_guard() == guard_zone_page_count
                &&& final(self).spec_capacity() >= capacity
                &&& final(self).spec_bitmap() == old(self).spec_bitmap()
            },
    {
        let mut a = allocator.get();
        let mut calls = PageCalls::new(&mut a);
        self.reserve_with(capacity, guard_zone_page_count, &mut calls)
    }

    /// Reserves, with the allocator of `allocator`, pages for a bitmap of `capacity`
    /// elements, between guard zones of `guard_zone_page_count` pages.
    /// Returns the error of the allocator, `Error::NoPage` where no such block is free.
    /// It makes one call: `reserve` of the pages of the bitmap and of both guard zones,
    /// aligned to a page.
    pub fn reserve_with<A: BigAllocator>(&mut self, capacity: usize, guard_zone_page_count: usize, allocator: &mut PageCalls<A>) -> (r: Result<()>)
        requires
            old(self).wf(),
            !old(self).spec_is_reserved(),
            capacity > 0,
            (2 * guard_zone_page_count + bitmap_pages(capacity as int)) * PAGE_BYTES <= isize::MAX,
        ensures
            final(self).wf(),
            r is Err ==> *final(self) == *old(self),
            r is Ok ==> {
                &&& final(self).spec_is_reserved()
                &&& final(self).spec_guard() == guard_zone_page_count
                &&& final(self).spec_capacity() >= capacity
                &&& final(self).spec_bitmap() == old(self).spec_bitmap()
            },
            calls_extend(old(allocator).spec_calls(), final(allocator).spec_calls()),
            calls_after(old(allocator).spec_calls(), final(allocator).spec_calls()) == seq![PageCall::Reserve(
                ((2 * guard_zone_page_count + bitmap_pages(capacity as int)) * PAGE_BYTES) as usize,
                PAGE_BYTES,
            )],
    {
        let page_count = capacity / BITS_PER_PAGE + if capacity % BITS_PER_PAGE == 0 { 0 } else { 1 };
        assert(page_count == bitmap_pages(capacity as int));
        let total = guard_zone_page_count + page_count + guard_zone_page_count;
        let pages = match allocator.reserve(total * PAGE_BYTES, PAGE_BYTES) {
            Ok(b) => b,
            Err(e) => return Err(e),
        };
        self.pages = pages;
        self.guard_zone_page_count = guard_zone_page_count;
        proof {
            assert(pages.spec_count() >= total) by (nonlinear_arith)
                requires pages.spec_count() * 4096 >= total * 4096;
            assert(capacity <= page_count * BITS_PER_PAGE) by (nonlinear_arith)
                requires page_count == (capacity + 32767) / 32768;
            assert((pages.spec_count() - 2 * guard_zone_page_count) * BITS_PER_PAGE >= page_count * BITS_PER_PAGE) by (nonlinear_arith)
                requires pages.spec_count() - 2 * guard_zone_page_count >= page_count;
        }
        Ok(())
    }

    /// The reserved pages between the guard zones.
    pub fn pages(&self) -> (r: Block<Page>)
        requires
            self.wf(),
        ensures
            r.wf(),
            r@ == (self.spec_pages().0 + self.spec_guard(), self.spec_pages().1 - self.spec_guard()),
    {
        proof {
            if !self.spec_is_reserved() {
                lemma_zero_block_valid();
            } else {
                lemma_inner_block(self.pages, self.guard_zone_page_count as int);
            }
        }
        self.pages.slice(self.guard_zone_page_count..self.pages.count() - self.guard_zone_page_count).unwrap()
    }

    /// The pages that a bitmap of `len` elements takes.
    pub fn page_count(len: usize) -> (r: usize)
        ensures
            r == bitmap_pages(len as int),
    {
        len / BITS_PER_PAGE + if len % BITS_PER_PAGE == 0 { 0 } else { 1 }
    }

    /// Grows the bitmap to `new_len` elements, the new ones free, mapping with the allocator
    /// of `allocator` the pages that it takes beyond those it took. Returns the number of
    /// pages mapped; on an error of the allocator the bitmap stays as it was.
    pub fn map<G: BigAllocatorGuard>(&mut self, new_len: usize, allocator: &G) -> (r: Result<usize>)
        requires
            old(self).wf(),
            old(self).spec_is_reserved(),
            new_len > old(self).spec_bitmap().spec_len(),
            bitmap_pages(new_len as int) * BITS_PER_PAGE <= old(self).spec_capacity(),
        ensures
            final(self).wf(),
            final(self).spec_pages() == old(self).spec_pages(),
            final(self).spec_guard() == old(self).spec_guard(),
            r is Err ==> *final(self) == *old(self),
            r matches Ok(frames) ==> {
                let old_len = old(self).spec_bitmap().spec_len();
                &&& frames == bitmap_pages(new_len as int) - bitmap_pages(old_len)
                &&& final(self).spec_bitmap().spec_len() == new_len
                &&& final(self).spec_bitmap()@ == old(self).spec_bitmap()@ + Seq::new((new_len - old_len) as nat, |i: int| false)
                &&& final(self).spec_bitmap().spec_free() == old(self).spec_bitmap().spec_free() + (new_len - old_len)
            },
            bitmap_pages(new_len as int) == bitmap_pages(old(self).spec_bitmap().spec_len()) ==> r is Ok,
    {
        let mut a = allocator.get();
        let mut calls = PageCalls::new(&mut a);
        self.map_with(new_len, &mut calls)
    }

    /// Grows the bitmap to `new_len` elements, the new ones free, mapping with the allocator
    /// of `allocator` the pages that it takes beyond those it took. Returns the number of
    /// pages mapped; on an error of the allocator the bitmap stays as it was.
    /// It makes one call where the bitmap needs more pages: `map` of those pages, after
    /// the ones it has, in the reserved pages between the guard zones.
    pub fn map_with<A: BigAllocator>(&mut self, new_len: usize, allocator: &mut PageCalls<A>) -> (r: Result<usize>)
        requires
            old(self).wf(),
            old(self).spec_is_reserved(),
            new_len > old(self).spec_bitmap().spec_len(),
            bitmap_pages(new_len as int) * BITS_PER_PAGE <= old(self).spec_capacity(),
        ensures
            final(self).wf(),
            final(self).spec_pages() == old(self).spec_pages(),
            final(self).spec_guard() == old(self).spec_guard(),
            r is Err ==> *final(self) == *old(self),
            r matches Ok(frames) ==> {
                let old_len = old(self).spec_bitmap().spec_len();
                &&& frames == bitmap_pages(new_len as int) - bitmap_pages(old_len)
                &&& final(self).spec_bitmap().spec_len() == new_len
                &&& final(self).spec_bitmap()@ == old(self).spec_bitmap()@ + Seq::new((new_len - old_len) as nat, |i: int| false)
                &&& final(self).spec_bitmap().spec_free() == old(self).spec_bitmap().spec_free() + (new_len - old_len)
            },
            bitmap_pages(new_len as int) == bitmap_pages(old(self).spec_bitmap().spec_len()) ==> r is Ok,
            calls_extend(old(allocator).spec_calls(), final(allocator).spec_calls()),
            ({
                let tail = calls_after(old(allocator).spec_calls(), final(allocator).spec_calls());
                let start = old(self).spec_pages().0 + old(self).spec_guard();
                let old_pages = bitmap_pages(old(self).spec_bitmap().spec_len());
                let new_pages = bitmap_pages(new_len as int);
                &&& old_pages == new_pages ==> tail.len() == 0
                &&& old_pages < new_pages ==> tail.len() == 1 && is_map(tail[0], (start + old_pages, start + new_pages))
            }),
    {
        let old_len = self.bitmap.len();
        let old_free = self.bitmap.free();
        let old_pages = Self::page_count(old_len);
        let new_pages = Self::page_count(new_len);
        proof {
            assert(old_pages <= new_pages) by (nonlinear_arith)
                requires old_pages == (old_len + 32767) / 32768, new_pages == (new_len + 32767) / 32768, old_len < new_len;
            assert(new_pages <= self.pages.spec_count() - 2 * self.guard_zone_page_count) by (nonlinear_arith)
                requires
                    new_pages * 32768 <= (self.pages.spec_count() - 2 * self.guard_zone_page_count) * 32768,
                    new_pages >= 0;
            self.bitmap.lemma_view();
            self.bitmap.lemma_free_bounds();
            self.bitmap.lemma_wf();
        }
        let additional = new_pages - old_pages;
        if additional > 0 {
            let inner = self.pages();
            proof {
                lemma_sub_block(inner, old_pages as int, new_pages as int);
            }
            let block = inner.slice(old_pages..new_pages).unwrap();
                let flags = allocator.flags();
            match allocator.map(block, flags) {
                Ok(()) => {},
                Err(e) => return Err(e),
            }
        }
        let ghost old_bitmap = self.bitmap;
        let mut bitmap = Bitmap::zero();
        core::mem::swap(&mut bitmap, &mut self.bitmap);
        let mut words = bitmap.into_words();
        let count = new_len / 64 + if new_len % 64 == 0 { 0 } else { 1 };
        assert(count == entry_count(new_len as int));
        let ghost before = words@;
        words.resize(count, 0u64);
        proof {
            old_bitmap.lemma_wf();
            assert(before.len() <= count) by (nonlinear_arith)
                requires before.len() == (old_len + 63) / 64, count == (new_len + 63) / 64, old_len < new_len;
            if before.len() == count {
                assert(words@ =~= before);
            }
            assert(words@.subrange(0, before.len() as int) =~= before);
            lemma_grown_words(old_bitmap.spec_words(), old_len as int, words@, new_len as int);
        }
        self.bitmap = Bitmap::new(words, new_len, Some(old_free + (new_len - old_len)));
        proof {
            let nb = self.bitmap;
            nb.lemma_view();
            old_bitmap.lemma_view();
            assert(nb.spec_words() =~= words@);
            assert(nb@ =~= old_bitmap@ + Seq::new((new_len - old_len) as nat, |i: int| false)) by {
                assert forall|m: int| 0 <= m < new_len implies nb@[m] == (old_bitmap@ + Seq::new((new_len - old_len) as nat, |i: int| false))[m] by {
                }
            }
            assert forall|m: int| new_len <= m < nb.spec_words().len() * 64 implies !#[trigger] bit_of(nb.spec_words(), m) by {
            }
        }
        Ok(additional)
    }

    /// Unmaps the pages of the bitmap and frees the reserved block, with the allocator of
    /// `allocator`, and empties the bitmap. All elements must be free.
    /// Returns the number of pages unmapped; on an error of the allocator the bitmap stays.
    pub fn unmap<G: BigAllocatorGuard>(&mut self, allocator: &G) -> (r: Result<usize>)
        requires
            old(self).wf(),
            old(self).spec_bitmap().spec_free() == old(self).spec_bitmap().spec_len(),
        ensures
            final(self).wf(),
            r is Err ==> *final(self) == *old(self),
            r matches Ok(frames) ==> {
                &&& frames == bitmap_pages(old(self).spec_bitmap().spec_len())
                &&& !final(self).spec_is_reserved()
                &&& final(self).spec_bitmap()@ == Seq::<bool>::empty()
            },
    {
        let mut a = allocator.get();
        let mut calls = PageCalls::new(&mut a);
        self.unmap_with(&mut calls)
    }

    /// Unmaps the pages of the bitmap and frees the reserved block, with the allocator of
    /// `allocator`, and empties the bitmap. All elements must be free.
    /// Returns the number of pages unmapped; on an error of the allocator the bitmap stays.
    /// It makes its calls in order: `unmap` of the mapped pages of the bitmap, then
    /// `unreserve` of all the reserved pages, stopping at the first error.
    pub fn unmap_with<A: BigAllocator>(&mut self, allocator: &mut PageCalls<A>) -> (r: Result<usize>)
        requires
            old(self).wf(),
            old(self).spec_bitmap().spec_free() == old(self).spec_bitmap().spec_len(),
        ensures
            final(self).wf(),
            r is Err ==> *final(self) == *old(self),
            r matches Ok(frames) ==> {
                &&& frames == bitmap_pages(old(self).spec_bitmap().spec_len())
                &&& !final(self).spec_is_reserved()
                &&& final(self).spec_bitmap()@ == Seq::<bool>::empty()
            },
            calls_extend(old(allocator).spec_calls(), final(allocator).spec_calls()),
            ({
                let tail = calls_after(old(allocator).spec_calls(), final(allocator).spec_calls());
                let start = old(self).spec_pages().0 + old(self).spec_guard();
                let mapped = (start, start + bitmap_pages(old(self).spec_bitmap().spec_len()));
                &&& 1 <= tail.len() <= 2
                &&& is_unmap(tail[0], mapped)
                &&& tail.len() == 2 ==> is_unreserve(tail[1], old(self).spec_pages())
                &&& r is Ok ==> tail.len() == 2
            }),
    {
        let len = self.bitmap.len();
        let page_count = Self::page_count(len);
        let inner = self.pages();
        proof {
            if page_count > 0 {
                lemma_sub_block(inner, 0, page_count as int);
            } else {
                lemma_empty_prefix(inner);
            }
        }
        let mapped = inner.slice(0..page_count).unwrap();
        match allocator.unmap(mapped) {
            Ok(()) => {},
            Err(e) => return Err(e),
        }
        match allocator.unreserve(self.pages) {
            Ok(()) => {},
            Err(e) => return Err(e),
        }
        *self = Self::new();
        Ok(page_count)
    }
}

/// The empty block at page zero is valid.
pub proof fn lemma_zero_block_valid()
    ensures
        valid_block::<Page>(0, 0),
{
    Page::lemma_type();
    VirtTag::lemma_zero_valid();
    VirtTag::lemma_same_half_equivalence(0, 0, 0);
}

/// A nonempty part of a valid block is valid.
pub proof fn lemma_sub_block(block: Block<Page>, from: int, to: int)
    requires
        block.wf(),
        0 <= from < to <= block.spec_count(),
    ensures
        valid_block::<Page>(block@.0 + from, block@.0 + to),
{
    Page::lemma_type();
    VirtTag::lemma_align();
    let s = block@.0;
    let e = block@.1;
    assert(valid_index::<Page>(s) && valid_index::<Page>(e - 1));
    let a = (s * 4096) as usize;
    let b = ((e - 1) * 4096) as usize;
    assert(s * 4096 <= (s + from) * 4096 <= (s + to - 1) * 4096 <= (e - 1) * 4096) by (nonlinear_arith)
        requires 0 <= from < to <= e - s;
    let x = ((s + from) * 4096) as usize;
    let y = ((s + to - 1) * 4096) as usize;
    VirtTag::lemma_between(a, x, b);
    VirtTag::lemma_between(a, y, b);
    VirtTag::lemma_same_half_equivalence(x, a, y);
    assert(last_index(s + from, s + to) == s + to - 1);
}

/// A block less its guard zones is valid.
proof fn lemma_inner_block(pages: Block<Page>, guard: int)
    requires
        pages.wf(),
        0 <= guard,
        pages.spec_count() >= 2 * guard + 1,
    ensures
        valid_block::<Page>(pages@.0 + guard, pages@.1 - guard),
{
    lemma_sub_block(pages, guard, pages.spec_count() - guard);
}

/// The empty block at the start of a valid block is valid.
proof fn lemma_empty_prefix(block: Block<Page>)
    requires
        block.wf(),
    ensures
        valid_block::<Page>(block@.0, block@.0),
{
    Page::lemma_type();
    let a = (block@.0 * 4096) as usize;
    VirtTag::lemma_same_half_equivalence(a, a, a);
    assert(last_index(block@.0, block@.0) == block@.0);
}

} // verus!
