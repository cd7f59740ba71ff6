use vstd::prelude::*;

use core::cmp::Ordering;
use core::ops::Range;

use crate::allocator::big::{BigAllocator, PageCalls, PAGE_BYTES};
use crate::allocator::big_pair::BigAllocatorPair;
use crate::error::{Error, Result};
use crate::memory::addr::{Tag, Virt, VirtTag};
use crate::memory::block::{valid_index, Block, Memory};
use crate::memory::frage::Page;
use crate::memory::mmu::PageTableFlags;

verus! {

/// The flag of an executable segment in an ELF program header.
pub const PROGRAM_FLAG_X: u32 = 0x1;

/// The flag of a writable segment in an ELF program header.
pub const PROGRAM_FLAG_W: u32 = 0x2;

/// The flag of a readable segment in an ELF program header.
pub const PROGRAM_FLAG_R: u32 = 0x4;

/// The page flags of a segment with the program header flags `ph_flags`: present, writable
/// where the segment is, and executable where it is.
pub open spec fn spec_segment_flags(ph_flags: u32) -> u64 {
    1u64 | (if ph_flags & PROGRAM_FLAG_W != 0 { 2u64 } else { 0u64 })
        | (if ph_flags & PROGRAM_FLAG_X != 0 { 0x8000_0000_0000_0000u64 } else { 0u64 })
}

/// The page flags for a segment with the program header flags `ph_flags`.
/// Returns `Error::PermissionDenied` for a segment both writable and executable.
pub fn flags_from_program_header(ph_flags: u32) -> (r: Result<PageTableFlags>)
    ensures
        ph_flags & (PROGRAM_FLAG_W | PROGRAM_FLAG_X) == (PROGRAM_FLAG_W | PROGRAM_FLAG_X)
            ==> r == Err::<PageTableFlags, Error>(Error::PermissionDenied),
        ph_flags & (PROGRAM_FLAG_W | PROGRAM_FLAG_X) != (PROGRAM_FLAG_W | PROGRAM_FLAG_X)
            ==> (r matches Ok(f) && f@ == spec_segment_flags(ph_flags)),
{
    let insecure = PROGRAM_FLAG_W | PROGRAM_FLAG_X;
    if ph_flags & insecure == insecure {
        return Err(Error::PermissionDenied);
    }
    let mut flags = PageTableFlags::present();
    if ph_flags & PROGRAM_FLAG_R != 0 {
        flags = flags.symmetric_difference(PageTableFlags::empty());
    }
    if ph_flags & PROGRAM_FLAG_W != 0 {
        flags = flags.symmetric_difference(PageTableFlags::writable());
    }
    if ph_flags & PROGRAM_FLAG_X != 0 {
        flags = flags.symmetric_difference(PageTableFlags::executable());
    }
    proof {
        lemma_flag_bits();
    }
    Ok(flags)
}

/// The values that building the flags of a segment takes.
proof fn lemma_flag_bits()
    ensures
        1u64 ^ 0u64 == 1u64,
        1u64 ^ 2u64 == 3u64,
        1u64 ^ 0x8000_0000_0000_0000u64 == 0x8000_0000_0000_0001u64,
        3u64 ^ 0x8000_0000_0000_0000u64 == 0x8000_0000_0000_0003u64,
        1u64 | 0u64 == 1u64,
        1u64 | 2u64 == 3u64,
        1u64 | 0x8000_0000_0000_0000u64 == 0x8000_0000_0000_0001u64,
        3u64 | 0x8000_0000_0000_0000u64 == 0x8000_0000_0000_0003u64,
        3u64 | 0u64 == 3u64,
{
    assert(1u64 ^ 0u64 == 1u64) by (bit_vector);
    assert(1u64 ^ 2u64 == 3u64) by (bit_vector);
    assert(1u64 ^ 0x8000_0000_0000_0000u64 == 0x8000_0000_0000_0001u64) by (bit_vector);
    assert(3u64 ^ 0x8000_0000_0000_0000u64 == 0x8000_0000_0000_0003u64) by (bit_vector);
    assert(1u64 | 0u64 == 1u64) by (bit_vector);
    assert(1u64 | 2u64 == 3u64) by (bit_vector);
    assert(1u64 | 0x8000_0000_0000_0000u64 == 0x8000_0000_0000_0001u64) by (bit_vector);
    assert(3u64 | 0x8000_0000_0000_0000u64 == 0x8000_0000_0000_0003u64) by (bit_vector);
    assert(3u64 | 0u64 == 3u64) by (bit_vector);
}

/// A block of memory of a segment and the flags of its pages.
#[derive(Clone, Copy, Debug)]
pub struct MemoryRange<T> {
    /// The flags of the pages.
    pub flags: PageTableFlags,
    /// The memory.
    pub memory: Block<T>,
}

/// A block of virtual addresses and the flags of its pages.
pub type VirtRange = MemoryRange<Virt>;

/// A block of pages and their flags.
pub type PageRange = MemoryRange<Page>;

impl<T: Memory<Tag = VirtTag>> MemoryRange<T> {
    /// The block `memory` with the page flags `flags`.
    pub fn new(memory: Block<T>, flags: PageTableFlags) -> (r: Self)
        ensures
            r.memory == memory,
            r.flags == flags,
    {
        MemoryRange { flags, memory }
    }

    /// The address of the start of the block.
    pub fn start_address(&self) -> (r: Virt)
        requires
            self.memory.wf(),
        ensures
            r@ == self.memory.spec_start_address(),
    {
        self.memory.start_address()
    }

    /// The address past the end of the block; see `Block::end_address`.
    pub fn end_address(&self) -> (r: Result<Virt>)
        requires
            T::type_ok(),
        ensures
            r is Ok <==> valid_index::<T>(self.memory@.1),
            r matches Ok(a) ==> a@ == self.memory.spec_end_address(),
    {
        self.memory.end_address()
    }
}

/// A loadable segment: where its bytes lie in the file, and where in memory and with which
/// page flags they go.
#[derive(Debug)]
pub struct FileRange {
    /// The bytes of the segment in the file.
    pub file_range: Range<usize>,
    /// The memory of the segment and its page flags.
    pub virt_range: VirtRange,
}

impl FileRange {
    /// The segment of the bytes `file_range` of the file that go to the block `memory` with
    /// the page flags `flags`.
    pub fn new(memory: Block<Virt>, flags: PageTableFlags, file_range: Range<usize>) -> (r: Self)
        ensures
            r.file_range == file_range,
            r.virt_range.memory == memory,
            r.virt_range.flags == flags,
    {
        FileRange { file_range, virt_range: MemoryRange { flags, memory } }
    }

    /// The segment of a program header with the flags `ph_flags`, the virtual address
    /// `virtual_addr`, the sizes in memory `mem_size` and in the file `file_size`, and the
    /// offset in the file `offset`.
    /// Returns `Error::PermissionDenied` for a writable and executable segment,
    /// `Error::Overflow` where it takes more of the file than of memory or its ends overflow,
    /// and `Error::InvalidArgument` where its memory is no valid block of virtual addresses.
    pub fn from_program_header(ph_flags: u32, virtual_addr: u64, mem_size: u64, file_size: u64, offset: u64) -> (r: Result<Self>)
        requires
            usize::BITS == 64,
        ensures
            r matches Ok(range) ==> {
                &&& range.virt_range.flags@ == spec_segment_flags(ph_flags)
                &&& range.virt_range.memory@ == (virtual_addr as int, virtual_addr + mem_size)
                &&& range.virt_range.memory.wf()
                &&& range.file_range.start == offset
                &&& range.file_range.end == offset + file_size
                &&& file_size <= mem_size
            },
            ph_flags & (PROGRAM_FLAG_W | PROGRAM_FLAG_X) == (PROGRAM_FLAG_W | PROGRAM_FLAG_X)
                ==> r == Err::<FileRange, Error>(Error::PermissionDenied),
            ph_flags & (PROGRAM_FLAG_W | PROGRAM_FLAG_X) != (PROGRAM_FLAG_W | PROGRAM_FLAG_X) && file_size > mem_size
                ==> r == Err::<FileRange, Error>(Error::Overflow),
    {
        let flags = match flags_from_program_header(ph_flags) {
            Ok(f) => f,
            Err(e) => return Err(e),
        };
        if file_size > mem_size {
            return Err(Error::Overflow);
        }
        let start = match Virt::new_u64(virtual_addr) {
            Ok(a) => a,
            Err(e) => return Err(e),
        };
        let end = match start + (mem_size as usize) {
            Ok(a) => a,
            Err(e) => return Err(e),
        };
        let memory = match Block::<Virt>::new(start, end) {
            Ok(b) => b,
            Err(e) => return Err(e),
        };
        let file_start = offset as usize;
        let file_end = match file_start.checked_add(file_size as usize) {
            Some(e) => e,
            None => return Err(Error::Overflow),
        };
        Ok(FileRange { file_range: file_start..file_end, virt_range: MemoryRange { flags, memory } })
    }
}

/// Checks that the segment `curr` lies before the segment `next` in memory, apart from it.
/// Returns `Error::InvalidArgument` where they overlap or are out of order.
pub fn validate_order(curr: &VirtRange, next: &VirtRange) -> (r: Result<()>)
    ensures
        r is Ok <==> curr.memory@.1 <= next.memory@.0,
        r is Err ==> r == Err::<(), Error>(Error::InvalidArgument),
{
    match curr.memory.partial_cmp(&next.memory) {
        Some(Ordering::Less) => Ok(()),
        _ => Err(Error::InvalidArgument),
    }
}

/// Whether a segment is a valid block of virtual addresses whose end is a valid address
/// where it is not empty.
pub open spec fn virt_range_ok(range: VirtRange) -> bool {
    &&& range.memory.wf()
    &&& range.memory@.0 < range.memory@.1 ==> valid_index::<Virt>(range.memory@.1)
}

/// Whether the pages of the block of addresses `memory` lie within those of the part of
/// memory `curr` loaded before, so that loading it reserves and maps nothing.
pub open spec fn within_loaded_pages(curr: Option<VirtRange>, memory: (int, int)) -> bool {
    match curr {
        Some(c) => first_page(c.memory@) <= first_page(memory) && end_page(memory) <= end_page(
            c.memory@,
        ),
        None => false,
    }
}

/// The first page of the block of addresses `memory`.
pub open spec fn first_page(memory: (int, int)) -> int {
    memory.0 / 4096
}

/// The page past the last page of the block of addresses `memory`.
pub open spec fn end_page(memory: (int, int)) -> int {
    if memory.0 == memory.1 { memory.0 / 4096 } else { (memory.1 - 1) / 4096 + 1 }
}

/// Where the pages of two consecutive nonempty segments meet, they share exactly the last
/// page of the first, which is the first page of the second.
proof fn lemma_shared_page(curr: VirtRange, next: VirtRange)
    requires
        virt_range_ok(curr),
        virt_range_ok(next),
        curr.memory@.1 <= next.memory@.0,
        curr.memory@.0 < curr.memory@.1,
        next.memory@.0 < next.memory@.1,
    ensures
        end_page(curr.memory@) - 1 <= first_page(next.memory@),
        end_page(curr.memory@) <= end_page(next.memory@),
        first_page(curr.memory@) <= first_page(next.memory@),
        first_page(curr.memory@) < end_page(curr.memory@),
{
}

/// The rest of the second segment, from a page start or the start of the first segment
/// where they share a page, is a valid block of addresses.
proof fn lemma_rest_valid(curr: VirtRange, next: VirtRange, start: int)
    requires
        usize::BITS == 64,
        virt_range_ok(curr),
        virt_range_ok(next),
        curr.memory@.1 <= next.memory@.0,
        curr.memory@.0 < curr.memory@.1,
        next.memory@.0 < next.memory@.1,
        end_page(curr.memory@) - 1 == first_page(next.memory@),
        start == end_page(curr.memory@) * 4096 && start < next.memory@.1
            || start == first_page(next.memory@) * 4096
            || start == curr.memory@.0,
    ensures
        crate::memory::block::valid_block::<Virt>(start, next.memory@.1),
{
    let ns = next.memory@.0;
    let ne = next.memory@.1;
    let cs = curr.memory@.0;
    let ce = curr.memory@.1;
    assert(ns * 1 == ns && (ne - 1) * 1 == ne - 1 && ne * 1 == ne && cs * 1 == cs && (ce - 1) * 1 == ce - 1);
    assert(start * 1 == start);
    assert(VirtTag::spec_is_valid(ns as usize) && VirtTag::spec_is_valid((ne - 1) as usize));
    assert(VirtTag::spec_is_same_half(ns as usize, (ne - 1) as usize));
    assert(VirtTag::spec_is_valid(cs as usize) && VirtTag::spec_is_valid((ce - 1) as usize));
    assert(VirtTag::spec_is_same_half(cs as usize, (ce - 1) as usize));
    VirtTag::lemma_round_down(ns as usize, 4096);
    VirtTag::lemma_round_down((ce - 1) as usize, 4096);
    assert(ns - ns % 4096 == first_page(next.memory@) * 4096);
    assert((ce - 1) - (ce - 1) % 4096 == first_page(next.memory@) * 4096);
    assert(start <= ne);
    assert(crate::memory::block::last_index(start, ne) == ne - 1);
}

/// Splits two consecutive segments, `curr` before `next`, into what the loader maps: the
/// pages of `curr` that `next` does not touch, with the flags of `curr`; the page they share,
/// with the flags of both, where `next` goes past it; and what remains of `next` to map,
/// which starts at the shared page where `next` ends within it (with the flags of both).
/// Where their pages do not meet, the pages of `curr` and `next` itself.
/// Returns `Error::InvalidArgument` where `curr` does not end before `next` starts.
#[verifier::spinoff_prover]
#[verifier::rlimit(40)]
pub fn combine(curr: VirtRange, next: VirtRange) -> (r: Result<(Option<PageRange>, Option<PageRange>, VirtRange)>)
    requires
        usize::BITS == 64,
        virt_range_ok(curr),
        virt_range_ok(next),
    ensures
        !(curr.memory@.1 <= next.memory@.0) ==> r == Err::<(Option<PageRange>, Option<PageRange>, VirtRange), Error>(Error::InvalidArgument),
        ({
            let cs = first_page(curr.memory@);
            let ce = end_page(curr.memory@);
            let ns = first_page(next.memory@);
            let curr_empty = curr.memory@.0 == curr.memory@.1;
            let next_empty = next.memory@.0 == next.memory@.1;
            curr.memory@.1 <= next.memory@.0 && (curr_empty || next_empty || ce <= ns)
                ==> (r matches Ok((Some(pages), None, rest))
                    && pages.flags == curr.flags && pages.memory@ == (cs, ce) && rest == next)
        }),
        ({
            let cs = first_page(curr.memory@);
            let ce = end_page(curr.memory@);
            let ns = first_page(next.memory@);
            let both = curr.flags@ | next.flags@;
            curr.memory@.1 <= next.memory@.0 && curr.memory@.0 < curr.memory@.1 && next.memory@.0 < next.memory@.1
                && ce > ns && valid_index::<Page>(ce)
                ==> match r {
                    Ok((before, boundary, rest)) => {
                        &&& cs < ce - 1 ==> (before matches Some(p) && p.flags == curr.flags && p.memory@ == (cs, ce - 1))
                        &&& cs >= ce - 1 ==> before is None
                        &&& next.memory@.1 > ce * 4096 ==> (boundary matches Some(p) && p.flags@ == both && p.memory@ == (ce - 1, ce))
                        &&& next.memory@.1 <= ce * 4096 ==> boundary is None
                        &&& rest.memory@ == (
                            if boundary is Some { ce * 4096 } else if before is Some { (ce - 1) * 4096 } else { curr.memory@.0 as int },
                            next.memory@.1,
                        )
                        &&& rest.flags@ == if boundary is None { both } else { next.flags@ }
                    },
                    Err(_) => false,
                }
        }),
        r matches Ok((before, boundary, rest)) ==> {
            &&& virt_range_ok(rest)
            &&& rest.memory@.1 == next.memory@.1
            &&& curr.memory@.0 <= rest.memory@.0
            &&& before matches Some(p) ==> p.memory.wf() && first_page(curr.memory@) <= p.memory@.0
                && p.memory@.1 <= end_page(curr.memory@)
            &&& boundary matches Some(p) ==> p.memory.wf() && first_page(curr.memory@) <= p.memory@.0
                && p.memory@.1 <= end_page(next.memory@)
        },
{
    match validate_order(&curr, &next) {
        Ok(()) => {},
        Err(e) => return Err(e),
    }
    let curr_pages = curr.memory.enclosing();
    let next_pages = next.memory.enclosing();
    let both = curr.flags.union(next.flags);
    if curr_pages.is_disjoint(next_pages) {
        return Ok((Some(MemoryRange { flags: curr.flags, memory: curr_pages }), None, next));
    }
    let overlap_start = if curr_pages.start() < next_pages.start() { next_pages.start() } else { curr_pages.start() };
    let overlap_end = if curr_pages.end() < next_pages.end() { curr_pages.end() } else { next_pages.end() };
    proof {
        lemma_shared_page(curr, next);
    }
    let before = if curr_pages.start() < overlap_end - 1 {
        match Block::<Page>::from_index(curr_pages.start(), overlap_end - 1) {
            Ok(b) => Some(MemoryRange { flags: curr.flags, memory: b }),
            Err(e) => return Err(e),
        }
    } else {
        None
    };
    let boundary = if overlap_start < overlap_end {
        let last_page = match Page::from_index(overlap_end - 1) {
            Ok(p) => p,
            Err(e) => return Err(e),
        };
        let last_page_end = match last_page + 1 {
            Ok(p) => p.address(),
            Err(e) => return Err(e),
        };
        let next_end = match next.memory.end_address() {
            Ok(a) => a,
            Err(e) => return Err(e),
        };
        if next_end.into_usize() > last_page_end.into_usize() {
            match Block::<Page>::from_index(overlap_end - 1, overlap_end) {
                Ok(b) => Some(MemoryRange { flags: both, memory: b }),
                Err(e) => return Err(e),
            }
        } else {
            None
        }
    } else {
        None
    };
    let start = if boundary.is_some() {
        match Page::from_index(overlap_end) {
            Ok(p) => p.address(),
            Err(e) => return Err(e),
        }
    } else if before.is_some() {
        match Page::from_index(overlap_end - 1) {
            Ok(p) => p.address(),
            Err(e) => return Err(e),
        }
    } else {
        curr.memory.start_address()
    };
    let next_end = match next.memory.end_address() {
        Ok(a) => a,
        Err(e) => return Err(e),
    };
    proof {
        if boundary is Some {
            assert(start@ == overlap_end * 4096);
        } else if before is Some {
            assert(start@ == (overlap_end - 1) * 4096);
        } else {
            assert(curr.memory@.0 * 1 == curr.memory@.0);
            assert(start@ == curr.memory@.0);
        }
        if end_page(curr.memory@) - 1 == first_page(next.memory@) && curr.memory@.1 <= next.memory@.0
            && curr.memory@.0 < curr.memory@.1 && next.memory@.0 < next.memory@.1 {
            lemma_rest_valid(curr, next, start@ as int);
        }
    }
    let memory = match Block::<Virt>::new(start, next_end) {
        Ok(b) => b,
        Err(e) => return Err(e),
    };
    let flags = if boundary.is_none() && overlap_start < overlap_end { both } else { next.flags };
    Ok((before, boundary, MemoryRange { flags, memory }))
}


/// The pages that enclose the segment `range`, with its flags.
pub fn enclosing_pages(range: VirtRange) -> (r: PageRange)
    requires
        usize::BITS == 64,
        virt_range_ok(range),
    ensures
        r.flags == range.flags,
        r.memory.wf(),
        r.memory@ == (first_page(range.memory@), end_page(range.memory@)),
{
    MemoryRange { flags: range.flags, memory: range.memory.enclosing() }
}

/// The state of the loading of an ELF file: the part of memory whose page flags may still
/// change, and the pages of the source address space where the segments are assembled
/// before their frames move to the destination address space.
///
/// A segment is loaded in three steps: `extend_mapping` reserves its pages in the
/// destination and grows the source pages to hold it; the caller copies its bytes from the
/// file to the source pages at `copy_offset`, zeroing the rest of its memory;
/// `commit_program_header` moves to the destination, with their final flags, the pages whose
/// flags can no longer change. `finish` moves the rest.
#[derive(Debug)]
pub struct Loader {
    curr: Option<VirtRange>,
    src_block: Block<Page>,
    src_block_start_addr: Option<Virt>,
}

impl Loader {
    /// The part of memory loaded whose page flags may still change.
    pub closed spec fn spec_curr(&self) -> Option<VirtRange> {
        self.curr
    }

    /// The pages of the source address space where the segments are assembled.
    pub closed spec fn spec_src_block(&self) -> Block<Page> {
        self.src_block
    }

    /// The page of the destination that the first page of the source pages stands for,
    /// once a segment was seen.
    pub closed spec fn spec_src_start(&self) -> Option<int> {
        match self.src_block_start_addr {
            Some(a) => Some(a@ as int / 4096),
            None => None,
        }
    }

    /// The page that the source pages start for is given by its address.
    pub closed spec fn spec_src_start_aligned(&self) -> bool {
        match self.src_block_start_addr {
            Some(a) => a@ as int % 4096 == 0,
            None => true,
        }
    }

    /// The source pages are a valid block, and they cover the part of memory still to move.
    pub open spec fn wf(&self) -> bool {
        &&& self.spec_src_block().wf()
        &&& self.spec_src_start_aligned()
        &&& self.spec_curr() matches Some(c) ==> {
            &&& virt_range_ok(c)
            &&& self.spec_src_start() matches Some(s) && s <= first_page(c.memory@)
                && end_page(c.memory@) <= s + self.spec_src_block().spec_count()
        }
    }

    /// Nothing loaded yet.
    pub fn new() -> (r: Self)
        ensures
            r.wf(),
            r.spec_curr() is None,
            r.spec_src_start() is None,
            r.spec_src_block()@ == (0int, 0int),
    {
        proof {
            crate::collections::dynamic_bitmap::lemma_zero_block_valid();
        }
        Loader { curr: None, src_block: Block::zero(), src_block_start_addr: None }
    }

    /// The pages of the source address space where the segments are assembled.
    pub fn src_block(&self) -> (r: Block<Page>)
        ensures
            r == self.spec_src_block(),
    {
        self.src_block
    }

    /// Reserves in the destination the pages of the segment `next` that the part of memory
    /// loaded before does not have, and grows the source pages, with the default flags of
    /// the source and writable, to reach the end of `next`. The first segment fixes the page
    /// that the source pages start for. Returns the new source pages, which must be zeroed.
    pub fn extend_mapping<T: BigAllocatorPair>(&mut self, allocator: &mut T, next: &FileRange) -> (r: Result<Block<Page>>)
        requires
            usize::BITS == 64,
            old(self).wf(),
            virt_range_ok(next.virt_range),
            old(self).spec_curr() is Some ==> (old(self).spec_src_start() matches Some(s)
                && s <= end_page(next.virt_range.memory@)
                && (end_page(next.virt_range.memory@) - s) * PAGE_BYTES <= isize::MAX),
            old(self).spec_curr() is None ==> (end_page(next.virt_range.memory@)
                - first_page(next.virt_range.memory@)) * PAGE_BYTES <= isize::MAX,
        ensures
            final(self).wf(),
            final(self).spec_curr() == old(self).spec_curr(),
            final(self).spec_src_start() == if old(self).spec_curr() is Some {
                old(self).spec_src_start()
            } else {
                Some(first_page(next.virt_range.memory@))
            },
            final(self).spec_src_block().spec_count() >= old(self).spec_src_block().spec_count(),
            r matches Ok(fresh) ==> {
                let s = final(self).spec_src_start()->0;
                &&& end_page(next.virt_range.memory@) <= s + final(self).spec_src_block().spec_count()
                &&& fresh.wf()
                &&& fresh@.0 < fresh@.1 ==> fresh@.1 == final(self).spec_src_block()@.1
                &&& fresh@.1 - fresh@.0 == final(self).spec_src_block().spec_count()
                    - old(self).spec_src_block().spec_count()
            },
            within_loaded_pages(old(self).spec_curr(), next.virt_range.memory@)
                ==> (r matches Ok(fresh) && fresh@.0 == fresh@.1
                    && final(self).spec_src_block() == old(self).spec_src_block()),
    {
        let next_page_block = next.virt_range.memory.enclosing();
        let dst_new_pages = match &self.curr {
            Some(curr) => {
                let curr_page_block = curr.memory.enclosing();
                if curr_page_block.is_disjoint(next_page_block) {
                    next_page_block
                } else {
                    let overlap_end = if curr_page_block.end() < next_page_block.end() {
                        curr_page_block.end()
                    } else {
                        next_page_block.end()
                    };
                    if overlap_end < next_page_block.end() {
                        match Block::<Page>::from_index(overlap_end, next_page_block.end()) {
                            Ok(b) => b,
                            Err(e) => return Err(e),
                        }
                    } else {
                        Block::zero()
                    }
                }
            },
            None => {
                let start = next_page_block.start_address();
                proof {
                    Page::lemma_type();
                    assert(start@ == next_page_block@.0 * 4096);
                    vstd::arithmetic::div_mod::lemma_div_by_multiple(next_page_block@.0, 4096);
                    assert(start@ as int / 4096 == first_page(next.virt_range.memory@));
                }
                self.src_block_start_addr = Some(start);
                next_page_block
            },
        };
        if !dst_new_pages.is_empty() {
            let mut dst = allocator.dst();
            match dst.reserve_fixed(dst_new_pages) {
                Ok(()) => {},
                Err(e) => return Err(e),
            }
        }
        let src_block_start = match self.src_block_start_addr {
            Some(a) => crate::memory::frage::Page::index_by_address(a),
            None => 0,
        };
        let total_pages_needed = next_page_block.end() - src_block_start;
        if total_pages_needed > self.src_block.count() {
            let mut src = allocator.src();
            let src_flags = src.flags().union(PageTableFlags::writable());
            let old_count = self.src_block.count();
            let new_src_block = match PageCalls::new(&mut src).grow(self.src_block, total_pages_needed * PAGE_BYTES, PAGE_BYTES, src_flags) {
                Ok(b) => b,
                Err(e) => return Err(e),
            };
            proof {
                new_src_block.lemma_bounds();
                assert(new_src_block.spec_count() >= total_pages_needed) by (nonlinear_arith)
                    requires new_src_block.spec_count() * 4096 >= total_pages_needed * 4096;
            }
            let fresh = match Block::<Page>::from_index(new_src_block.start() + old_count, new_src_block.end()) {
                Ok(b) => b,
                Err(e) => return Err(e),
            };
            self.src_block = new_src_block;
            return Ok(fresh);
        }
        proof {
            crate::collections::dynamic_bitmap::lemma_zero_block_valid();
        }
        Ok(Block::zero())
    }

    /// Starts the loading of the segment `next`: checks that it is a valid block of virtual
    /// addresses that does not start before the first segment and that the source pages can
    /// reach, then extends the mapping for it (see `extend_mapping`). Returns the new source
    /// pages, which must be zeroed, and where the bytes of `next` go in the source pages.
    /// Returns `Error::InvalidArgument` where a check fails, and the error of
    /// `extend_mapping` where it fails.
    pub fn begin_program_header<T: BigAllocatorPair>(&mut self, allocator: &mut T, next: &FileRange) -> (r: Result<(Block<Page>, usize)>)
        requires
            usize::BITS == 64,
            old(self).wf(),
        ensures
            final(self).wf(),
            final(self).spec_curr() == old(self).spec_curr(),
            r matches Ok((fresh, offset)) ==> {
                &&& virt_range_ok(next.virt_range)
                &&& final(self).spec_src_start() matches Some(s) && {
                    &&& s * PAGE_BYTES <= next.virt_range.memory@.0
                    &&& offset == next.virt_range.memory@.0 - s * PAGE_BYTES
                    &&& end_page(next.virt_range.memory@) <= s + final(self).spec_src_block().spec_count()
                    &&& old(self).spec_curr() is None ==> s == first_page(next.virt_range.memory@)
                }
                &&& fresh.wf()
                &&& fresh@.0 < fresh@.1 ==> fresh@.1 == final(self).spec_src_block()@.1
            },
            !virt_range_ok(next.virt_range) ==> r == Err::<(Block<Page>, usize), Error>(Error::InvalidArgument),
            virt_range_ok(next.virt_range) && old(self).spec_curr() is Some
                && first_page(next.virt_range.memory@) < old(self).spec_src_start()->0
                ==> r == Err::<(Block<Page>, usize), Error>(Error::InvalidArgument),
            virt_range_ok(next.virt_range) && end_page(next.virt_range.memory@) - (if old(self).spec_curr() is Some {
                old(self).spec_src_start()->0
            } else {
                first_page(next.virt_range.memory@)
            }) > (isize::MAX as int) / (PAGE_BYTES as int)
                ==> r == Err::<(Block<Page>, usize), Error>(Error::InvalidArgument),
            virt_range_ok(next.virt_range) && within_loaded_pages(old(self).spec_curr(), next.virt_range.memory@)
                && end_page(next.virt_range.memory@) - old(self).spec_src_start()->0 <= (isize::MAX as int) / (PAGE_BYTES as int)
                ==> (r matches Ok((fresh, _)) && fresh@.0 == fresh@.1
                    && final(self).spec_src_block() == old(self).spec_src_block()),
    {
        let memory = next.virt_range.memory;
        if Block::<Virt>::from_index(memory.start(), memory.end()).is_err() {
            return Err(Error::InvalidArgument);
        }
        if !memory.is_empty() && memory.end_address().is_err() {
            return Err(Error::InvalidArgument);
        }
        proof {
            memory.lemma_bounds();
        }
        let first = memory.start() / PAGE_BYTES;
        let end = if memory.is_empty() { first } else { (memory.end() - 1) / PAGE_BYTES + 1 };
        let start = match (&self.curr, self.src_block_start_addr) {
            (Some(_), Some(a)) => crate::memory::frage::Page::index_by_address(a),
            (Some(_), None) => return Err(Error::InvalidArgument),
            (None, _) => first,
        };
        if first < start || end - start > (isize::MAX as usize) / PAGE_BYTES {
            return Err(Error::InvalidArgument);
        }
        proof {
            assert((end - start) * 4096 <= isize::MAX) by (nonlinear_arith)
                requires end - start <= (isize::MAX as int) / 4096;
        }
        let fresh = match self.extend_mapping(allocator, next) {
            Ok(f) => f,
            Err(e) => return Err(e),
        };
        proof {
            assert(start * 4096 <= memory@.0) by (nonlinear_arith)
                requires start <= first, first == memory@.0 / 4096;
        }
        Ok((fresh, self.copy_offset(next)))
    }

    /// Where the bytes of the segment `next` go in the source pages: its offset from the
    /// start of the page that the source pages start for.
    pub fn copy_offset(&self, next: &FileRange) -> (r: usize)
        requires
            self.wf(),
            self.spec_src_start() matches Some(s) && s * PAGE_BYTES <= next.virt_range.memory@.0,
        ensures
            r == next.virt_range.memory@.0 - self.spec_src_start()->0 * PAGE_BYTES,
    {
        let start = match self.src_block_start_addr {
            Some(a) => a.into_usize(),
            None => 0,
        };
        next.virt_range.memory.start() - start
    }

    /// Moves the source pages that stand for the destination pages `page_range` to the
    /// destination, with the flags of `page_range` and the default flags of the destination.
    /// Returns `Error::InvalidArgument` where the source pages do not stand for all of them.
    fn finalize_mapping<T: BigAllocatorPair>(&self, allocator: &mut T, page_range: PageRange) -> (r: Result<()>)
        requires
            usize::BITS == 64,
            self.wf(),
            page_range.memory.wf(),
        ensures
            page_range.memory@.0 == page_range.memory@.1 ==> r is Ok,
            ({
                let covered = self.spec_src_start() matches Some(s) && s <= page_range.memory@.0
                    && page_range.memory@.1 <= s + self.spec_src_block().spec_count();
                page_range.memory@.0 < page_range.memory@.1 && !covered
                    ==> r == Err::<(), Error>(Error::InvalidArgument)
            }),
    {
        if page_range.memory.is_empty() {
            return Ok(());
        }
        let dst_start = match self.src_block_start_addr {
            Some(a) => crate::memory::frage::Page::index_by_address(a),
            None => return Err(Error::InvalidArgument),
        };
        if page_range.memory.start() < dst_start
            || page_range.memory.end() - dst_start > self.src_block.count() {
            return Err(Error::InvalidArgument);
        }
        proof {
            self.src_block.lemma_bounds();
        }
        let offset = page_range.memory.start() - dst_start;
        let src_start = self.src_block.start();
        let src_block = match Block::<Page>::from_index(src_start + offset, src_start + offset + page_range.memory.count()) {
            Ok(b) => b,
            Err(e) => return Err(e),
        };
        let final_flags = page_range.flags.union(allocator.dst().flags());
        allocator.copy_mapping(src_block, page_range.memory, Some(final_flags))
    }

    /// Moves to the destination, with their final flags, the pages of the segment `next`,
    /// whose bytes are in the source pages, and of the part of memory loaded before, whose
    /// flags can no longer change: see `combine`. What may still change is kept for the
    /// next segment. Returns `Error::InvalidArgument` where `next` does not come after the
    /// part of memory loaded before.
    pub fn commit_program_header<T: BigAllocatorPair>(&mut self, allocator: &mut T, next: VirtRange) -> (r: Result<()>)
        requires
            usize::BITS == 64,
            old(self).wf(),
            virt_range_ok(next),
            old(self).spec_src_start() matches Some(s)
                && (old(self).spec_curr() is None ==> s <= first_page(next.memory@))
                && end_page(next.memory@) <= s + old(self).spec_src_block().spec_count(),
        ensures
            final(self).wf(),
            final(self).spec_src_start() == old(self).spec_src_start(),
            final(self).spec_src_block() == old(self).spec_src_block(),
            old(self).spec_curr() is None && r is Ok ==> final(self).spec_curr() == Some(next),
            old(self).spec_curr() matches Some(c) && !(c.memory@.1 <= next.memory@.0)
                ==> r == Err::<(), Error>(Error::InvalidArgument),
            r is Ok ==> (final(self).spec_curr() matches Some(c) && c.memory@.1 == next.memory@.1),
    {
        match self.curr {
            Some(curr) => {
                let (before, boundary, rest) = match combine(curr, next) {
                    Ok(parts) => parts,
                    Err(e) => return Err(e),
                };
                if let Some(page_range) = before {
                    match self.finalize_mapping(allocator, page_range) {
                        Ok(()) => {},
                        Err(e) => return Err(e),
                    }
                }
                if let Some(page_range) = boundary {
                    match self.finalize_mapping(allocator, page_range) {
                        Ok(()) => {},
                        Err(e) => return Err(e),
                    }
                }
                proof {
                    let s = self.spec_src_start()->0;
                    assert(first_page(rest.memory@) >= first_page(curr.memory@)) by {
                        vstd::arithmetic::div_mod::lemma_div_is_ordered(curr.memory@.0, rest.memory@.0, 4096);
                    }
                }
                self.curr = Some(rest);
            },
            None => {
                self.curr = Some(next);
            },
        }
        Ok(())
    }

    /// Ends the loading: moves to the destination the pages of the part of memory still
    /// loaded, with their final flags.
    pub fn finish<T: BigAllocatorPair>(&mut self, allocator: &mut T) -> (r: Result<()>)
        requires
            usize::BITS == 64,
            old(self).wf(),
        ensures
            final(self).wf(),
            final(self).spec_curr() is None,
            final(self).spec_src_start() == old(self).spec_src_start(),
            final(self).spec_src_block() == old(self).spec_src_block(),
    {
        match self.curr.take() {
            Some(curr) => {
                let page_range = enclosing_pages(curr);
                self.finalize_mapping(allocator, page_range)
            },
            None => Ok(()),
        }
    }
}

} // verus!
