use std::cell::RefCell;
use std::rc::Rc;

use ku::allocator::big::{BigAllocator, BigAllocatorGuard, PageCalls};
use ku::allocator::big_pair::BigAllocatorPair;
use ku::process::elf::{FileRange, Loader, PROGRAM_FLAG_R, PROGRAM_FLAG_W, PROGRAM_FLAG_X};
use ku::allocator::dispatcher::{
    fallback_pages, fixed_size_allocate, fixed_size_deallocate, get_fixed_size_index, get_size,
    fallback_has_room, fixed_size_reallocate_in_place, info_has_room, realloc_plan,
    update_fallback_info, Operation, ReallocPlan,
};
use ku::allocator::dry::{try_into_block, DryAllocator, Initialize};
use ku::allocator::{DetailedInfo, Info};
use ku::allocator::fixed_size::{FixedSizeAllocator, CLIP_SIZE};
use ku::allocator::quarry::{Quarry, SLAB_SIZE};
use ku::collections::DynamicBitmap;
use ku::error::{Error, Result};
use ku::memory::{Block, Page, PageTableFlags, Virt};

#[derive(Default)]
struct State {
    next_page: usize,
    reserved: Vec<(usize, usize)>,
    mapped: Vec<(usize, usize)>,
    refuse_fixed: bool,
    refuse_map: bool,
}

#[derive(Clone, Default)]
struct Pages(Rc<RefCell<State>>);

impl Pages {
    fn new() -> Self {
        let pages = Pages::default();
        pages.0.borrow_mut().next_page = 0x100;
        pages
    }

    fn mapped_pages(&self) -> usize {
        self.0.borrow().mapped.iter().map(|(start, end)| end - start).sum()
    }
}

impl BigAllocator for Pages {
    fn flags(&self) -> PageTableFlags {
        PageTableFlags::empty()
    }

    fn set_flags(&mut self, _flags: PageTableFlags) -> Result<()> {
        Ok(())
    }

    fn reserve(&mut self, size: usize, _align: usize) -> Result<Block<Page>> {
        let mut state = self.0.borrow_mut();
        let count = (size + 4095) / 4096;
        let start = state.next_page;
        state.next_page += count + 16;
        state.reserved.push((start, start + count));
        Block::from_index(start, start + count)
    }

    fn reserve_fixed(&mut self, block: Block<Page>) -> Result<()> {
        let mut state = self.0.borrow_mut();
        if state.refuse_fixed {
            return Err(Error::NoPage);
        }
        state.reserved.push((block.start(), block.end()));
        Ok(())
    }

    fn unreserve(&mut self, block: Block<Page>) -> Result<()> {
        let mut state = self.0.borrow_mut();
        state.reserved.retain(|&(start, _)| start != block.start());
        Ok(())
    }

    fn rereserve(&mut self, _old_block: Block<Page>, _sub_block: Block<Page>) -> Result<()> {
        Ok(())
    }

    fn map(&mut self, block: Block<Page>, _flags: PageTableFlags) -> Result<()> {
        let mut state = self.0.borrow_mut();
        if state.refuse_map {
            return Err(Error::NoFrame);
        }
        if block.start() != block.end() {
            state.mapped.push((block.start(), block.end()));
        }
        Ok(())
    }

    fn unmap(&mut self, block: Block<Page>) -> Result<()> {
        let mut state = self.0.borrow_mut();
        let (start, end) = (block.start(), block.end());
        let mut kept = Vec::new();
        for &(s, e) in state.mapped.iter() {
            if e <= start || end <= s {
                kept.push((s, e));
            } else {
                if s < start {
                    kept.push((s, start));
                }
                if end < e {
                    kept.push((end, e));
                }
            }
        }
        state.mapped = kept;
        Ok(())
    }

    fn copy_mapping(&mut self, _old: Block<Page>, new: Block<Page>, _flags: Option<PageTableFlags>) -> Result<()> {
        self.0.borrow_mut().mapped.push((new.start(), new.end()));
        Ok(())
    }
}

impl BigAllocatorGuard for Pages {
    type Allocator = Pages;

    fn get(&self) -> Pages {
        self.clone()
    }
}

#[test]
fn grow_makes_grows_in_place_and_moves() {
    let mut pages = Pages::new();
    let flags = PageTableFlags::empty();

    let block = PageCalls::new(&mut pages).grow(Block::zero(), 3 * 4096, 4096, flags).unwrap();
    assert_eq!(block.count(), 3);
    assert_eq!(pages.mapped_pages(), 3);

    assert_eq!(PageCalls::new(&mut pages).grow(block, 3 * 4096, 4096, flags), Ok(block));

    let grown = PageCalls::new(&mut pages).grow(block, 5 * 4096 - 1, 4096, flags).unwrap();
    assert_eq!(grown.start(), block.start());
    assert_eq!(grown.count(), 5);
    assert_eq!(pages.mapped_pages(), 5);

    pages.0.borrow_mut().refuse_fixed = true;
    let moved = PageCalls::new(&mut pages).grow(grown, 8 * 4096, 4096, flags).unwrap();
    assert_ne!(moved.start(), grown.start());
    assert!(moved.count() >= 8);
    assert_eq!(pages.mapped_pages(), 8);
}

#[test]
fn quarry_hands_out_blocks_of_its_slabs() {
    let pages = Pages::new();
    let mut quarry = Quarry::new(24);
    assert_eq!(quarry.size(), 24);
    assert_eq!(quarry.capacity(), 16 * (SLAB_SIZE / 24));
    assert_eq!(quarry.allocation(0), Virt::zero());
    assert_eq!(quarry.allocation_coordinates(SLAB_SIZE / 24 + 3), (1, 3));

    let mut count = 100;
    assert_eq!(quarry.map(0, &mut count, &pages), Ok(1));
    assert_eq!(count, 4096 / 24);

    let slab = quarry.slab(0);
    assert_eq!(slab.count(), 256);
    let address = quarry.allocation(5);
    assert_eq!(address.into_usize(), slab.start() * 4096 + 5 * 24);
    assert_eq!(quarry.allocation_index(address), Some(5));
    assert_eq!(quarry.allocation_index((address + 23).unwrap()), Some(5));
    assert_eq!(quarry.allocation_index(Virt::new(0x10).unwrap()), None);

    let mut more = count + 10;
    assert_eq!(quarry.map(count, &mut more, &pages), Ok(1));
    assert_eq!(more, 8192 / 24);
    assert_eq!(pages.mapped_pages(), 2);

    assert_eq!(quarry.unmap(more, &pages), Ok(2));
    assert_eq!(pages.mapped_pages(), 0);
    assert_eq!(quarry.allocation(5), Virt::zero());
}

#[test]
fn quarry_maps_across_slabs() {
    let pages = Pages::new();
    let mut quarry = Quarry::new(SLAB_SIZE / 2);
    let mut count = 3;
    assert_eq!(quarry.map(0, &mut count, &pages), Ok(256 + 128));
    assert_eq!(count, 3);
    assert_ne!(quarry.allocation(2), Virt::zero());
    let mut all = quarry.capacity();
    assert_eq!(quarry.map(3, &mut all, &pages), Ok(128 + 14 * 256));
    assert_eq!(all, 32);
    assert_eq!(quarry.unmap(all, &pages), Ok(16 * 256));
}

#[test]
fn dynamic_bitmap_grows_and_shrinks() {
    let pages = Pages::new();
    let mut bitmap = DynamicBitmap::new();
    assert!(bitmap.is_empty());
    assert_eq!(bitmap.reserve(100_000, 1, &pages), Ok(()));
    assert_eq!(bitmap.map(10, &pages), Ok(1));
    assert_eq!(bitmap.len(), 10);
    assert_eq!(bitmap.free(), 10);
    assert_eq!(bitmap.allocate(), Some(0));
    assert!(!bitmap.is_free(0));
    assert_eq!(bitmap.map(40_000, &pages), Ok(1));
    assert_eq!(bitmap.free(), 39_999);
    assert!(!bitmap.is_free(0));
    bitmap.set_free(0);
    assert_eq!(DynamicBitmap::page_count(40_000), 2);
    assert_eq!(bitmap.unmap(&pages), Ok(2));
    assert!(bitmap.is_empty());
    assert_eq!(pages.mapped_pages(), 0);
}

#[test]
fn fixed_size_allocator_round_trip() {
    let pages = Pages::new();
    let mut allocator = FixedSizeAllocator::new();
    assert!(allocator.is_empty());
    let frames = allocator.stock_up(64, &pages).unwrap();
    assert_eq!(frames, 1 + 1);
    assert_eq!(allocator.info().pages().positive(), frames);
    assert!(!allocator.is_empty());
    assert_eq!(allocator.size(), 64);

    let mut addresses = Vec::new();
    for _ in 0 .. CLIP_SIZE {
        let address = allocator.allocate();
        assert_ne!(address, Virt::zero());
        assert!(!addresses.contains(&address));
        addresses.push(address);
    }
    assert!(allocator.is_empty());
    assert_eq!(allocator.allocate(), Virt::zero());
    for address in addresses {
        allocator.deallocate(address);
    }
    assert!(!allocator.is_empty());
    assert_eq!(allocator.unmap(&pages), Ok(2));
    assert_eq!(pages.mapped_pages(), 0);
    assert_eq!(allocator.info().pages().negative(), 2);
}

#[test]
fn fixed_size_allocator_reports_allocator_errors() {
    let pages = Pages::new();
    pages.0.borrow_mut().refuse_map = true;
    let mut allocator = FixedSizeAllocator::new();
    assert_eq!(allocator.stock_up(64, &pages), Err(Error::NoFrame));
}

#[test]
fn fixed_size_classes() {
    assert_eq!(get_size(0), 8);
    assert_eq!(get_size(2046), 16376);
    assert_eq!(get_fixed_size_index(1, 1), Some(0));
    assert_eq!(get_fixed_size_index(8, 8), Some(0));
    assert_eq!(get_fixed_size_index(9, 8), Some(1));
    assert_eq!(get_fixed_size_index(1, 16), Some(1));
    assert_eq!(get_fixed_size_index(4000, 8), Some(499));
    assert_eq!(get_fixed_size_index(16376, 8), Some(2046));
    assert_eq!(get_fixed_size_index(16377, 8), None);
    assert_eq!(get_fixed_size_index(4096, 8), None);
    assert_eq!(get_fixed_size_index(1, 4096), None);
}

#[test]
fn realloc_plans() {
    assert_eq!(realloc_plan(16, 8, 16), ReallocPlan::Keep(1));
    assert_eq!(realloc_plan(16, 8, 12), ReallocPlan::Keep(1));
    assert_eq!(realloc_plan(16, 8, 32), ReallocPlan::FixedToFixed(1, 3));
    assert_eq!(realloc_plan(16, 8, 8192), ReallocPlan::FixedToFallback(1));
    assert_eq!(realloc_plan(8192, 8, 16), ReallocPlan::FallbackToFixed(1));
    assert_eq!(realloc_plan(8192, 8, 16384), ReallocPlan::FallbackGrow);
    assert_eq!(realloc_plan(16384 + 8, 8, 8192), ReallocPlan::FallbackShrink);
}

#[test]
fn fallback_page_counts() {
    assert_eq!(fallback_pages(0), (0, 0));
    assert_eq!(fallback_pages(1), (1, 4096));
    assert_eq!(fallback_pages(4096), (1, 4096));
    assert_eq!(fallback_pages(4097), (2, 8192));
}

#[test]
fn fixed_size_allocate_and_deallocate_count() {
    let pages = Pages::new();
    let mut allocator = FixedSizeAllocator::new();
    let mut info = Info::new();
    let index = get_fixed_size_index(50, 8).unwrap();
    assert_eq!(index, 6);

    let address = fixed_size_allocate(&mut allocator, index, 50, &mut info, &pages);
    assert_ne!(address, Virt::zero());
    assert_eq!(info.allocated().positive(), 56);
    assert_eq!(info.allocations().positive(), 1);
    assert_eq!(info.requested().positive(), 50);
    assert_eq!(info.pages().positive(), 2);
    assert_eq!(allocator.info().allocated().positive(), 56);
    assert_eq!(allocator.info().requested().positive(), 50);
    assert_eq!(allocator.info().pages().positive(), 2);

    fixed_size_deallocate(&mut allocator, index, address, 50, &mut info);
    assert_eq!(info.allocated().negative(), 56);
    assert_eq!(info.allocations().negative(), 1);
    assert_eq!(info.requested().negative(), 50);
    assert_eq!(info.allocated().balance(), 0);
    assert_eq!(allocator.info().allocated().negative(), 56);
    assert_eq!(allocator.info().allocations().negative(), 1);

    let again = fixed_size_allocate(&mut allocator, index, 50, &mut info, &pages);
    assert_ne!(again, Virt::zero());
    assert_eq!(info.pages().positive(), 2);
}

#[test]
fn fixed_size_allocate_reports_failure_as_zero() {
    let pages = Pages::new();
    pages.0.borrow_mut().refuse_map = true;
    let mut allocator = FixedSizeAllocator::new();
    let mut info = Info::new();
    let address = fixed_size_allocate(&mut allocator, 7, 64, &mut info, &pages);
    assert_eq!(address, Virt::zero());
    assert_eq!(info.allocations().positive(), 0);
    assert_eq!(info.pages().positive(), 0);
}

#[test]
fn pages_of_address_ranges() {
    let page = Virt::new(0x5000).unwrap();
    assert_eq!(try_into_block(page, 1), Ok(Block::<Page>::from_index(5, 6).unwrap()));
    assert_eq!(try_into_block(page, 4096), Ok(Block::<Page>::from_index(5, 6).unwrap()));
    assert_eq!(try_into_block(page, 4097), Ok(Block::<Page>::from_index(5, 7).unwrap()));
    assert_eq!(try_into_block(page, 0), Ok(Block::<Page>::from_index(5, 5).unwrap()));
    assert_eq!(try_into_block(Virt::new(0x5001).unwrap(), 1), Err(Error::InvalidAlignment));
    let last_lower = Virt::new(0x0000_7FFF_FFFF_F000).unwrap();
    assert_eq!(try_into_block(last_lower, 0x2000), Err(Error::InvalidArgument));
    let last_higher = Virt::new(0xFFFF_FFFF_FFFF_F000).unwrap();
    assert_eq!(try_into_block(last_higher, 0x2000), Err(Error::Overflow));
}

#[test]
fn dry_allocator_grows_shrinks_and_frees() {
    let mut pages = Pages::new();
    let (block, zero) = pages.dry_allocate(5000, 4096, Initialize::Zero).unwrap();
    assert_eq!(block.count(), 2);
    assert_eq!(zero, block);
    let (_, garbage) = pages.dry_allocate(10, 4096, Initialize::Garbage).unwrap();
    assert!(garbage.is_empty());
    let address = block.start_address();

    let (same, tail) = pages.dry_grow(address, 5000, 8000, 4096, Initialize::Zero).unwrap();
    assert_eq!(same, block);
    let base = address.into_usize();
    assert_eq!(tail, Block::<Virt>::from_index(base + 5000, base + 8000).unwrap());

    let (grown, fresh) = pages.dry_grow(address, 8000, 3 * 4096, 4096, Initialize::Zero).unwrap();
    assert_eq!(grown, Block::<Page>::from_index(block.start(), block.start() + 3).unwrap());
    assert_eq!(fresh, Block::<Virt>::from_index(base + 8000, base + 3 * 4096).unwrap());

    pages.0.borrow_mut().refuse_fixed = true;
    let (moved, fresh) = pages.dry_grow(address, 3 * 4096, 5 * 4096, 4096, Initialize::Garbage).unwrap();
    assert_eq!(moved.count(), 5);
    assert_ne!(moved.start(), block.start());
    assert!(fresh.is_empty());

    let moved_address = moved.start_address();
    let shrunk = pages.dry_shrink(moved_address, 5 * 4096, 4096).unwrap();
    assert_eq!(shrunk, Block::<Page>::from_index(moved.start(), moved.start() + 1).unwrap());
    assert_eq!(pages.dry_deallocate(moved_address, 4096), Ok(()));
    assert_eq!(pages.dry_deallocate(Virt::new(0x1234).unwrap(), 1), Err(Error::InvalidAlignment));
}

#[test]
fn fallback_operations_count_whole_pages() {
    let mut fallback = Info::new();
    let mut total = Info::new();
    update_fallback_info(Operation::Allocation, 5000, &mut fallback, &mut total);
    for info in [&fallback, &total] {
        assert_eq!(info.allocated().positive(), 8192);
        assert_eq!(info.allocations().positive(), 1);
        assert_eq!(info.pages().positive(), 2);
        assert_eq!(info.requested().positive(), 5000);
    }
    update_fallback_info(Operation::Deallocation, 5000, &mut fallback, &mut total);
    assert_eq!(fallback.allocated().negative(), 8192);
    assert_eq!(total.pages().negative(), 2);
    assert_eq!(total.requested().balance(), 0);
}

struct Pair {
    dst: Pages,
    src: Pages,
    copies: Vec<(Block<Page>, Block<Page>, Option<u64>)>,
}

impl BigAllocatorPair for Pair {
    type Dst = Pages;
    type Src = Pages;

    fn dst(&mut self) -> Pages {
        self.dst.clone()
    }

    fn src(&mut self) -> Pages {
        self.src.clone()
    }

    fn is_same(&self) -> bool {
        false
    }

    fn copy_mapping(&mut self, src_block: Block<Page>, dst_block: Block<Page>, flags: Option<PageTableFlags>) -> Result<()> {
        self.copies.push((src_block, dst_block, flags.map(|flags| flags.bits())));
        Ok(())
    }
}

fn pages_at(start: usize, end: usize) -> Block<Page> {
    Block::<Page>::from_index(start, end).unwrap()
}

#[test]
fn loader_moves_pages_with_final_flags() {
    let mut pair = Pair { dst: Pages::new(), src: Pages::new(), copies: Vec::new() };
    let mut loader = Loader::new();
    let code = FileRange::from_program_header(PROGRAM_FLAG_R | PROGRAM_FLAG_X, 0x40_0000, 0x1800, 0x1000, 0).unwrap();
    let data = FileRange::from_program_header(PROGRAM_FLAG_R | PROGRAM_FLAG_W, 0x40_1800, 0x1800, 0x800, 0x1000).unwrap();

    let (fresh, offset) = loader.begin_program_header(&mut pair, &code).unwrap();
    assert_eq!(fresh.count(), 2);
    assert_eq!(offset, 0);
    assert_eq!(loader.src_block(), fresh);
    loader.commit_program_header(&mut pair, code.virt_range).unwrap();
    assert!(pair.copies.is_empty());

    let src_start = loader.src_block().start();
    let (fresh, offset) = loader.begin_program_header(&mut pair, &data).unwrap();
    assert_eq!(offset, 0x1800);
    assert_eq!(fresh.count(), 1);
    assert_eq!(loader.src_block().count(), 3);
    assert!(pair.dst.0.borrow().reserved.contains(&(0x402, 0x403)));
    loader.commit_program_header(&mut pair, data.virt_range).unwrap();
    loader.finish(&mut pair).unwrap();

    let src = loader.src_block().start();
    assert_eq!(src, src_start);
    let present = PageTableFlags::present().bits();
    let writable = PageTableFlags::writable().bits();
    let executable = PageTableFlags::executable().bits();
    assert_eq!(
        pair.copies,
        vec![
            (pages_at(src, src + 1), pages_at(0x400, 0x401), Some(present | executable)),
            (pages_at(src + 1, src + 2), pages_at(0x401, 0x402), Some(present | writable | executable)),
            (pages_at(src + 2, src + 3), pages_at(0x402, 0x403), Some(present | writable)),
        ],
    );
}

#[test]
fn loader_refuses_segments_out_of_order() {
    let mut pair = Pair { dst: Pages::new(), src: Pages::new(), copies: Vec::new() };
    let mut loader = Loader::new();
    let high = FileRange::from_program_header(PROGRAM_FLAG_R, 0x50_0000, 0x1000, 0x1000, 0).unwrap();
    let low = FileRange::from_program_header(PROGRAM_FLAG_R, 0x40_0000, 0x1000, 0x1000, 0).unwrap();
    loader.begin_program_header(&mut pair, &high).unwrap();
    loader.commit_program_header(&mut pair, high.virt_range).unwrap();
    assert_eq!(loader.begin_program_header(&mut pair, &low), Err(Error::InvalidArgument));
}

#[test]
fn reallocation_in_place_counts_both_requests() {
    let mut allocator = FixedSizeAllocator::new();
    let mut info = Info::new();
    fixed_size_reallocate_in_place(&mut allocator, 1, 10, 14, &mut info);
    for counters in [&info, allocator.info()] {
        assert_eq!(counters.allocated().positive(), 16);
        assert_eq!(counters.allocated().negative(), 16);
        assert_eq!(counters.allocations().balance(), 0);
        assert_eq!(counters.requested().negative(), 10);
        assert_eq!(counters.requested().positive(), 14);
        assert_eq!(counters.pages().positive(), 0);
    }
}

#[test]
fn counters_tell_their_room() {
    let mut info = Info::new();
    assert!(info_has_room(&info, usize::MAX));
    assert!(fallback_has_room(&info, 5000));
    assert!(!fallback_has_room(&info, usize::MAX));
    info.allocation(usize::MAX - 10, 0, 0);
    assert!(info_has_room(&info, 10));
    assert!(!info_has_room(&info, 11));
    assert!(fallback_has_room(&info, 10));
    assert!(!fallback_has_room(&info, 11));
}

#[test]
fn detailed_info_of_consistent_parts_is_valid() {
    let mut total = Info::new();
    let mut fallback = Info::new();
    let mut fixed = [Info::new(); ku::allocator::FIXED_SIZE_COUNT];
    update_fallback_info(Operation::Allocation, 5000, &mut fallback, &mut total);
    total.allocation(10, 16, 2);
    fixed[1].allocation(10, 16, 2);
    assert!(DetailedInfo::from_parts(total, fallback, fixed).is_valid());
    fixed[2].allocation(10, 24, 1);
    assert!(!DetailedInfo::from_parts(total, fallback, fixed).is_valid());
    assert!(DetailedInfo::new().is_valid());
}

#[test]
fn statistics_add_up_after_each_operation() {
    let pages = Pages::new();
    let mut allocator = FixedSizeAllocator::new();
    let mut total = Info::new();
    let mut fallback = Info::new();
    let index = 3;
    let consistent = |total: Info, fallback: Info, class: Info| {
        let mut fixed = [Info::new(); ku::allocator::FIXED_SIZE_COUNT];
        fixed[index] = class;
        DetailedInfo::from_parts(total, fallback, fixed).is_valid()
    };

    let address = fixed_size_allocate(&mut allocator, index, 30, &mut total, &pages);
    assert!(consistent(total, fallback, *allocator.info()));
    update_fallback_info(Operation::Allocation, 20_000, &mut fallback, &mut total);
    assert!(consistent(total, fallback, *allocator.info()));
    fixed_size_reallocate_in_place(&mut allocator, index, 30, 32, &mut total);
    assert!(consistent(total, fallback, *allocator.info()));
    fixed_size_deallocate(&mut allocator, index, address, 32, &mut total);
    assert!(consistent(total, fallback, *allocator.info()));
    update_fallback_info(Operation::Deallocation, 20_000, &mut fallback, &mut total);
    assert!(consistent(total, fallback, *allocator.info()));
    assert_eq!(total.allocations().balance(), 0);
}

#[test]
fn fragmentation_loss_is_allocated_less_requested() {
    let mut info = Info::new();
    info.allocation(10, 16, 1);
    assert_eq!(info.fragmentation_loss(), 6);
    info.allocation(100, 128, 0);
    assert_eq!(info.fragmentation_loss(), 34);
}

#[test]
fn detailed_info_lists_classes_with_allocations() {
    let mut fixed_size = [Info::new(); 2047];
    fixed_size[2].allocation(20, 24, 0);
    fixed_size[5].allocation(40, 48, 1);
    fixed_size[5].allocation(41, 48, 0);
    let detailed = DetailedInfo::from_parts(Info::new(), Info::new(), fixed_size);
    let shown = detailed.shown_classes();
    assert_eq!(shown.len(), 2);
    assert_eq!(shown[0].0, 24);
    assert_eq!(shown[0].1.allocations().positive(), 1);
    assert_eq!(shown[1].0, 48);
    assert_eq!(shown[1].1.allocations().positive(), 2);
    assert!(DetailedInfo::new().shown_classes().is_empty());
}
