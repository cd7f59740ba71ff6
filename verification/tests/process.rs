use ku::error::Error;
use ku::memory::{Block, Virt};
use ku::process::pid::Pid;
use ku::process::syscall::{ExitCode, ResultCode, Syscall};
use ku::process::trap_info::{Info, Trap, TrapInfo};
use ku::process::{MiniContext, RFlags, State};

#[test]
fn pid_round_trips_through_its_raw_value() {
    for pid in [
        Pid::Current,
        Pid::new(0),
        Pid::new(Pid::MAX_COUNT - 1),
        Pid::Id { epoch: 7, slot: 3 },
        Pid::Id { epoch: u32::MAX, slot: u16::MAX },
    ] {
        assert_eq!(Pid::from_usize(pid.into_usize()), Ok(pid));
    }
    assert_eq!(Pid::Id { epoch: 1, slot: 2 }.into_usize(), 0x1_0002);
    assert_eq!(Pid::Current.into_usize(), usize::MAX - 1);
}

#[test]
fn pid_from_usize_rejects_a_too_big_epoch() {
    assert_eq!(Pid::from_usize(1 << 48), Err(Error::InvalidArgument));
    assert_eq!(Pid::from_usize(usize::MAX), Err(Error::InvalidArgument));
    assert_eq!(Pid::from_usize((1 << 48) - 1), Ok(Pid::Id { epoch: u32::MAX, slot: u16::MAX }));
}

#[test]
fn pid_slot_and_next_epoch() {
    let mut pid = Pid::new(42);
    assert_eq!(pid.slot(), 42);
    pid.next_epoch();
    assert_eq!(pid, Pid::Id { epoch: 1, slot: 42 });
    assert_eq!(pid.slot(), 42);
}

#[test]
fn enums_round_trip_through_their_numbers() {
    for number in 0 .. 16 {
        if let Some(state) = State::try_from_usize(number) {
            assert_eq!(state.into_usize(), number);
        } else {
            assert!(number > 2);
        }
        if let Some(syscall) = Syscall::try_from_usize(number) {
            assert_eq!(syscall.into_usize(), number);
        } else {
            assert!(number > 8);
        }
        if let Some(code) = ResultCode::try_from_usize(number) {
            assert_eq!(code.into_usize(), number);
        } else {
            assert!(number > 11);
        }
        if let Some(code) = ExitCode::try_from_usize(number) {
            assert_eq!(code.into_usize(), number);
        }
    }
    assert_eq!(Syscall::MapPages.into_usize(), 4);
    assert_eq!(Trap::PageFault.into_usize(), 0x0E);
    assert_eq!(Trap::Spurious.into_usize(), 0x31);
    assert_eq!(Trap::try_from_usize(0x09), None);
    assert_eq!(Trap::try_from_usize(0x21), Some(Trap::Keyboard));
}

#[test]
fn result_codes_encode_errors() {
    assert_eq!(ResultCode::from_result::<()>(Ok(())), ResultCode::Success);
    assert_eq!(ResultCode::from_result::<()>(Err(Error::NoFrame)), ResultCode::NoFrame);
    assert_eq!(ResultCode::from_result::<()>(Err(Error::FileNotFound)), ResultCode::Unexpected);
    assert_eq!(ResultCode::NoPage.into_result(), Err(Error::NoPage));
    assert_eq!(ResultCode::Success.into_result(), Ok(()));
}

#[test]
fn rflags_bits() {
    let flags = RFlags(0x3202);
    assert!(flags.contains(RFlags::interrupt_flag()));
    assert!(!flags.contains(RFlags::trap_flag()));
    assert_eq!(flags.iopl(), 3);
    assert_eq!(flags.into_usize(), 0x3202);
    assert_eq!(RFlags::try_from_usize(0x200), Ok(RFlags(0x200)));
    assert_eq!(RFlags::try_from_usize(0x202), Err(Error::InvalidArgument));
    assert_eq!(RFlags::try_from_usize(0x8), Err(Error::InvalidArgument));
    assert_eq!(RFlags::all().complement(), RFlags(0));
}

#[test]
fn mini_context_push_moves_the_stack_down() {
    let rip = Virt::new(0x1000).unwrap();
    let rsp = Virt::new(0x2000).unwrap();
    let mut context = MiniContext::new(rip, rsp);
    let block = context.push::<u64>().unwrap();
    assert_eq!(context.rsp(), Virt::new(0x1FF8).unwrap());
    assert_eq!(context.rip(), rip);
    assert_eq!(block, Block::new(Virt::new(0x1FF8).unwrap(), rsp).unwrap());

    let mut low = MiniContext::new(rip, Virt::new(4).unwrap());
    assert!(low.push::<u64>().is_err());
    assert_eq!(low.rsp(), Virt::new(4).unwrap());
}

#[test]
fn trap_info_keeps_what_the_handler_needs() {
    let address = Virt::new(0xDEAD_B000).unwrap();
    match Info::new(Trap::PageFault, 0x1_0007, address) {
        Info::PageFault { address: a, code } => {
            assert_eq!(a, address);
            assert_eq!(code.bits(), 0x7);
        },
        _ => panic!("a page fault is expected"),
    }
    assert!(matches!(Info::new(Trap::GeneralProtectionFault, 13, address), Info::Code(13)));
    assert!(matches!(Info::new(Trap::Breakpoint, 13, address), Info::Empty));

    let context = MiniContext::new(Virt::new(0x10).unwrap(), Virt::new(0x20).unwrap());
    let trap_info = TrapInfo::new(14, Info::Code(5), context);
    assert_eq!(trap_info.number(), 14);
    assert_eq!(trap_info.context(), context);
    assert!(matches!(trap_info.info(), Info::Code(5)));
}

use ku::memory::{Page, PageTableFlags};
use ku::process::elf::{combine, flags_from_program_header, validate_order, FileRange, MemoryRange, VirtRange};

fn virt_range(start: usize, end: usize, flags: PageTableFlags) -> VirtRange {
    MemoryRange::new(Block::new(Virt::new(start).unwrap(), Virt::new(end).unwrap()).unwrap(), flags)
}

#[test]
fn segment_flags() {
    assert_eq!(flags_from_program_header(0x4).unwrap().bits(), 0x1);
    assert_eq!(flags_from_program_header(0x6).unwrap().bits(), 0x3);
    assert_eq!(flags_from_program_header(0x5).unwrap().bits(), 0x8000_0000_0000_0001);
    assert_eq!(flags_from_program_header(0x3), Err(Error::PermissionDenied));
}

#[test]
fn file_range_of_a_program_header() {
    let range = FileRange::from_program_header(0x6, 0x40_1000, 0x2000, 0x1800, 0x200).unwrap();
    assert_eq!(range.file_range, 0x200 .. 0x1A00);
    assert_eq!(range.virt_range.start_address(), Virt::new(0x40_1000).unwrap());
    assert_eq!(range.virt_range.end_address(), Ok(Virt::new(0x40_3000).unwrap()));
    assert_eq!(range.virt_range.flags.bits(), 0x3);
    assert!(matches!(FileRange::from_program_header(0x4, 0x1000, 0x10, 0x20, 0), Err(Error::Overflow)));
    assert!(matches!(FileRange::from_program_header(0x3, 0x1000, 0x10, 0x10, 0), Err(Error::PermissionDenied)));
}

#[test]
fn combine_segments() {
    let text = PageTableFlags::present();
    let data = PageTableFlags::present().union(PageTableFlags::writable());

    let curr = virt_range(0x1000, 0x2800, text);
    let next = virt_range(0x2800, 0x4000, data);
    assert!(validate_order(&curr, &next).is_ok());
    assert!(validate_order(&next, &curr).is_err());
    let (before, boundary, rest) = combine(curr, next).unwrap();
    let before = before.unwrap();
    assert_eq!(before.flags, text);
    assert_eq!(before.memory, Block::<Page>::from_index(1, 2).unwrap());
    let boundary = boundary.unwrap();
    assert_eq!(boundary.flags, data);
    assert_eq!(boundary.memory, Block::<Page>::from_index(2, 3).unwrap());
    assert_eq!(rest.memory, Block::new(Virt::new(0x3000).unwrap(), Virt::new(0x4000).unwrap()).unwrap());
    assert_eq!(rest.flags, data);

    let far = virt_range(0x8000, 0x9000, data);
    let (before, boundary, rest) = combine(curr, far).unwrap();
    assert_eq!(before.unwrap().memory, Block::<Page>::from_index(1, 3).unwrap());
    assert!(boundary.is_none());
    assert_eq!(rest.memory, far.memory);

    let inside = virt_range(0x2900, 0x2A00, data);
    let (before, boundary, rest) = combine(curr, inside).unwrap();
    assert_eq!(before.unwrap().memory, Block::<Page>::from_index(1, 2).unwrap());
    assert!(boundary.is_none());
    assert_eq!(rest.memory, Block::new(Virt::new(0x2000).unwrap(), Virt::new(0x2A00).unwrap()).unwrap());
    assert_eq!(rest.flags, data);

    assert!(matches!(combine(next, curr), Err(Error::InvalidArgument)));
}

#[test]
fn pid_text() {
    assert_eq!(Pid::Current.to_string(), "<current>");
    let mut pid = Pid::new(3);
    assert_eq!(pid.to_string(), "3:0");
    pid.next_epoch();
    assert_eq!(pid.to_string(), "3:1");
    assert_eq!(Pid::Id { epoch: 4_000_000_000, slot: 65_535 }.to_string(), "65535:4000000000");
}

#[test]
fn rflags_text() {
    assert_eq!(RFlags(0).to_string(), "");
    assert_eq!(RFlags(0x2).to_string(), "");
    assert_eq!(RFlags(0x246).to_string(), "IF ZF PF");
    assert_eq!(RFlags(0x3246).to_string(), "IF ZF PF IOPL-3");
    assert_eq!(RFlags(0x1000).to_string(), "IOPL-1");
    assert_eq!(RFlags(0x20_0001).to_string(), "ID CF");
    assert_eq!(
        RFlags::all().to_string(),
        "ID VP VF AC VM RF NT OF DF IF TF SF ZF AF PF CF IOPL-3",
    );
}
