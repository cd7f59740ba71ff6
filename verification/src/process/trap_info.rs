use vstd::prelude::*;

use crate::memory::addr::Virt;
use crate::memory::page_fault_info::{PageFaultInfo, PAGE_FAULT_ALL};

use super::mini_context::MiniContext;

verus! {

/// The processor exceptions and the hardware interrupts, by their vector numbers.
#[derive(Clone, Copy, Debug, PartialEq, Eq, Structural, PartialOrd, Ord)]
pub enum Trap {
    /// Division by zero.
    DivideError,
    /// A debug exception.
    Debug,
    /// A non-maskable interrupt.
    NonMaskableInterrupt,
    /// A breakpoint instruction.
    Breakpoint,
    /// The `into` instruction found an overflow.
    Overflow,
    /// The `bound` instruction found an index out of range.
    BoundRangeExceeded,
    /// An invalid instruction.
    InvalidOpcode,
    /// The floating point unit is not available.
    DeviceNotAvailable,
    /// A fault while handling a fault.
    DoubleFault,
    /// An invalid task state segment.
    InvalidTss,
    /// A segment that is not present.
    SegmentNotPresent,
    /// A fault of the stack segment.
    StackSegmentFault,
    /// A general protection fault.
    GeneralProtectionFault,
    /// A page fault.
    PageFault,
    /// A floating point error of the x87 unit.
    X87FloatingPoint,
    /// An unaligned access with alignment checks on.
    AlignmentCheck,
    /// A hardware error.
    MachineCheck,
    /// A floating point error of a SIMD instruction.
    SimdFloatingPoint,
    /// A virtualization exception.
    Virtualization,
    /// A security exception.
    SecurityException,
    /// The programmable interval timer.
    Pit,
    /// The keyboard.
    Keyboard,
    /// The cascade of the second interrupt controller.
    Cascade,
    /// The second serial port.
    Com2,
    /// The first serial port.
    Com1,
    /// The second parallel port.
    Lpt2,
    /// The floppy disk.
    FloppyDisk,
    /// The first parallel port.
    Lpt1,
    /// The real time clock.
    Rtc,
    /// A free interrupt line.
    Free29,
    /// A free interrupt line.
    Free2A,
    /// A free interrupt line.
    Free2B,
    /// The PS/2 mouse.
    Ps2Mouse,
    /// The coprocessor.
    Coprocessor,
    /// The first ATA channel.
    Ata0,
    /// The second ATA channel.
    Ata1,
    /// The local timer of the processor.
    Timer,
    /// A spurious interrupt.
    Spurious,
}

/// The vector number of a trap.
pub open spec fn trap_number(trap: Trap) -> int {
    match trap {
        Trap::DivideError => 0x00,
        Trap::Debug => 0x01,
        Trap::NonMaskableInterrupt => 0x02,
        Trap::Breakpoint => 0x03,
        Trap::Overflow => 0x04,
        Trap::BoundRangeExceeded => 0x05,
        Trap::InvalidOpcode => 0x06,
        Trap::DeviceNotAvailable => 0x07,
        Trap::DoubleFault => 0x08,
        Trap::InvalidTss => 0x0a,
        Trap::SegmentNotPresent => 0x0b,
        Trap::StackSegmentFault => 0x0c,
        Trap::GeneralProtectionFault => 0x0d,
        Trap::PageFault => 0x0e,
        Trap::X87FloatingPoint => 0x10,
        Trap::AlignmentCheck => 0x11,
        Trap::MachineCheck => 0x12,
        Trap::SimdFloatingPoint => 0x13,
        Trap::Virtualization => 0x14,
        Trap::SecurityException => 0x1e,
        Trap::Pit => 0x20,
        Trap::Keyboard => 0x21,
        Trap::Cascade => 0x22,
        Trap::Com2 => 0x23,
        Trap::Com1 => 0x24,
        Trap::Lpt2 => 0x25,
        Trap::FloppyDisk => 0x26,
        Trap::Lpt1 => 0x27,
        Trap::Rtc => 0x28,
        Trap::Free29 => 0x29,
        Trap::Free2A => 0x2a,
        Trap::Free2B => 0x2b,
        Trap::Ps2Mouse => 0x2c,
        Trap::Coprocessor => 0x2d,
        Trap::Ata0 => 0x2e,
        Trap::Ata1 => 0x2f,
        Trap::Timer => 0x30,
        Trap::Spurious => 0x31,
    }
}

/// Whether the processor pushes an error code for the trap.
pub open spec fn has_error_code(trap: Trap) -> bool {
    match trap {
        Trap::AlignmentCheck | Trap::DoubleFault | Trap::GeneralProtectionFault | Trap::InvalidTss
        | Trap::SecurityException | Trap::SegmentNotPresent | Trap::StackSegmentFault => true,
        _ => false,
    }
}

impl Trap {
    /// The vector number of the trap.
    pub fn into_usize(self) -> (r: usize)
        ensures
            r == trap_number(self),
    {
        match self {
            Trap::DivideError => 0x00,
            Trap::Debug => 0x01,
            Trap::NonMaskableInterrupt => 0x02,
            Trap::Breakpoint => 0x03,
            Trap::Overflow => 0x04,
            Trap::BoundRangeExceeded => 0x05,
            Trap::InvalidOpcode => 0x06,
            Trap::DeviceNotAvailable => 0x07,
            Trap::DoubleFault => 0x08,
            Trap::InvalidTss => 0x0a,
            Trap::SegmentNotPresent => 0x0b,
            Trap::StackSegmentFault => 0x0c,
            Trap::GeneralProtectionFault => 0x0d,
            Trap::PageFault => 0x0e,
            Trap::X87FloatingPoint => 0x10,
            Trap::AlignmentCheck => 0x11,
            Trap::MachineCheck => 0x12,
            Trap::SimdFloatingPoint => 0x13,
            Trap::Virtualization => 0x14,
            Trap::SecurityException => 0x1e,
            Trap::Pit => 0x20,
            Trap::Keyboard => 0x21,
            Trap::Cascade => 0x22,
            Trap::Com2 => 0x23,
            Trap::Com1 => 0x24,
            Trap::Lpt2 => 0x25,
            Trap::FloppyDisk => 0x26,
            Trap::Lpt1 => 0x27,
            Trap::Rtc => 0x28,
            Trap::Free29 => 0x29,
            Trap::Free2A => 0x2a,
            Trap::Free2B => 0x2b,
            Trap::Ps2Mouse => 0x2c,
            Trap::Coprocessor => 0x2d,
            Trap::Ata0 => 0x2e,
            Trap::Ata1 => 0x2f,
            Trap::Timer => 0x30,
            Trap::Spurious => 0x31,
        }
    }

    /// The trap of vector number `number`, or `None` where no trap has it.
    pub fn try_from_usize(number: usize) -> (r: Option<Self>)
        ensures
            match r {
                Some(t) => trap_number(t) == number,
                None => forall|t: Trap| trap_number(t) != number,
            },
    {
        match number {
            0x00 => Some(Trap::DivideError),
            0x01 => Some(Trap::Debug),
            0x02 => Some(Trap::NonMaskableInterrupt),
            0x03 => Some(Trap::Breakpoint),
            0x04 => Some(Trap::Overflow),
            0x05 => Some(Trap::BoundRangeExceeded),
            0x06 => Some(Trap::InvalidOpcode),
            0x07 => Some(Trap::DeviceNotAvailable),
            0x08 => Some(Trap::DoubleFault),
            0x0a => Some(Trap::InvalidTss),
            0x0b => Some(Trap::SegmentNotPresent),
            0x0c => Some(Trap::StackSegmentFault),
            0x0d => Some(Trap::GeneralProtectionFault),
            0x0e => Some(Trap::PageFault),
            0x10 => Some(Trap::X87FloatingPoint),
            0x11 => Some(Trap::AlignmentCheck),
            0x12 => Some(Trap::MachineCheck),
            0x13 => Some(Trap::SimdFloatingPoint),
            0x14 => Some(Trap::Virtualization),
            0x1e => Some(Trap::SecurityException),
            0x20 => Some(Trap::Pit),
            0x21 => Some(Trap::Keyboard),
            0x22 => Some(Trap::Cascade),
            0x23 => Some(Trap::Com2),
            0x24 => Some(Trap::Com1),
            0x25 => Some(Trap::Lpt2),
            0x26 => Some(Trap::FloppyDisk),
            0x27 => Some(Trap::Lpt1),
            0x28 => Some(Trap::Rtc),
            0x29 => Some(Trap::Free29),
            0x2a => Some(Trap::Free2A),
            0x2b => Some(Trap::Free2B),
            0x2c => Some(Trap::Ps2Mouse),
            0x2d => Some(Trap::Coprocessor),
            0x2e => Some(Trap::Ata0),
            0x2f => Some(Trap::Ata1),
            0x30 => Some(Trap::Timer),
            0x31 => Some(Trap::Spurious),
            _ => None,
        }
    }
}

/// Each processor exception has its x86-64 vector: divide error 0, debug 1, non-maskable
/// interrupt 2, breakpoint 3, overflow 4, bound range 5, invalid opcode 6, device not
/// available 7, double fault 8, invalid TSS 10, segment not present 11, stack-segment fault
/// 12, general protection fault 13, page fault 14, x87 floating point 16, alignment check 17,
/// machine check 18, SIMD floating point 19, virtualization 20, security exception 30. The
/// sixteen lines of the two 8259 interrupt controllers follow from 0x20 in line order (the
/// interval timer on line 0, the real-time clock on line 8), then the local timer and the
/// spurious interrupt. So `into_usize` gives, and `try_from_usize` reads back, these numbers.
pub proof fn lemma_trap_vectors()
    ensures
        trap_number(Trap::DivideError) == 0,
        trap_number(Trap::Debug) == 1,
        trap_number(Trap::NonMaskableInterrupt) == 2,
        trap_number(Trap::Breakpoint) == 3,
        trap_number(Trap::Overflow) == 4,
        trap_number(Trap::BoundRangeExceeded) == 5,
        trap_number(Trap::InvalidOpcode) == 6,
        trap_number(Trap::DeviceNotAvailable) == 7,
        trap_number(Trap::DoubleFault) == 8,
        trap_number(Trap::InvalidTss) == 10,
        trap_number(Trap::SegmentNotPresent) == 11,
        trap_number(Trap::StackSegmentFault) == 12,
        trap_number(Trap::GeneralProtectionFault) == 13,
        trap_number(Trap::PageFault) == 14,
        trap_number(Trap::X87FloatingPoint) == 16,
        trap_number(Trap::AlignmentCheck) == 17,
        trap_number(Trap::MachineCheck) == 18,
        trap_number(Trap::SimdFloatingPoint) == 19,
        trap_number(Trap::Virtualization) == 20,
        trap_number(Trap::SecurityException) == 30,
        trap_number(Trap::Pit) == 0x20 + 0,
        trap_number(Trap::Keyboard) == 0x20 + 1,
        trap_number(Trap::Cascade) == 0x20 + 2,
        trap_number(Trap::Com2) == 0x20 + 3,
        trap_number(Trap::Com1) == 0x20 + 4,
        trap_number(Trap::Lpt2) == 0x20 + 5,
        trap_number(Trap::FloppyDisk) == 0x20 + 6,
        trap_number(Trap::Lpt1) == 0x20 + 7,
        trap_number(Trap::Rtc) == 0x20 + 8,
        trap_number(Trap::Free29) == 0x20 + 9,
        trap_number(Trap::Free2A) == 0x20 + 10,
        trap_number(Trap::Free2B) == 0x20 + 11,
        trap_number(Trap::Ps2Mouse) == 0x20 + 12,
        trap_number(Trap::Coprocessor) == 0x20 + 13,
        trap_number(Trap::Ata0) == 0x20 + 14,
        trap_number(Trap::Ata1) == 0x20 + 15,
        trap_number(Trap::Timer) == 0x30,
        trap_number(Trap::Spurious) == 0x31,
{
}

/// Vector numbers tell traps apart.
pub proof fn lemma_trap_number_injective(a: Trap, b: Trap)
    ensures
        trap_number(a) == trap_number(b) ==> a == b,
        0 <= trap_number(a) <= 0x31,
{
}

/// What the processor tells of a trap besides its number.
#[derive(Clone, Copy, Debug)]
pub enum Info {
    /// Nothing more.
    Empty,
    /// The error code of the trap.
    Code(usize),
    /// The cause of a page fault.
    PageFault {
        /// The address whose access faulted.
        address: Virt,
        /// Why the access faulted.
        code: PageFaultInfo,
    },
}

impl Info {
    /// What is known of the trap `trap` with the error code `error_code`: the code itself for
    /// the exceptions that push one, the faulting address `fault_address` (read from `%cr2`)
    /// and the causes in the code for a page fault, nothing for the others.
    pub fn new(trap: Trap, error_code: usize, fault_address: Virt) -> (r: Self)
        ensures
            has_error_code(trap) ==> r == Info::Code(error_code),
            trap == Trap::PageFault ==> (r matches Info::PageFault { address, code }
                && address == fault_address && code.spec_bits() == error_code & PAGE_FAULT_ALL),
            !has_error_code(trap) && trap != Trap::PageFault ==> r is Empty,
    {
        match trap {
            Trap::AlignmentCheck | Trap::DoubleFault | Trap::GeneralProtectionFault | Trap::InvalidTss
            | Trap::SecurityException | Trap::SegmentNotPresent | Trap::StackSegmentFault => Info::Code(error_code),
            Trap::PageFault => Info::PageFault {
                address: fault_address,
                code: PageFaultInfo::from_bits_truncate(error_code),
            },
            _ => Info::Empty,
        }
    }
}

/// The size of the room kept in `TrapInfo` for a return address.
pub const PLACEHOLDER_SIZE: usize = 8;

/// What a trap handler gets: the trap number, what is known of it, and the context of
/// the process where it happened.
#[derive(Clone, Copy, Debug)]
pub struct TrapInfo {
    /// The trap number.
    number: usize,
    /// What is known of the trap besides its number.
    info: Info,
    /// The context of the process where the trap happened.
    context: MiniContext,
    /// Room for the return address that returning from the handler needs.
    return_address_placeholder: [u8; 8],
}

impl TrapInfo {
    /// The trap number.
    pub closed spec fn spec_number(&self) -> usize {
        self.number
    }

    /// What is known of the trap besides its number.
    pub closed spec fn spec_info(&self) -> Info {
        self.info
    }

    /// The context of the process where the trap happened.
    pub closed spec fn spec_context(&self) -> MiniContext {
        self.context
    }

    /// The information on trap `number`, with a zeroed room for the return address.
    pub fn new(number: usize, info: Info, context: MiniContext) -> (r: Self)
        ensures
            r.spec_number() == number,
            r.spec_info() == info,
            r.spec_context() == context,
    {
        TrapInfo { number, info, context, return_address_placeholder: [0u8; 8] }
    }

    /// The trap number.
    pub fn number(&self) -> (r: usize)
        ensures
            r == self.spec_number(),
    {
        self.number
    }

    /// What is known of the trap besides its number.
    pub fn info(&self) -> (r: Info)
        ensures
            r == self.spec_info(),
    {
        self.info
    }

    /// The context of the process where the trap happened.
    pub fn context(&self) -> (r: MiniContext)
        ensures
            r == self.spec_context(),
    {
        self.context
    }
}

} // verus!
