//! Information that the kernel shares with every process.

use vstd::prelude::*;

use crate::ipc::pipe::WriteBuffer;
use crate::memory::addr::Virt;
use crate::memory::block::{valid_index, Block};
use crate::memory::frage::Page;
use crate::process::pid::Pid;
use crate::time::correlation_interval::AtomicCorrelationInterval;
use crate::time::pit8254::TICKS_PER_SECOND as PIT_TICKS_PER_SECOND;
use crate::time::rtc::TICKS_PER_SECOND as RTC_TICKS_PER_SECOND;

verus! {

/// Information about the system, shared by all processes: the readings of the clocks that
/// let user space tell the time.
pub struct SystemInfo {
    /// The ticks of the interval timer.
    pit: AtomicCorrelationInterval<PIT_TICKS_PER_SECOND>,
    /// The readings of the real-time clock.
    rtc: AtomicCorrelationInterval<RTC_TICKS_PER_SECOND>,
}

impl SystemInfo {
    /// The ticks of the interval timer.
    pub closed spec fn spec_pit(&self) -> AtomicCorrelationInterval<PIT_TICKS_PER_SECOND> {
        self.pit
    }

    /// The readings of the real-time clock.
    pub closed spec fn spec_rtc(&self) -> AtomicCorrelationInterval<RTC_TICKS_PER_SECOND> {
        self.rtc
    }

    /// Information with no clock reading yet.
    pub fn new() -> (r: Self) {
        SystemInfo { pit: AtomicCorrelationInterval::new(), rtc: AtomicCorrelationInterval::new() }
    }

    /// The ticks of the interval timer.
    pub fn pit(&self) -> (r: &AtomicCorrelationInterval<PIT_TICKS_PER_SECOND>)
        ensures
            *r == self.spec_pit(),
    {
        &self.pit
    }

    /// The readings of the real-time clock.
    pub fn rtc(&self) -> (r: &AtomicCorrelationInterval<RTC_TICKS_PER_SECOND>)
        ensures
            *r == self.spec_rtc(),
    {
        &self.rtc
    }
}


/// Information about the current process, shared between it and the kernel.
#[derive(Debug)]
pub struct ProcessInfo {
    /// The buffer that the process logs into.
    log: WriteBuffer,
    /// The identifier of the process.
    pid: Pid,
    /// The number of the recursive entry of the page table, through which the process reads
    /// its own mapping of virtual memory.
    recursive_mapping: usize,
    /// The memory of the stack of the process in user mode.
    stack: Block<Virt>,
    /// The address of the information about the system.
    system_info: Virt,
}

impl ProcessInfo {
    /// The identifier of the process.
    pub closed spec fn spec_pid(&self) -> Pid {
        self.pid
    }

    /// The number of the recursive entry of the page table.
    pub closed spec fn spec_recursive_mapping(&self) -> usize {
        self.recursive_mapping
    }

    /// The memory of the stack of the process in user mode.
    pub closed spec fn spec_stack(&self) -> Block<Virt> {
        self.stack
    }

    /// The address of the information about the system.
    pub closed spec fn spec_system_info(&self) -> Virt {
        self.system_info
    }

    /// The buffer that the process logs into.
    pub closed spec fn spec_log(&self) -> WriteBuffer {
        self.log
    }

    /// The information of a process that logs into `log`, reads its mapping through the
    /// entry `recursive_mapping`, and finds the information about the system at
    /// `system_info`; its identifier stands for the current process and it has no stack yet.
    pub fn new(log: WriteBuffer, recursive_mapping: usize, system_info: Virt) -> (r: Self)
        ensures
            r.spec_log() == log,
            r.spec_pid() == Pid::Current,
            r.spec_recursive_mapping() == recursive_mapping,
            r.spec_stack()@ == (0int, 0int),
            r.spec_system_info() == system_info,
    {
        ProcessInfo { log, pid: Pid::Current, recursive_mapping, stack: Block::zero(), system_info }
    }

    /// The buffer that the process logs into.
    pub fn log(&mut self) -> (r: &mut WriteBuffer)
        ensures
            *r == old(self).spec_log(),
            final(self).spec_log() == *final(r),
            final(self).spec_pid() == old(self).spec_pid(),
            final(self).spec_recursive_mapping() == old(self).spec_recursive_mapping(),
            final(self).spec_stack() == old(self).spec_stack(),
            final(self).spec_system_info() == old(self).spec_system_info(),
    {
        &mut self.log
    }

    /// The identifier of the process.
    pub fn pid(&self) -> (r: Pid)
        ensures
            r == self.spec_pid(),
    {
        self.pid
    }

    /// Sets the identifier of the process; the kernel does.
    pub fn set_pid(&mut self, pid: Pid)
        ensures
            final(self).spec_pid() == pid,
            final(self).spec_log() == old(self).spec_log(),
            final(self).spec_recursive_mapping() == old(self).spec_recursive_mapping(),
            final(self).spec_stack() == old(self).spec_stack(),
            final(self).spec_system_info() == old(self).spec_system_info(),
    {
        self.pid = pid;
    }

    /// The number of the recursive entry of the page table.
    pub fn recursive_mapping(&self) -> (r: usize)
        ensures
            r == self.spec_recursive_mapping(),
    {
        self.recursive_mapping
    }

    /// The memory of the stack of the process in user mode.
    pub fn stack(&self) -> (r: Block<Virt>)
        ensures
            r == self.spec_stack(),
    {
        self.stack
    }

    /// Sets the memory of the stack of the process in user mode.
    pub fn set_stack(&mut self, stack: Block<Virt>)
        ensures
            final(self).spec_stack() == stack,
            final(self).spec_pid() == old(self).spec_pid(),
            final(self).spec_log() == old(self).spec_log(),
            final(self).spec_recursive_mapping() == old(self).spec_recursive_mapping(),
            final(self).spec_system_info() == old(self).spec_system_info(),
    {
        self.stack = stack;
    }

    /// The address of the information about the system.
    pub fn system_info(&self) -> (r: Virt)
        ensures
            r == self.spec_system_info(),
    {
        self.system_info
    }

    /// Whether `address` lies in the pages of the structures of the process information,
    /// which a clone of the process gets anew rather than copied: `own`, the memory of this
    /// record, `system_info`, that of the information about the system, `log`, that of the
    /// log buffer record, and the memory the log buffer is mapped to.
    pub fn contains_address(&self, own: Block<Virt>, system_info: Block<Virt>, log: Block<Virt>, address: Virt) -> (r: bool)
        requires
            usize::BITS == 64,
            encloses_ok(own),
            encloses_ok(system_info),
            encloses_ok(log),
            self.spec_log().spec_block().wf(),
            valid_index::<Page>(self.spec_log().spec_block()@.1),
        ensures
            r == (pages_contain(own, address@ as int) || pages_contain(system_info, address@ as int)
                || pages_contain(log, address@ as int)
                || self.spec_log().spec_block().spec_contains_address(address@ as int)),
    {
        enclosing_contains(own, address) || enclosing_contains(system_info, address)
            || enclosing_contains(log, address) || self.log.block().contains_address(address)
    }
}

/// Whether the pages that enclose `block` can be found: it is valid, and its end is a valid
/// address where it is not empty.
pub open spec fn encloses_ok(block: Block<Virt>) -> bool {
    &&& block.wf()
    &&& block@.0 < block@.1 ==> valid_index::<Virt>(block@.1)
}

/// Whether the pages that enclose `block` contain the address `address`: it is not below
/// their start and below their end.
pub open spec fn pages_contain(block: Block<Virt>, address: int) -> bool {
    let first = block@.0 / 4096;
    let end = if block@.0 == block@.1 { first } else { (block@.1 - 1) / 4096 + 1 };
    first * 4096 <= address < end * 4096
}

/// Whether the pages that enclose `block` contain the address `address`.
fn enclosing_contains(block: Block<Virt>, address: Virt) -> (r: bool)
    requires
        usize::BITS == 64,
        encloses_ok(block),
    ensures
        r == pages_contain(block, address@ as int),
{
    let pages = block.enclosing();
    pages.contains_address(address)
}

} // verus!
