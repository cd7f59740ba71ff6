use vstd::prelude::*;

verus! {

/// The access to a present page broke its flags.
pub const PAGE_FAULT_PRESENT: usize = 0x1;

/// The faulting access was a write.
pub const PAGE_FAULT_WRITE: usize = 0x2;

/// The faulting access came from user space.
pub const PAGE_FAULT_USER: usize = 0x4;

/// The page table holds a set reserved bit.
pub const PAGE_FAULT_RESERVED_WRITE: usize = 0x8;

/// The faulting access was an instruction fetch.
pub const PAGE_FAULT_EXECUTE: usize = 0x10;

/// Every cause of a page fault that the error code tells.
pub const PAGE_FAULT_ALL: usize = 0x1F;

/// Why an access to a page of virtual memory failed, as the error code of a page fault tells.
#[derive(Clone, Copy, Debug, PartialEq, Eq, Structural)]
pub struct PageFaultInfo(usize);

impl PageFaultInfo {
    /// The bits of the causes.
    pub closed spec fn spec_bits(&self) -> usize {
        self.0
    }

    /// The causes in the error code `bits`, the other bits dropped.
    pub fn from_bits_truncate(bits: usize) -> (r: Self)
        ensures
            r.spec_bits() == bits & PAGE_FAULT_ALL,
    {
        PageFaultInfo(bits & PAGE_FAULT_ALL)
    }

    /// The bits of the causes.
    pub fn bits(&self) -> (r: usize)
        ensures
            r == self.spec_bits(),
    {
        self.0
    }

    /// Whether all causes of `other` are among these.
    pub fn contains(&self, other: PageFaultInfo) -> (r: bool)
        ensures
            r == (self.spec_bits() & other.spec_bits() == other.spec_bits()),
    {
        self.0 & other.0 == other.0
    }

    /// The access to a present page broke its flags.
    pub fn present() -> (r: Self)
        ensures
            r.spec_bits() == PAGE_FAULT_PRESENT,
    {
        PageFaultInfo(PAGE_FAULT_PRESENT)
    }

    /// The faulting access was a write.
    pub fn write() -> (r: Self)
        ensures
            r.spec_bits() == PAGE_FAULT_WRITE,
    {
        PageFaultInfo(PAGE_FAULT_WRITE)
    }

    /// The faulting access came from user space.
    pub fn user() -> (r: Self)
        ensures
            r.spec_bits() == PAGE_FAULT_USER,
    {
        PageFaultInfo(PAGE_FAULT_USER)
    }

    /// The page table holds a set reserved bit.
    pub fn reserved_write() -> (r: Self)
        ensures
            r.spec_bits() == PAGE_FAULT_RESERVED_WRITE,
    {
        PageFaultInfo(PAGE_FAULT_RESERVED_WRITE)
    }

    /// The faulting access was an instruction fetch.
    pub fn execute() -> (r: Self)
        ensures
            r.spec_bits() == PAGE_FAULT_EXECUTE,
    {
        PageFaultInfo(PAGE_FAULT_EXECUTE)
    }
}

} // verus!
