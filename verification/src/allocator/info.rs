use core::ops::Sub;
use core::sync::atomic::AtomicUsize;

use vstd::prelude::*;

use crate::error::{Error, Result};

verus! {

/// A counter of increases and decreases of some quantity.
#[derive(Clone, Copy, Debug, Default, PartialEq, Eq, Structural)]
pub struct Counter {
    negative: usize,
    positive: usize,
}

impl View for Counter {
    type V = (usize, usize);

    /// The sum of the decreases and the sum of the increases.
    closed spec fn view(&self) -> (usize, usize) {
        (self.negative, self.positive)
    }
}

impl Counter {
    /// Whether the decreases do not exceed the increases.
    pub open spec fn spec_is_valid(self) -> bool {
        self@.0 <= self@.1
    }

    /// The increases minus the decreases.
    pub open spec fn spec_balance(self) -> int {
        self@.1 - self@.0
    }

    /// A counter with no increases and no decreases.
    pub fn new() -> (r: Self)
        ensures
            r@ == (0usize, 0usize),
    {
        Self { negative: 0, positive: 0 }
    }

    /// The sum of the decreases.
    pub fn negative(&self) -> (r: usize)
        ensures
            r == self@.0,
    {
        self.negative
    }

    /// The sum of the increases.
    pub fn positive(&self) -> (r: usize)
        ensures
            r == self@.1,
    {
        self.positive
    }

    /// The increases minus the decreases.
    pub fn balance(&self) -> (r: usize)
        requires
            self.spec_is_valid(),
        ensures
            r == self.spec_balance(),
    {
        self.positive - self.negative
    }

    /// Whether the decreases do not exceed the increases.
    pub fn is_valid(&self) -> (r: bool)
        ensures
            r == self.spec_is_valid(),
    {
        self.negative <= self.positive
    }

    /// Counts an increase by `value`.
    pub fn increase(&mut self, value: usize)
        requires
            old(self)@.1 + value <= usize::MAX,
        ensures
            final(self)@ == (old(self)@.0, (old(self)@.1 + value) as usize),
    {
        self.positive = self.positive + value;
    }

    /// Counts a decrease by `value`.
    pub fn decrease(&mut self, value: usize)
        requires
            old(self)@.0 + value <= usize::MAX,
        ensures
            final(self)@ == ((old(self)@.0 + value) as usize, old(self)@.1),
    {
        self.negative = self.negative + value;
    }

    /// Adds the increases and the decreases of `other` to those of this counter.
    pub fn add_assign(&mut self, other: Counter)
        requires
            old(self)@.0 + other@.0 <= usize::MAX,
            old(self)@.1 + other@.1 <= usize::MAX,
        ensures
            final(self)@ == ((old(self)@.0 + other@.0) as usize, (old(self)@.1 + other@.1) as usize),
    {
        self.negative = self.negative + other.negative;
        self.positive = self.positive + other.positive;
    }
}

impl Sub<Counter> for Counter {
    type Output = Result<Counter>;

    /// Subtracts the increases and the decreases of `rhs` from those of this counter.
    /// Returns `Error::Overflow` where either would become negative.
    fn sub(self, rhs: Counter) -> (r: Result<Counter>)
        ensures
            rhs@.0 <= self@.0 && rhs@.1 <= self@.1
                ==> (r matches Ok(c) && c@ == ((self@.0 - rhs@.0) as usize, (self@.1 - rhs@.1) as usize)),
            !(rhs@.0 <= self@.0 && rhs@.1 <= self@.1) ==> r == Err::<Counter, Error>(Error::Overflow),
    {
        let negative = match self.negative.checked_sub(rhs.negative) {
            Some(n) => n,
            None => return Err(Error::Overflow),
        };
        let positive = match self.positive.checked_sub(rhs.positive) {
            Some(p) => p,
            None => return Err(Error::Overflow),
        };
        Ok(Counter { negative, positive })
    }
}

impl vstd::std_specs::ops::SubSpecImpl<Counter> for Counter {
    open spec fn obeys_sub_spec() -> bool {
        false
    }

    open spec fn sub_req(self, rhs: Counter) -> bool {
        true
    }

    open spec fn sub_spec(self, rhs: Counter) -> Result<Counter> {
        arbitrary()
    }
}

/// Statistics of an allocator: the bytes allocated, the number of allocations,
/// the pages used and the bytes requested.
#[derive(Clone, Copy, Debug, Default, PartialEq, Eq, Structural)]
pub struct Info {
    allocated: Counter,
    allocations: Counter,
    pages: Counter,
    requested: Counter,
}

/// The size of a page in bytes.
pub const PAGE_SIZE: usize = 4096;

impl View for Info {
    type V = (Counter, Counter, Counter, Counter);

    /// The counters of the allocated bytes, of the allocations, of the pages
    /// and of the requested bytes.
    closed spec fn view(&self) -> (Counter, Counter, Counter, Counter) {
        (self.allocated, self.allocations, self.pages, self.requested)
    }
}

impl Info {
    /// Whether computing the bytes of the pages in use cannot overflow.
    pub open spec fn pages_fit(self) -> bool {
        self@.2.spec_is_valid() ==> self@.2.spec_balance() * PAGE_SIZE <= usize::MAX
    }

    /// Whether all counters are valid, no more bytes are requested than allocated,
    /// no more requested bytes are freed than allocated ones, and the allocated bytes
    /// fit into the pages used.
    pub open spec fn spec_is_valid(self) -> bool {
        let (allocated, allocations, pages, requested) = self@;
        &&& allocated.spec_is_valid()
        &&& allocations.spec_is_valid()
        &&& pages.spec_is_valid()
        &&& requested.spec_is_valid()
        &&& requested.spec_balance() <= allocated.spec_balance()
        &&& requested@.0 <= allocated@.0
        &&& allocated.spec_balance() <= pages.spec_balance() * PAGE_SIZE
    }

    /// Statistics with all counters zero.
    pub fn new() -> (r: Self)
        ensures
            r@.0@ == (0usize, 0usize),
            r@.1@ == (0usize, 0usize),
            r@.2@ == (0usize, 0usize),
            r@.3@ == (0usize, 0usize),
    {
        Self {
            allocated: Counter::new(),
            allocations: Counter::new(),
            pages: Counter::new(),
            requested: Counter::new(),
        }
    }

    /// The counter of allocated bytes.
    pub fn allocated(&self) -> (r: Counter)
        ensures
            r == self@.0,
    {
        self.allocated
    }

    /// The counter of allocations.
    pub fn allocations(&self) -> (r: Counter)
        ensures
            r == self@.1,
    {
        self.allocations
    }

    /// The counter of pages used.
    pub fn pages(&self) -> (r: Counter)
        ensures
            r == self@.2,
    {
        self.pages
    }

    /// The counter of requested bytes.
    pub fn requested(&self) -> (r: Counter)
        ensures
            r == self@.3,
    {
        self.requested
    }

    /// The bytes allocated but not requested, lost to fragmentation now: the balance of
    /// allocated bytes less that of requested bytes, or 0 where that is negative (as it may
    /// be for the difference of two statistics).
    pub fn fragmentation_loss(&self) -> (r: usize)
        requires
            self@.0.spec_is_valid(),
            self@.3.spec_is_valid(),
        ensures
            r == if self@.0.spec_balance() >= self@.3.spec_balance() {
                self@.0.spec_balance() - self@.3.spec_balance()
            } else {
                0
            },
    {
        self.allocated.balance().saturating_sub(self.requested.balance())
    }

    /// Whether the statistics are consistent: see `spec_is_valid`.
    pub fn is_valid(&self) -> (r: bool)
        requires
            self.pages_fit(),
        ensures
            r == self.spec_is_valid(),
    {
        self.allocated.is_valid() && self.allocations.is_valid() && self.pages.is_valid()
            && self.requested.is_valid() && self.requested.balance() <= self.allocated.balance()
            && self.requested.negative() <= self.allocated.negative()
            && self.allocated.balance() <= self.pages.balance() * PAGE_SIZE
    }

    /// Counts an allocation of `allocated` bytes for a request of `requested` bytes
    /// that took `allocated_pages` new pages.
    pub fn allocation(&mut self, requested: usize, allocated: usize, allocated_pages: usize)
        requires
            old(self)@.0@.1 + allocated <= usize::MAX,
            old(self)@.1@.1 + 1 <= usize::MAX,
            old(self)@.2@.1 + allocated_pages <= usize::MAX,
            old(self)@.3@.1 + requested <= usize::MAX,
        ensures
            final(self)@.0@ == (old(self)@.0@.0, (old(self)@.0@.1 + allocated) as usize),
            final(self)@.1@ == (old(self)@.1@.0, (old(self)@.1@.1 + 1) as usize),
            final(self)@.2@ == (old(self)@.2@.0, (old(self)@.2@.1 + allocated_pages) as usize),
            final(self)@.3@ == (old(self)@.3@.0, (old(self)@.3@.1 + requested) as usize),
    {
        self.allocated.increase(allocated);
        self.allocations.increase(1);
        self.pages.increase(allocated_pages);
        self.requested.increase(requested);
    }

    /// Counts a deallocation of `deallocated` bytes for a request of `requested` bytes
    /// that freed `deallocated_pages` pages.
    pub fn deallocation(&mut self, requested: usize, deallocated: usize, deallocated_pages: usize)
        requires
            old(self)@.0@.0 + deallocated <= usize::MAX,
            old(self)@.1@.0 + 1 <= usize::MAX,
            old(self)@.2@.0 + deallocated_pages <= usize::MAX,
            old(self)@.3@.0 + requested <= usize::MAX,
        ensures
            final(self)@.0@ == ((old(self)@.0@.0 + deallocated) as usize, old(self)@.0@.1),
            final(self)@.1@ == ((old(self)@.1@.0 + 1) as usize, old(self)@.1@.1),
            final(self)@.2@ == ((old(self)@.2@.0 + deallocated_pages) as usize, old(self)@.2@.1),
            final(self)@.3@ == ((old(self)@.3@.0 + requested) as usize, old(self)@.3@.1),
    {
        self.allocated.decrease(deallocated);
        self.allocations.decrease(1);
        self.pages.decrease(deallocated_pages);
        self.requested.decrease(requested);
    }

    /// Counts `allocated_pages` pages taken without an allocation of memory to a user.
    pub fn pages_allocation(&mut self, allocated_pages: usize)
        requires
            old(self)@.2@.1 + allocated_pages <= usize::MAX,
        ensures
            final(self)@.0 == old(self)@.0,
            final(self)@.1 == old(self)@.1,
            final(self)@.2@ == (old(self)@.2@.0, (old(self)@.2@.1 + allocated_pages) as usize),
            final(self)@.3 == old(self)@.3,
    {
        self.pages.increase(allocated_pages);
    }

    /// Counts `allocated_pages` pages freed without a deallocation of memory of a user.
    pub fn pages_deallocation(&mut self, allocated_pages: usize)
        requires
            old(self)@.2@.0 + allocated_pages <= usize::MAX,
        ensures
            final(self)@.0 == old(self)@.0,
            final(self)@.1 == old(self)@.1,
            final(self)@.2@ == ((old(self)@.2@.0 + allocated_pages) as usize, old(self)@.2@.1),
            final(self)@.3 == old(self)@.3,
    {
        self.pages.decrease(allocated_pages);
    }

    /// Adds all counters of `other` to those of these statistics.
    pub fn add_assign(&mut self, other: Info)
        requires
            old(self)@.0@.0 + other@.0@.0 <= usize::MAX,
            old(self)@.0@.1 + other@.0@.1 <= usize::MAX,
            old(self)@.1@.0 + other@.1@.0 <= usize::MAX,
            old(self)@.1@.1 + other@.1@.1 <= usize::MAX,
            old(self)@.2@.0 + other@.2@.0 <= usize::MAX,
            old(self)@.2@.1 + other@.2@.1 <= usize::MAX,
            old(self)@.3@.0 + other@.3@.0 <= usize::MAX,
            old(self)@.3@.1 + other@.3@.1 <= usize::MAX,
        ensures
            final(self)@.0@ == ((old(self)@.0@.0 + other@.0@.0) as usize, (old(self)@.0@.1 + other@.0@.1) as usize),
            final(self)@.1@ == ((old(self)@.1@.0 + other@.1@.0) as usize, (old(self)@.1@.1 + other@.1@.1) as usize),
            final(self)@.2@ == ((old(self)@.2@.0 + other@.2@.0) as usize, (old(self)@.2@.1 + other@.2@.1) as usize),
            final(self)@.3@ == ((old(self)@.3@.0 + other@.3@.0) as usize, (old(self)@.3@.1 + other@.3@.1) as usize),
    {
        self.allocated.add_assign(other.allocated);
        self.allocations.add_assign(other.allocations);
        self.pages.add_assign(other.pages);
        self.requested.add_assign(other.requested);
    }

    /// Whether this support of statistics is compiled in.
    pub fn is_supported() -> (r: bool)
        ensures
            r,
    {
        true
    }
}

/// Statistics are equal exactly where their counters are.
pub proof fn lemma_info_eq(a: Info, b: Info)
    ensures
        (a == b) <==> (a@.0@ == b@.0@ && a@.1@ == b@.1@ && a@.2@ == b@.2@ && a@.3@ == b@.3@),
{
}

/// Whether every counter of `b` is at most that of `a`.
pub open spec fn info_le(b: Info, a: Info) -> bool {
    &&& b@.0@.0 <= a@.0@.0 && b@.0@.1 <= a@.0@.1
    &&& b@.1@.0 <= a@.1@.0 && b@.1@.1 <= a@.1@.1
    &&& b@.2@.0 <= a@.2@.0 && b@.2@.1 <= a@.2@.1
    &&& b@.3@.0 <= a@.3@.0 && b@.3@.1 <= a@.3@.1
}

/// Whether every counter of `d` is that of `a` minus that of `b`.
pub open spec fn info_diff(d: Info, a: Info, b: Info) -> bool {
    &&& d@.0@.0 == a@.0@.0 - b@.0@.0 && d@.0@.1 == a@.0@.1 - b@.0@.1
    &&& d@.1@.0 == a@.1@.0 - b@.1@.0 && d@.1@.1 == a@.1@.1 - b@.1@.1
    &&& d@.2@.0 == a@.2@.0 - b@.2@.0 && d@.2@.1 == a@.2@.1 - b@.2@.1
    &&& d@.3@.0 == a@.3@.0 - b@.3@.0 && d@.3@.1 == a@.3@.1 - b@.3@.1
}

impl Sub<Info> for Info {
    type Output = Result<Info>;

    /// Subtracts all counters of `rhs` from those of these statistics.
    /// Returns `Error::Overflow` where any would become negative.
    fn sub(self, rhs: Info) -> (r: Result<Info>)
        ensures
            info_le(rhs, self) ==> (r matches Ok(d) && info_diff(d, self, rhs)),
            !info_le(rhs, self) ==> r == Err::<Info, Error>(Error::Overflow),
    {
        let allocated = match self.allocated - rhs.allocated {
            Ok(c) => c,
            Err(e) => return Err(e),
        };
        let allocations = match self.allocations - rhs.allocations {
            Ok(c) => c,
            Err(e) => return Err(e),
        };
        let pages = match self.pages - rhs.pages {
            Ok(c) => c,
            Err(e) => return Err(e),
        };
        let requested = match self.requested - rhs.requested {
            Ok(c) => c,
            Err(e) => return Err(e),
        };
        Ok(Info { allocated, allocations, pages, requested })
    }
}

impl vstd::std_specs::ops::SubSpecImpl<Info> for Info {
    open spec fn obeys_sub_spec() -> bool {
        false
    }

    open spec fn sub_req(self, rhs: Info) -> bool {
        true
    }

    open spec fn sub_spec(self, rhs: Info) -> Result<Info> {
        arbitrary()
    }
}

/// What one read of the statistics gives: the counters read between the sequence numbers
/// `seq1` and `seq2`, where no update was in progress at the start and none happened in
/// between; `None` otherwise.
pub open spec fn info_read_attempt(seq1: usize, counters: (Counter, Counter, Counter, Counter), seq2: usize) -> Option<(Counter, Counter, Counter, Counter)> {
    if seq1 % 2 == 1 || seq1 != seq2 {
        None
    } else {
        Some(counters)
    }
}

/// A counter that several processors update at once.
#[derive(Debug)]
struct AtomicCounter {
    /// The sum of the decreases.
    negative: AtomicUsize,
    /// The sum of the increases.
    positive: AtomicUsize,
}

impl AtomicCounter {
    /// A counter with no increases and no decreases.
    fn new() -> (r: Self) {
        AtomicCounter { negative: AtomicUsize::new(0), positive: AtomicUsize::new(0) }
    }

    /// The counter as it reads now; concurrent updates decide the values.
    fn load(&self) -> (r: Counter) {
        let positive = self.positive.load(core::sync::atomic::Ordering::Relaxed);
        let negative = self.negative.load(core::sync::atomic::Ordering::Relaxed);
        Counter { negative, positive }
    }

    /// Counts an increase by `value`.
    fn increase(&self, value: usize) {
        self.positive.fetch_add(value, core::sync::atomic::Ordering::Relaxed);
    }

    /// Counts a decrease by `value`.
    fn decrease(&self, value: usize) {
        self.negative.fetch_add(value, core::sync::atomic::Ordering::Relaxed);
    }
}

/// Statistics that several processors update at once, under a sequence lock: an update
/// makes the sequence number odd while it runs, and a read is kept only where the sequence
/// number was even and unchanged around it.
#[derive(Debug)]
pub struct AtomicInfo {
    /// The allocated bytes.
    allocated: AtomicCounter,
    /// The allocations.
    allocations: AtomicCounter,
    /// The pages used.
    pages: AtomicCounter,
    /// The requested bytes.
    requested: AtomicCounter,
    /// The sequence number of the updates.
    sequence: AtomicUsize,
}

impl AtomicInfo {
    /// Statistics with all counters zero.
    pub fn new() -> (r: Self) {
        AtomicInfo {
            allocated: AtomicCounter::new(),
            allocations: AtomicCounter::new(),
            pages: AtomicCounter::new(),
            requested: AtomicCounter::new(),
            sequence: AtomicUsize::new(0),
        }
    }

    /// Counts an allocation of `allocated` bytes for a request of `requested` bytes, which took
    /// `allocated_pages` new pages.
    pub fn allocation(&self, requested: usize, allocated: usize, allocated_pages: usize) {
        self.sequence.fetch_add(1, core::sync::atomic::Ordering::Acquire);
        self.allocated.increase(allocated);
        self.allocations.increase(1);
        if allocated_pages > 0 {
            self.pages.increase(allocated_pages);
        }
        self.requested.increase(requested);
        self.sequence.fetch_add(1, core::sync::atomic::Ordering::Release);
    }

    /// Counts a deallocation of `deallocated` bytes of a request of `requested` bytes, which
    /// freed `deallocated_pages` pages.
    pub fn deallocation(&self, requested: usize, deallocated: usize, deallocated_pages: usize) {
        self.sequence.fetch_add(1, core::sync::atomic::Ordering::Acquire);
        self.allocated.decrease(deallocated);
        self.allocations.decrease(1);
        if deallocated_pages > 0 {
            self.pages.decrease(deallocated_pages);
        }
        self.requested.decrease(requested);
        self.sequence.fetch_add(1, core::sync::atomic::Ordering::Release);
    }

    /// Counts `allocated_pages` new pages.
    pub fn pages_allocation(&self, allocated_pages: usize) {
        self.sequence.fetch_add(1, core::sync::atomic::Ordering::Acquire);
        self.pages.increase(allocated_pages);
        self.sequence.fetch_add(1, core::sync::atomic::Ordering::Release);
    }

    /// Counts `deallocated_pages` freed pages.
    pub fn pages_deallocation(&self, deallocated_pages: usize) {
        self.sequence.fetch_add(1, core::sync::atomic::Ordering::Acquire);
        self.pages.decrease(deallocated_pages);
        self.sequence.fetch_add(1, core::sync::atomic::Ordering::Release);
    }

    /// One attempt to read the statistics: `None` where an update was in progress or
    /// happened during the read. The updates decide what is read; see `Info::accept_read`.
    pub fn try_load(&self) -> (r: Option<Info>) {
        let seq1 = self.sequence.load(core::sync::atomic::Ordering::Acquire);
        if seq1 % 2 == 1 {
            return None;
        }
        let allocated = self.allocated.load();
        let allocations = self.allocations.load();
        let pages = self.pages.load();
        let requested = self.requested.load();
        let seq2 = self.sequence.fetch_add(0, core::sync::atomic::Ordering::Release);
        Info::accept_read(seq1, allocated, allocations, pages, requested, seq2)
    }
}

impl Info {
    /// The statistics of the counters read between the sequence numbers `seq1` and `seq2`,
    /// where the read is consistent.
    pub fn accept_read(
        seq1: usize,
        allocated: Counter,
        allocations: Counter,
        pages: Counter,
        requested: Counter,
        seq2: usize,
    ) -> (r: Option<Info>)
        ensures
            match info_read_attempt(seq1, (allocated, allocations, pages, requested), seq2) {
                None => r is None,
                Some(counters) => r matches Some(info) && info@ == counters,
            },
    {
        if seq1 % 2 == 1 || seq1 != seq2 {
            None
        } else {
            Some(Info { allocated, allocations, pages, requested })
        }
    }
}

} // verus!
