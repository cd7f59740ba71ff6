use vstd::prelude::*;

use crate::error::{Error, Result};

use super::big::BigAllocatorGuard;
use super::fixed_size::{quarry_address, FixedSizeAllocator};
use super::info::{Counter, Info, info_diff, info_le, lemma_info_eq};
use super::big::PAGE_BYTES;
use super::quarry::{coordinates, Quarry, SLAB_SIZE};
use crate::memory::addr::Virt;

verus! {

/// The size of the smallest allocation class and the alignment of all of them: that of `u64`.
pub const MIN_SIZE: usize = 8;

/// The number of fixed size allocation classes: sizes 8, 16, ... up to below 4 pages.
pub const FIXED_SIZE_COUNT: usize = 2047;

/// `x` rounded up to a multiple of `m`.
pub open spec fn round_up(x: int, m: int) -> int {
    if x % m == 0 { x } else { x - x % m + m }
}

/// Rounding up gives a multiple at least as big and less than one step bigger.
proof fn lemma_round_up(x: int, m: int)
    requires
        0 <= x,
        m > 0,
    ensures
        round_up(x, m) % m == 0,
        x <= round_up(x, m) < x + m,
        0 <= x % m <= x,
{
    vstd::arithmetic::div_mod::lemma_fundamental_div_mod(x, m);
    vstd::arithmetic::div_mod::lemma_mod_bound(x, m);
    vstd::arithmetic::div_mod::lemma_div_pos_is_pos(x, m);
    vstd::arithmetic::mul::lemma_mul_nonnegative(m, x / m);
    if x % m != 0 {
        assert(x - x % m + m == m * (x / m + 1)) by (nonlinear_arith)
            requires x == m * (x / m) + x % m;
        vstd::arithmetic::div_mod::lemma_mod_multiples_basic(x / m + 1, m);
        vstd::arithmetic::mul::lemma_mul_is_commutative(m, x / m + 1);
    }
}

/// A multiple of a multiple of `k` is a multiple of `k`.
proof fn lemma_multiple_of_multiple(x: int, m: int, k: int)
    requires
        x % m == 0,
        m % k == 0,
        m > 0,
        k > 0,
    ensures
        x % k == 0,
{
    vstd::arithmetic::div_mod::lemma_fundamental_div_mod(x, m);
    vstd::arithmetic::div_mod::lemma_fundamental_div_mod(m, k);
    assert(x == k * ((m / k) * (x / m))) by (nonlinear_arith)
        requires x == m * (x / m), m == k * (m / k);
    vstd::arithmetic::div_mod::lemma_mod_multiples_basic((m / k) * (x / m), k);
    vstd::arithmetic::mul::lemma_mul_is_commutative(k, (m / k) * (x / m));
}

/// Rounding up gives the least multiple that is not below `x`.
proof fn lemma_round_up_least(x: int, m: int, y: int)
    requires
        0 <= x <= y,
        m > 0,
        y % m == 0,
    ensures
        round_up(x, m) <= y,
{
    vstd::arithmetic::div_mod::lemma_fundamental_div_mod(x, m);
    vstd::arithmetic::div_mod::lemma_fundamental_div_mod(y, m);
    vstd::arithmetic::div_mod::lemma_mod_bound(x, m);
    if x % m != 0 {
        assert(m * (x / m) < m * (y / m));
        assert(x / m < y / m) by (nonlinear_arith)
            requires m * (x / m) < m * (y / m), m > 0;
        assert(m * (x / m + 1) <= m * (y / m)) by (nonlinear_arith)
            requires x / m + 1 <= y / m, m > 0;
        assert(m * (x / m + 1) == m * (x / m) + m) by (nonlinear_arith);
    }
}

/// The size of the allocations of the fixed size class `index`.
pub open spec fn spec_get_size(index: int) -> int {
    (index + 1) * MIN_SIZE
}

/// The size of the fixed size class that serves a request of `size` bytes aligned to `align`:
/// both rounded up to `MIN_SIZE`, the greater taken, and that rounded up to the alignment.
pub open spec fn required_size(size: int, align: int) -> int {
    let size8 = round_up(size, MIN_SIZE as int);
    let align8 = round_up(align, MIN_SIZE as int);
    round_up(if size8 < align8 { align8 } else { size8 }, align8)
}

/// The fixed size class that serves a request of `size` bytes aligned to `align`: the class
/// of the required size, none where that takes whole pages or is bigger than every class.
pub open spec fn fixed_size_index_of(size: int, align: int) -> Option<int> {
    let required = required_size(size, align);
    if required % 4096 == 0 || required > FIXED_SIZE_COUNT * MIN_SIZE {
        None
    } else {
        Some(required / (MIN_SIZE as int) - 1)
    }
}

/// Whether `x` is a power of two.
pub open spec fn is_power_of_two(x: int) -> bool
    decreases x,
{
    if x <= 0 {
        false
    } else if x == 1 {
        true
    } else {
        x % 2 == 0 && is_power_of_two(x / 2)
    }
}

/// `x` rounded up to a multiple of `m`.
fn next_multiple_of(x: usize, m: usize) -> (r: usize)
    requires
        m > 0,
        round_up(x as int, m as int) <= usize::MAX,
    ensures
        r == round_up(x as int, m as int),
{
    proof {
        lemma_round_up(x as int, m as int);
    }
    if x % m == 0 { x } else { x - x % m + m }
}

/// The size of the allocations of the fixed size class `index`.
pub fn get_size(index: usize) -> (r: usize)
    requires
        index < FIXED_SIZE_COUNT,
    ensures
        r == spec_get_size(index as int),
{
    (index + 1) * MIN_SIZE
}

/// A power of two of at least 8 is a multiple of 8.
proof fn lemma_power_of_two_multiple(x: int)
    requires
        is_power_of_two(x),
        x >= 8,
    ensures
        x % 8 == 0,
    decreases x,
{
    if x > 8 {
        assert(x / 2 >= 8) by {
            reveal_with_fuel(is_power_of_two, 4);
        }
        lemma_power_of_two_multiple(x / 2);
    }
}

/// The fixed size class that serves a request of `size` bytes aligned to `align`,
/// or `None` where the request is too big for them or takes whole pages.
pub fn get_fixed_size_index(size: usize, align: usize) -> (r: Option<usize>)
    requires
        is_power_of_two(align as int),
        round_up(size as int, align as int) <= isize::MAX,
    ensures
        match fixed_size_index_of(size as int, align as int) {
            None => r is None,
            Some(i) => r == Some(i as usize),
        },
        r matches Some(index) ==> index < FIXED_SIZE_COUNT
            && spec_get_size(index as int) >= size
            && spec_get_size(index as int) % (align as int) == 0,
{
    proof {
        assert(isize::MAX + 16 <= usize::MAX);
        lemma_round_up(size as int, 8);
        lemma_round_up(size as int, align as int);
        if align >= 8 {
            lemma_power_of_two_multiple(align as int);
            vstd::arithmetic::div_mod::lemma_mod_self_0(align as int);
        } else {
            assert(align == 1 || align == 2 || align == 4) by {
                reveal_with_fuel(is_power_of_two, 4);
            }
        }
        lemma_round_up(align as int, 8);
    }
    let size8 = next_multiple_of(size, MIN_SIZE);
    let align8 = next_multiple_of(align, MIN_SIZE);
    let larger = if size8 < align8 { align8 } else { size8 };
    proof {
        lemma_round_up(larger as int, align8 as int);
        vstd::arithmetic::div_mod::lemma_mod_self_0(align8 as int);
        if align >= 8 {
            assert(align8 == align);
            let bound = round_up(size as int, align as int);
            lemma_multiple_of_multiple(bound, align as int, 8);
            lemma_round_up_least(size as int, 8, bound);
            if larger == size8 {
                lemma_round_up_least(size8 as int, align as int, bound);
            }
        } else {
            assert(align8 == 8);
        }
    }
    let required = next_multiple_of(larger, align8);
    if required % 4096 == 0 || required > FIXED_SIZE_COUNT * MIN_SIZE {
        return None;
    }
    proof {
        lemma_multiple_of_multiple(required as int, align8 as int, 8);
        if align < 8 {
            assert(align == 1 || align == 2 || align == 4) by {
                reveal_with_fuel(is_power_of_two, 4);
            }
            assert(align8 == 8);
            assert(8int % (align as int) == 0) by {
                if align == 1 { assert(8int % 1 == 0); } else if align == 2 { assert(8int % 2 == 0); } else { assert(8int % 4 == 0); }
            }
            lemma_multiple_of_multiple(required as int, 8, align as int);
        } else {
            lemma_power_of_two_multiple(align as int);
            assert(align8 == align);
        }
        assert(required / 8 * 8 == required);
    }
    Some(required / MIN_SIZE - 1)
}

/// Statistics of an allocator: the total, of the fallback allocator,
/// and of each fixed size class.
#[derive(Clone, Debug)]
pub struct DetailedInfo {
    total: Info,
    fallback: Info,
    fixed_size: [Info; FIXED_SIZE_COUNT],
}

/// The size classes among the first `count` of `fixed_size` that have had allocations, in
/// order, each with its size and its statistics.
pub open spec fn shown_classes_of(fixed_size: Seq<Info>, count: int) -> Seq<(usize, Info)>
    decreases count,
{
    if count <= 0 {
        Seq::empty()
    } else {
        let rest = shown_classes_of(fixed_size, count - 1);
        let info = fixed_size[count - 1];
        if info@.1@.1 > 0 {
            rest.push((spec_get_size(count - 1) as usize, info))
        } else {
            rest
        }
    }
}

/// Whether counter `c` (0 to 7: negative and positive of allocated, allocations, pages, requested)
/// of `info` has the value `v`.
pub open spec fn component(info: Info, c: int) -> int {
    if c == 0 { info@.0@.0 as int }
    else if c == 1 { info@.0@.1 as int }
    else if c == 2 { info@.1@.0 as int }
    else if c == 3 { info@.1@.1 as int }
    else if c == 4 { info@.2@.0 as int }
    else if c == 5 { info@.2@.1 as int }
    else if c == 6 { info@.3@.0 as int }
    else { info@.3@.1 as int }
}

/// The sum of counter `c` over the first `n` statistics of `infos`.
pub open spec fn component_sum(infos: Seq<Info>, c: int, n: int) -> int
    decreases n,
{
    if n <= 0 {
        0
    } else {
        component_sum(infos, c, n - 1) + component(infos[n - 1], c)
    }
}

/// Whether all counters of `info` are zero.
pub open spec fn is_zero(info: Info) -> bool {
    forall|c: int| 0 <= c < 8 ==> #[trigger] component(info, c) == 0
}

/// Whether the statistics of an allocator add up: each counter of the total `total` is that
/// of the fallback allocator `fallback` plus those of the fixed size classes `fixed_size`.
pub open spec fn consistent(total: Info, fallback: Info, fixed_size: Seq<Info>) -> bool {
    forall|c: int| 0 <= c < 8 ==> #[trigger] component(total, c)
        == component(fallback, c) + component_sum(fixed_size, c, fixed_size.len() as int)
}

/// Whether `a` went to `after_a` by the same change of each counter as `b` to `after_b`.
pub open spec fn same_change(a: Info, after_a: Info, b: Info, after_b: Info) -> bool {
    forall|c: int| 0 <= c < 8 ==> #[trigger] component(after_a, c) - component(a, c)
        == component(after_b, c) - component(b, c)
}

/// Replacing one statistics in a sequence changes the sum of a counter by its change.
proof fn lemma_component_sum_update(infos: Seq<Info>, index: int, info: Info, c: int, n: int)
    requires
        0 <= index < infos.len(),
        0 <= n <= infos.len(),
    ensures
        component_sum(infos.update(index, info), c, n) == component_sum(infos, c, n)
            + if index < n { component(info, c) - component(infos[index], c) } else { 0 },
    decreases n,
{
    if n > 0 {
        lemma_component_sum_update(infos, index, info, c, n - 1);
    }
}

/// An operation that changes the total statistics as it changes those of the fixed size
/// class `index` keeps the statistics adding up.
pub proof fn lemma_class_change_kept(
    total: Info,
    fallback: Info,
    fixed_size: Seq<Info>,
    index: int,
    new_total: Info,
    new_class: Info,
)
    requires
        consistent(total, fallback, fixed_size),
        0 <= index < fixed_size.len(),
        same_change(total, new_total, fixed_size[index], new_class),
    ensures
        consistent(new_total, fallback, fixed_size.update(index, new_class)),
{
    assert forall|c: int| 0 <= c < 8 implies #[trigger] component(new_total, c)
        == component(fallback, c) + component_sum(fixed_size.update(index, new_class), c, fixed_size.len() as int) by {
        lemma_component_sum_update(fixed_size, index, new_class, c, fixed_size.len() as int);
        assert(component(total, c) == component(fallback, c) + component_sum(fixed_size, c, fixed_size.len() as int));
        assert(component(new_total, c) - component(total, c) == component(new_class, c) - component(fixed_size[index], c));
    }
}

/// An operation that changes the total statistics as it changes those of the fallback
/// allocator keeps the statistics adding up.
pub proof fn lemma_fallback_change_kept(
    total: Info,
    fallback: Info,
    fixed_size: Seq<Info>,
    new_total: Info,
    new_fallback: Info,
)
    requires
        consistent(total, fallback, fixed_size),
        same_change(total, new_total, fallback, new_fallback),
    ensures
        consistent(new_total, new_fallback, fixed_size),
{
    assert forall|c: int| 0 <= c < 8 implies #[trigger] component(new_total, c)
        == component(new_fallback, c) + component_sum(fixed_size, c, fixed_size.len() as int) by {
        assert(component(total, c) == component(fallback, c) + component_sum(fixed_size, c, fixed_size.len() as int));
        assert(component(new_total, c) - component(total, c) == component(new_fallback, c) - component(fallback, c));
    }
}

/// Counters are never negative.
proof fn lemma_component_nonnegative(info: Info, c: int)
    ensures
        component(info, c) >= 0,
{
}

/// Sums of counters are never negative.
proof fn lemma_component_sum_nonnegative(infos: Seq<Info>, c: int, n: int)
    ensures
        0 <= component_sum(infos, c, n),
    decreases n,
{
    if n > 0 {
        lemma_component_sum_nonnegative(infos, c, n - 1);
        lemma_component_nonnegative(infos[n - 1], c);
    }
}

/// Sums of counters only grow, and never below zero.
proof fn lemma_component_sum_monotone(infos: Seq<Info>, c: int, n: int, m: int)
    requires
        0 <= n <= m,
    ensures
        0 <= component_sum(infos, c, n) <= component_sum(infos, c, m),
    decreases m,
{
    lemma_component_sum_nonnegative(infos, c, n);
    if n < m {
        lemma_component_sum_monotone(infos, c, n, m - 1);
        lemma_component_nonnegative(infos[m - 1], c);
    }
}

/// Every counter of `b` is at most that of `a` exactly where `info_le(b, a)`,
/// and a difference holds the differences of the counters.
proof fn lemma_info_components(d: Info, a: Info, b: Info)
    ensures
        info_le(b, a) <==> (forall|c: int| 0 <= c < 8 ==> #[trigger] component(b, c) <= component(a, c)),
        info_diff(d, a, b) ==> (forall|c: int| 0 <= c < 8 ==> #[trigger] component(d, c) == component(a, c) - component(b, c)),
{
    if forall|c: int| 0 <= c < 8 ==> #[trigger] component(b, c) <= component(a, c) {
        assert(component(b, 0) <= component(a, 0));
        assert(component(b, 1) <= component(a, 1));
        assert(component(b, 2) <= component(a, 2));
        assert(component(b, 3) <= component(a, 3));
        assert(component(b, 4) <= component(a, 4));
        assert(component(b, 5) <= component(a, 5));
        assert(component(b, 6) <= component(a, 6));
        assert(component(b, 7) <= component(a, 7));
    }
}

impl DetailedInfo {
    /// The total statistics.
    pub closed spec fn spec_total(&self) -> Info {
        self.total
    }

    /// The statistics of the fallback allocator.
    pub closed spec fn spec_fallback(&self) -> Info {
        self.fallback
    }

    /// The statistics of the fixed size classes.
    pub closed spec fn spec_fixed_size(&self) -> Seq<Info> {
        self.fixed_size@
    }

    /// Whether the statistics are consistent: all are valid, and each counter of the total is
    /// that of the fallback allocator plus those of the fixed size classes.
    pub open spec fn spec_is_valid(&self) -> bool {
        &&& self.spec_total().spec_is_valid()
        &&& self.spec_fallback().spec_is_valid()
        &&& forall|i: int| 0 <= i < self.spec_fixed_size().len() ==> #[trigger] self.spec_fixed_size()[i].spec_is_valid()
        &&& consistent(self.spec_total(), self.spec_fallback(), self.spec_fixed_size())
    }

    /// The statistics of an allocator taken at one moment: the total `total`, of the
    /// fallback allocator `fallback`, and of the fixed size classes `fixed_size`.
    pub fn from_parts(total: Info, fallback: Info, fixed_size: [Info; FIXED_SIZE_COUNT]) -> (r: Self)
        ensures
            r.spec_total() == total,
            r.spec_fallback() == fallback,
            r.spec_fixed_size() == fixed_size@,
    {
        Self { total, fallback, fixed_size }
    }

    /// Statistics with all counters zero.
    pub fn new() -> (r: Self)
        ensures
            is_zero(r.spec_total()),
            is_zero(r.spec_fallback()),
            r.spec_fixed_size().len() == FIXED_SIZE_COUNT,
            forall|i: int| 0 <= i < FIXED_SIZE_COUNT ==> is_zero(#[trigger] r.spec_fixed_size()[i]),
    {
        Self {
            total: Info::new(),
            fallback: Info::new(),
            fixed_size: [Info::new(); FIXED_SIZE_COUNT],
        }
    }

    /// The size classes that the text of the statistics lists: those with allocations, in
    /// order, each with its size and its statistics; see `shown_classes_of`.
    pub fn shown_classes(&self) -> (r: Vec<(usize, Info)>)
        ensures
            r@ == shown_classes_of(self.spec_fixed_size(), FIXED_SIZE_COUNT as int),
    {
        let mut shown: Vec<(usize, Info)> = Vec::new();
        let mut index: usize = 0;
        while index < FIXED_SIZE_COUNT
            invariant
                index <= FIXED_SIZE_COUNT,
                self.fixed_size@.len() == FIXED_SIZE_COUNT,
                shown@ == shown_classes_of(self.spec_fixed_size(), index as int),
            decreases FIXED_SIZE_COUNT - index,
        {
            let info = self.fixed_size[index];
            if info.allocations().positive() > 0 {
                shown.push((get_size(index), info));
            }
            index = index + 1;
        }
        shown
    }

    /// The total statistics.
    pub fn total(&self) -> (r: &Info)
        ensures
            *r == self.spec_total(),
    {
        &self.total
    }

    /// The statistics of the fallback allocator.
    pub fn fallback(&self) -> (r: &Info)
        ensures
            *r == self.spec_fallback(),
    {
        &self.fallback
    }

    /// The statistics of the fixed size classes.
    pub fn fixed_size(&self) -> (r: &[Info])
        ensures
            r@ == self.spec_fixed_size(),
    {
        &self.fixed_size
    }

    /// Whether the statistics are consistent: see `spec_is_valid`.
    pub fn is_valid(&self) -> (r: bool)
        requires
            self.spec_total().pages_fit(),
            self.spec_fallback().pages_fit(),
            forall|i: int| 0 <= i < self.spec_fixed_size().len() ==> (#[trigger] self.spec_fixed_size()[i]).pages_fit(),
        ensures
            r == self.spec_is_valid(),
    {
        if !self.total.is_valid() || !self.fallback.is_valid() {
            return false;
        }
        let mut balance = match self.total - self.fallback {
            Ok(b) => {
                proof {
                    lemma_info_components(b, self.total, self.fallback);
                }
                b
            },
            Err(_) => {
                proof {
                    lemma_info_components(self.total, self.total, self.fallback);
                    let c = choose|c: int| 0 <= c < 8 && !(component(self.fallback, c) <= component(self.total, c));
                    lemma_component_sum_monotone(self.fixed_size@, c, 0, FIXED_SIZE_COUNT as int);
                }
                return false;
            },
        };
        let mut i: usize = 0;
        while i < FIXED_SIZE_COUNT
            invariant
                0 <= i <= FIXED_SIZE_COUNT,
                self.fixed_size@.len() == FIXED_SIZE_COUNT,
                self.total.spec_is_valid(),
                self.fallback.spec_is_valid(),
                forall|j: int| 0 <= j < self.spec_fixed_size().len() ==> (#[trigger] self.spec_fixed_size()[j]).pages_fit(),
                forall|j: int| 0 <= j < i ==> (#[trigger] self.spec_fixed_size()[j]).spec_is_valid(),
                forall|c: int| 0 <= c < 8 ==> #[trigger] component(balance, c)
                    == component(self.total, c) - component(self.fallback, c)
                        - component_sum(self.fixed_size@, c, i as int),
            decreases FIXED_SIZE_COUNT - i,
        {
            let fixed_size = self.fixed_size[i];
            assert(fixed_size == self.spec_fixed_size()[i as int]);
            if !fixed_size.is_valid() {
                return false;
            }
            balance = match balance - fixed_size {
                Ok(b) => {
                    proof {
                        lemma_info_components(b, balance, fixed_size);
                    }
                    b
                },
                Err(_) => {
                    proof {
                        lemma_info_components(balance, balance, fixed_size);
                        let c = choose|c: int| 0 <= c < 8 && !(component(fixed_size, c) <= component(balance, c));
                        lemma_component_sum_monotone(self.fixed_size@, c, i + 1, FIXED_SIZE_COUNT as int);
                    }
                    return false;
                },
            };
            i = i + 1;
        }
        let zero = Info::new();
        proof {
            lemma_info_eq(balance, zero);
            if forall|c: int| 0 <= c < 8 ==> #[trigger] component(balance, c) == 0 {
                assert(component(balance, 0) == 0 && component(balance, 1) == 0);
                assert(component(balance, 2) == 0 && component(balance, 3) == 0);
                assert(component(balance, 4) == 0 && component(balance, 5) == 0);
                assert(component(balance, 6) == 0 && component(balance, 7) == 0);
            }
        }
        balance == zero
    }
}

/// Where `realloc` takes a block from, by the size classes of the old and the new size.
#[derive(Clone, Copy, Debug, PartialEq, Eq, Structural)]
pub enum ReallocPlan {
    /// Both sizes fall into this class: the block stays where it is.
    Keep(usize),
    /// A block of the second class replaces one of the first.
    FixedToFixed(usize, usize),
    /// A block of the fallback allocator replaces one of this class.
    FixedToFallback(usize),
    /// A block of this class replaces one of the fallback allocator.
    FallbackToFixed(usize),
    /// The fallback allocator grows its block.
    FallbackGrow,
    /// The fallback allocator shrinks its block.
    FallbackShrink,
}

/// What `realloc` does with a block of `old_size` bytes aligned to `align` that is to hold
/// `new_size` bytes: the classes that serve the two sizes decide it; the fallback allocator
/// grows or shrinks its own blocks.
#[verifier::spinoff_prover]
#[verifier::rlimit(30)]
pub fn realloc_plan(old_size: usize, align: usize, new_size: usize) -> (r: ReallocPlan)
    requires
        is_power_of_two(align as int),
        round_up(old_size as int, align as int) <= isize::MAX,
        round_up(new_size as int, align as int) <= isize::MAX,
    ensures
        r == match (fixed_size_index_of(old_size as int, align as int), fixed_size_index_of(new_size as int, align as int)) {
            (Some(o), Some(n)) => if o == n { ReallocPlan::Keep(o as usize) } else { ReallocPlan::FixedToFixed(o as usize, n as usize) },
            (Some(o), None) => ReallocPlan::FixedToFallback(o as usize),
            (None, Some(n)) => ReallocPlan::FallbackToFixed(n as usize),
            (None, None) => if old_size < new_size { ReallocPlan::FallbackGrow } else { ReallocPlan::FallbackShrink },
        },
{
    let old_index = get_fixed_size_index(old_size, align);
    let new_index = get_fixed_size_index(new_size, align);
    match (old_index, new_index) {
        (Some(o), Some(n)) => if o == n { ReallocPlan::Keep(o) } else { ReallocPlan::FixedToFixed(o, n) },
        (Some(o), None) => ReallocPlan::FixedToFallback(o),
        (None, Some(n)) => ReallocPlan::FallbackToFixed(n),
        (None, None) => if old_size < new_size { ReallocPlan::FallbackGrow } else { ReallocPlan::FallbackShrink },
    }
}

/// The pages that the fallback allocator takes for `size` bytes, and their bytes.
pub fn fallback_pages(size: usize) -> (r: (usize, usize))
    requires
        size + 4095 <= usize::MAX,
    ensures
        r.0 == (size + 4095) / 4096,
        r.1 == r.0 * 4096,
{
    let pages = size / 4096 + if size % 4096 == 0 { 0 } else { 1 };
    (pages, pages * 4096)
}

/// An operation of the fallback allocator.
#[derive(Clone, Copy, Debug, PartialEq, Eq, Structural)]
pub enum Operation {
    /// An allocation.
    Allocation,
    /// A deallocation.
    Deallocation,
}

/// `after` is `before` with `operation` of `size` bytes counted as the fallback allocator
/// serves it, in whole pages: the bytes of those pages, one operation, the pages, and the
/// requested bytes, each on the side (positive for an allocation, negative for a
/// deallocation) of its counter.
pub open spec fn fallback_counted(before: Info, after: Info, operation: Operation, size: int) -> bool {
    let pages = (size + 4095) / 4096;
    let delta = |c: int| if c == 0 || c == 1 { pages * 4096 } else if c == 2 || c == 3 { 1 } else if c == 4 || c == 5 { pages } else { size };
    let counts = |c: int| match operation {
        Operation::Allocation => c % 2 == 1,
        Operation::Deallocation => c % 2 == 0,
    };
    forall|c: int| 0 <= c < 8 ==> #[trigger] component(after, c)
        == component(before, c) + if counts(c) { delta(c) } else { 0 }
}

/// Whether every counter of `info` has room for an operation of the fallback allocator on
/// `size` bytes.
pub open spec fn fallback_room(info: Info, size: int) -> bool {
    let pages = (size + 4095) / 4096;
    forall|c: int| 0 <= c < 8 ==> #[trigger] component(info, c)
        + (if c < 2 { pages * 4096 } else if c < 4 { 1 } else if c < 6 { pages } else { size }) <= usize::MAX
}

/// The room of `fallback_room`, counter by counter.
proof fn lemma_fallback_room(info: Info, size: int)
    requires
        fallback_room(info, size),
    ensures
        ({
            let pages = (size + 4095) / 4096;
            &&& info@.0@.0 + pages * 4096 <= usize::MAX && info@.0@.1 + pages * 4096 <= usize::MAX
            &&& info@.1@.0 + 1 <= usize::MAX && info@.1@.1 + 1 <= usize::MAX
            &&& info@.2@.0 + pages <= usize::MAX && info@.2@.1 + pages <= usize::MAX
            &&& info@.3@.0 + size <= usize::MAX && info@.3@.1 + size <= usize::MAX
        }),
{
    assert(component(info, 0) == info@.0@.0 && component(info, 1) == info@.0@.1);
    assert(component(info, 2) == info@.1@.0 && component(info, 3) == info@.1@.1);
    assert(component(info, 4) == info@.2@.0 && component(info, 5) == info@.2@.1);
    assert(component(info, 6) == info@.3@.0 && component(info, 7) == info@.3@.1);
}

/// Counts `operation` on `size` bytes, which the fallback allocator served, both in its
/// statistics `fallback_info` and in the total `info`.
pub fn update_fallback_info(operation: Operation, size: usize, fallback_info: &mut Info, info: &mut Info)
    requires
        size + 4095 <= usize::MAX,
        fallback_room(*old(fallback_info), size as int),
        fallback_room(*old(info), size as int),
    ensures
        fallback_counted(*old(fallback_info), *final(fallback_info), operation, size as int),
        fallback_counted(*old(info), *final(info), operation, size as int),
        same_change(*old(info), *final(info), *old(fallback_info), *final(fallback_info)),
{
    let (pages, bytes) = fallback_pages(size);
    proof {
        lemma_fallback_room(*fallback_info, size as int);
        lemma_fallback_room(*info, size as int);
    }
    match operation {
        Operation::Allocation => {
            fallback_info.allocation(size, bytes, pages);
            info.allocation(size, bytes, pages);
        },
        Operation::Deallocation => {
            fallback_info.deallocation(size, bytes, pages);
            info.deallocation(size, bytes, pages);
        },
    }
}

/// Whether every counter of `info` can grow by `amount`.
pub open spec fn info_room(info: Info, amount: int) -> bool {
    &&& info@.0@.0 + amount <= usize::MAX && info@.0@.1 + amount <= usize::MAX
    &&& info@.1@.0 + amount <= usize::MAX && info@.1@.1 + amount <= usize::MAX
    &&& info@.2@.0 + amount <= usize::MAX && info@.2@.1 + amount <= usize::MAX
    &&& info@.3@.0 + amount <= usize::MAX && info@.3@.1 + amount <= usize::MAX
}

/// Whether every counter of `info` can grow by `amount`: see `info_room`.
pub fn info_has_room(info: &Info, amount: usize) -> (r: bool)
    ensures
        r == info_room(*info, amount as int),
{
    let fits = |counter: Counter| -> (r: bool)
        ensures
            r == (counter@.0 + amount <= usize::MAX && counter@.1 + amount <= usize::MAX),
    {
        counter.negative() <= usize::MAX - amount && counter.positive() <= usize::MAX - amount
    };
    fits(info.allocated()) && fits(info.allocations()) && fits(info.pages()) && fits(info.requested())
}

/// Whether the fallback allocator can serve `size` bytes with room in the counters of `info`:
/// see `fallback_room`.
pub fn fallback_has_room(info: &Info, size: usize) -> (r: bool)
    ensures
        r == (size + 4095 <= usize::MAX && fallback_room(*info, size as int)),
{
    if size > usize::MAX - 4095 {
        return false;
    }
    let (pages, bytes) = fallback_pages(size);
    let fits = |counter: Counter, amount: usize| -> (r: bool)
        ensures
            r == (counter@.0 + amount <= usize::MAX && counter@.1 + amount <= usize::MAX),
    {
        counter.negative() <= usize::MAX - amount && counter.positive() <= usize::MAX - amount
    };
    let r = fits(info.allocated(), bytes) && fits(info.allocations(), 1) && fits(info.pages(), pages)
        && fits(info.requested(), size);
    proof {
        assert(component(*info, 0) == info@.0@.0 && component(*info, 1) == info@.0@.1);
        assert(component(*info, 2) == info@.1@.0 && component(*info, 3) == info@.1@.1);
        assert(component(*info, 4) == info@.2@.0 && component(*info, 5) == info@.2@.1);
        assert(component(*info, 6) == info@.3@.0 && component(*info, 7) == info@.3@.1);
    }
    r
}

/// The room for one operation in the counters.
pub const INFO_ROOM: usize = 0x10_0000;

/// Takes a block of the size class `index` from its allocator `allocator`, stocking the
/// allocator up from `fallback` where it has no free block, for a request of `requested`
/// bytes. Counts the allocation in the statistics of the allocator and in `info`, with the
/// pages that the stock-up mapped. Returns the address of the block, or the zero address
/// where none is left or the stock-up failed.
pub fn fixed_size_allocate<G: BigAllocatorGuard>(
    allocator: &mut FixedSizeAllocator,
    index: usize,
    requested: usize,
    info: &mut Info,
    fallback: &G,
) -> (r: Virt)
    requires
        usize::BITS == 64,
        index < FIXED_SIZE_COUNT,
        requested <= spec_get_size(index as int),
        old(allocator).wf(),
        old(allocator).slabs_ready(),
        old(allocator).spec_quarry() matches Some(q) ==> q.spec_size() == spec_get_size(index as int),
        old(allocator).spec_bitmap().spec_bitmap().spec_len() == 0 ==> !old(allocator).spec_bitmap().spec_is_reserved(),
        info_room(old(allocator).spec_info(), INFO_ROOM as int),
        info_room(*old(info), INFO_ROOM as int),
    ensures
        final(allocator).wf(),
        same_change(*old(info), *final(info), old(allocator).spec_info(), final(allocator).spec_info()),
        ({
            let size = spec_get_size(index as int);
            let counted = r@ != 0;
            &&& final(info)@.0@.1 == old(info)@.0@.1 + if counted { size } else { 0 }
            &&& final(info)@.1@.1 == old(info)@.1@.1 + if counted { 1int } else { 0 }
            &&& final(info)@.3@.1 == old(info)@.3@.1 + if counted { requested as int } else { 0 }
            &&& final(info)@.2@.1 >= old(info)@.2@.1
            &&& final(info)@.0@.0 == old(info)@.0@.0 && final(info)@.1@.0 == old(info)@.1@.0
            &&& final(info)@.2@.0 == old(info)@.2@.0 && final(info)@.3@.0 == old(info)@.3@.0
            &&& final(allocator).spec_info()@.0@.1 == old(allocator).spec_info()@.0@.1 + if counted { size } else { 0 }
            &&& final(allocator).spec_info()@.1@.1 == old(allocator).spec_info()@.1@.1 + if counted { 1int } else { 0 }
            &&& final(allocator).spec_info()@.3@.1 == old(allocator).spec_info()@.3@.1 + if counted { requested as int } else { 0 }
            &&& counted ==> (final(allocator).spec_quarry() matches Some(q)
                && exists|n: int| 0 <= n < final(allocator).spec_bitmap().spec_bitmap().spec_len()
                    && #[trigger] final(allocator).spec_bitmap().spec_bitmap()@[n]
                    && r@ == quarry_address(q, n))
        }),
        old(allocator).spec_bitmap().spec_bitmap().spec_free() > 0 ==> r@ != 0,
        r@ != 0 ==> forall|align: int| #[trigger] is_power_of_two(align) && align <= PAGE_BYTES
            && spec_get_size(index as int) % align == 0 ==> r@ as int % align == 0,
{
    let size = get_size(index);
    if allocator.is_empty() {
        match allocator.stock_up(size, fallback) {
            Ok(pages) => {
                if pages > 0 {
                    info.pages_allocation(pages);
                }
            },
            Err(_) => return Virt::zero(),
        }
    }
    proof {
        allocator.lemma_wf();
        allocator.spec_bitmap().spec_bitmap().lemma_free_bounds();
    }
    let ghost before = allocator.spec_bitmap().spec_bitmap();
    let address = allocator.allocate();
    proof {
        before.lemma_view();
        allocator.spec_bitmap().spec_bitmap().lemma_view();
        if address@ != 0 {
            let n = choose|n: int| 0 <= n < before.spec_len() && !before@[n]
                && allocator.spec_bitmap().spec_bitmap()@ == before@.update(n, true)
                && address@ == quarry_address(allocator.spec_quarry()->0, n);
            assert(allocator.spec_bitmap().spec_bitmap()@[n]);
        }
    }
    proof {
        if address@ != 0 {
            let q = allocator.spec_quarry()->0;
            allocator.lemma_wf();
            assert(q.spec_size() == spec_get_size(index as int));
            let n = choose|n: int| 0 <= n < before.spec_len() && !before@[n]
                && allocator.spec_bitmap().spec_bitmap()@ == before@.update(n, true)
                && address@ == quarry_address(q, n);
            assert forall|align: int| #[trigger] is_power_of_two(align) && align <= PAGE_BYTES
                && spec_get_size(index as int) % align == 0 implies address@ as int % align == 0 by {
                lemma_quarry_address_aligned(q, n, align);
            }
        }
    }
    if address.into_usize() != 0 {
        allocator.info_mut().allocation(requested, size, 0);
        info.allocation(requested, size, 0);
    }
    address
}

/// A power of two divides every power of two that is not smaller.
proof fn lemma_power_of_two_divides(a: int, m: int)
    requires
        is_power_of_two(a),
        is_power_of_two(m),
        a <= m,
    ensures
        m % a == 0,
    decreases a,
{
    if a > 1 {
        assert(m > 1);
        lemma_power_of_two_divides(a / 2, m / 2);
        let k = (m / 2) / (a / 2);
        assert(m / 2 == (a / 2) * k) by {
            vstd::arithmetic::div_mod::lemma_fundamental_div_mod(m / 2, a / 2);
        }
        assert(m == a * k) by (nonlinear_arith)
            requires m == 2 * (m / 2), a == 2 * (a / 2), m / 2 == (a / 2) * k;
        vstd::arithmetic::div_mod::lemma_mod_multiples_basic(k, a);
        assert(k * a == a * k) by (nonlinear_arith);
    }
}

/// An address in a reserved slab of a quarry is aligned to every power of two up to a page
/// that divides the size of its allocations.
proof fn lemma_quarry_address_aligned(q: Quarry, n: int, align: int)
    requires
        q.wf(),
        0 <= n,
        is_power_of_two(align),
        align <= PAGE_BYTES,
        q.spec_size() % align == 0,
    ensures
        quarry_address(q, n) % align == 0,
{
    q.lemma_wf();
    let (slab, offset) = coordinates(n, q.spec_per_slab());
    let block = q.spec_slab(slab);
    if block.0 != block.1 {
        assert(is_power_of_two(4096int)) by {
            reveal_with_fuel(is_power_of_two, 13);
        }
        lemma_power_of_two_divides(align, 4096int);
        let j = 4096int / align;
        let i = q.spec_size() / align;
        vstd::arithmetic::div_mod::lemma_fundamental_div_mod(4096int, align);
        vstd::arithmetic::div_mod::lemma_fundamental_div_mod(q.spec_size(), align);
        assert(quarry_address(q, n) == block.0 * 4096 + offset * q.spec_size());
        let total = block.0 * j + offset * i;
        assert(block.0 * 4096 + offset * q.spec_size() == align * total) by (nonlinear_arith)
            requires 4096 == align * j, q.spec_size() == align * i, total == block.0 * j + offset * i;
        vstd::arithmetic::div_mod::lemma_mod_multiples_basic(total, align);
        assert(total * align == align * total) by (nonlinear_arith);
    } else {
        assert(quarry_address(q, n) == 0);
    }
}

/// Frees the block at `address` of the size class `index` in its allocator `allocator`, for a
/// request of `requested` bytes, and counts the deallocation in the statistics of the
/// allocator and in `info`.
pub fn fixed_size_deallocate(
    allocator: &mut FixedSizeAllocator,
    index: usize,
    address: Virt,
    requested: usize,
    info: &mut Info,
)
    requires
        usize::BITS == 64,
        index < FIXED_SIZE_COUNT,
        old(allocator).wf(),
        old(allocator).spec_quarry() is Some,
        ({
            let q = old(allocator).spec_quarry()->0;
            exists|i: int| #[trigger] q.spec_first_containing(i, address@ as int)
                && q.spec_index_in(i, address@ as int) < old(allocator).spec_bitmap().spec_bitmap().spec_len()
                && old(allocator).spec_bitmap().spec_bitmap()@[q.spec_index_in(i, address@ as int)]
        }),
        info_room(old(allocator).spec_info(), INFO_ROOM as int),
        info_room(*old(info), INFO_ROOM as int),
        requested <= spec_get_size(index as int),
    ensures
        final(allocator).wf(),
        same_change(*old(info), *final(info), old(allocator).spec_info(), final(allocator).spec_info()),
        final(allocator).spec_quarry() == old(allocator).spec_quarry(),
        ({
            let q = old(allocator).spec_quarry()->0;
            exists|i: int| #[trigger] q.spec_first_containing(i, address@ as int)
                && final(allocator).spec_bitmap().spec_bitmap()@
                    == old(allocator).spec_bitmap().spec_bitmap()@.update(q.spec_index_in(i, address@ as int), false)
        }),
        ({
            let size = spec_get_size(index as int);
            &&& final(info)@.0@ == ((old(info)@.0@.0 + size) as usize, old(info)@.0@.1)
            &&& final(info)@.1@ == ((old(info)@.1@.0 + 1) as usize, old(info)@.1@.1)
            &&& final(info)@.2@ == old(info)@.2@
            &&& final(info)@.3@ == ((old(info)@.3@.0 + requested) as usize, old(info)@.3@.1)
            &&& final(allocator).spec_info()@.0@ == ((old(allocator).spec_info()@.0@.0 + size) as usize, old(allocator).spec_info()@.0@.1)
            &&& final(allocator).spec_info()@.1@ == ((old(allocator).spec_info()@.1@.0 + 1) as usize, old(allocator).spec_info()@.1@.1)
            &&& final(allocator).spec_info()@.2@ == old(allocator).spec_info()@.2@
            &&& final(allocator).spec_info()@.3@ == ((old(allocator).spec_info()@.3@.0 + requested) as usize, old(allocator).spec_info()@.3@.1)
        }),
{
    let size = get_size(index);
    allocator.deallocate(address);
    allocator.info_mut().deallocation(requested, size, 0);
    info.deallocation(requested, size, 0);
}


/// Counts a reallocation that keeps its block of the size class `index`, from a request of
/// `old_requested` bytes to one of `new_requested` bytes: a deallocation and an allocation of
/// the block, in the statistics of its allocator `allocator` and in `info`.
pub fn fixed_size_reallocate_in_place(
    allocator: &mut FixedSizeAllocator,
    index: usize,
    old_requested: usize,
    new_requested: usize,
    info: &mut Info,
)
    requires
        index < FIXED_SIZE_COUNT,
        old_requested <= spec_get_size(index as int),
        new_requested <= spec_get_size(index as int),
        info_room(old(allocator).spec_info(), INFO_ROOM as int),
        info_room(*old(info), INFO_ROOM as int),
    ensures
        same_change(*old(info), *final(info), old(allocator).spec_info(), final(allocator).spec_info()),
        final(allocator).spec_bitmap() == old(allocator).spec_bitmap(),
        final(allocator).spec_quarry() == old(allocator).spec_quarry(),
        final(allocator).wf() == old(allocator).wf(),
        ({
            let size = spec_get_size(index as int);
            &&& final(info)@.0@ == ((old(info)@.0@.0 + size) as usize, (old(info)@.0@.1 + size) as usize)
            &&& final(info)@.1@ == ((old(info)@.1@.0 + 1) as usize, (old(info)@.1@.1 + 1) as usize)
            &&& final(info)@.2@ == old(info)@.2@
            &&& final(info)@.3@ == ((old(info)@.3@.0 + old_requested) as usize, (old(info)@.3@.1 + new_requested) as usize)
            &&& final(allocator).spec_info()@.0@ == ((old(allocator).spec_info()@.0@.0 + size) as usize, (old(allocator).spec_info()@.0@.1 + size) as usize)
            &&& final(allocator).spec_info()@.1@ == ((old(allocator).spec_info()@.1@.0 + 1) as usize, (old(allocator).spec_info()@.1@.1 + 1) as usize)
            &&& final(allocator).spec_info()@.2@ == old(allocator).spec_info()@.2@
            &&& final(allocator).spec_info()@.3@ == ((old(allocator).spec_info()@.3@.0 + old_requested) as usize, (old(allocator).spec_info()@.3@.1 + new_requested) as usize)
        }),
{
    let size = get_size(index);
    let allocator_info = allocator.info_mut();
    allocator_info.deallocation(old_requested, size, 0);
    allocator_info.allocation(new_requested, size, 0);
    info.deallocation(old_requested, size, 0);
    info.allocation(new_requested, size, 0);
}

} // verus!
