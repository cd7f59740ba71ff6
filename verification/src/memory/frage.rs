use core::ops::{Add, Sub};

use vstd::prelude::*;

use crate::error::{Error, Result};

use super::addr::{
    Addr, Tag, VirtTag, Virt, PHYS_END, LOWER_HALF_END, HIGHER_HALF_START, new_result,
    moved_result, is_page_size, lemma_page_size_divides,
};

verus! {

/// Size of a 4 KiB page or frame.
pub const L0_SIZE: usize = 0x1000;

/// Size of a 2 MiB page or frame.
pub const L1_SIZE: usize = 0x20_0000;

/// Size of a 1 GiB page or frame.
pub const L2_SIZE: usize = 0x4000_0000;

/// `r` is what the address of the element with index `index` of size `size` gives:
/// `Error::Overflow` where it does not fit into `usize`, `Error::InvalidArgument`
/// where it is not valid for the tag `T`, else that address.
pub open spec fn index_address_result<T: Tag>(r: Result<Addr<T>>, index: int, size: int) -> bool {
    if index * size > usize::MAX {
        r == Err::<Addr<T>, Error>(Error::Overflow)
    } else {
        new_result(r, index * size, T::spec_is_valid((index * size) as usize))
    }
}

/// A page (virtual, `T` is `VirtTag`) or a frame (physical, `T` is `PhysTag`) of `SIZE` bytes:
/// an address aligned to `SIZE`.
#[derive(Debug, Default, PartialEq, Eq, PartialOrd, Ord, Hash)]
pub struct Frage<T, const SIZE: usize>(Addr<T>);

impl<T, const SIZE: usize> Clone for Frage<T, SIZE> {
    fn clone(&self) -> (r: Self)
        ensures
            r == *self,
    {
        *self
    }
}

impl<T, const SIZE: usize> Copy for Frage<T, SIZE> {
}

impl<T, const SIZE: usize> View for Frage<T, SIZE> {
    type V = usize;

    /// The address of the page or frame.
    closed spec fn view(&self) -> usize {
        self.0@
    }
}

impl<T: Tag, const SIZE: usize> Frage<T, SIZE> {
    /// Whether `SIZE` is one of the page sizes of x86-64 and the tag is that of memory addresses.
    pub open spec fn type_ok() -> bool {
        is_page_size(SIZE as int) && T::spec_bits() >= 48
    }

    /// Whether the page or frame has a valid and aligned address.
    pub open spec fn is_valid(self) -> bool {
        T::spec_is_valid(self@) && self@ as int % SIZE as int == 0
    }

    /// The index of the page or frame: its address divided by its size.
    pub open spec fn spec_index(self) -> int {
        self@ as int / SIZE as int
    }

    /// Makes the page or frame at the address `addr`.
    /// Returns `Error::InvalidAlignment` where `addr` is not aligned to `SIZE`.
    pub fn new(addr: Addr<T>) -> (r: Result<Self>)
        requires
            Self::type_ok(),
        ensures
            addr@ as int % SIZE as int == 0 ==> (r matches Ok(f) && f@ == addr@),
            addr@ as int % SIZE as int != 0 ==> r == Err::<Self, Error>(Error::InvalidAlignment),
    {
        if addr.into_usize() % SIZE == 0 {
            Ok(Frage(addr))
        } else {
            Err(Error::InvalidAlignment)
        }
    }

    /// The page or frame at address zero.
    pub fn zero() -> (r: Self)
        requires
            Self::type_ok(),
        ensures
            r@ == 0,
    {
        Frage(Addr::from_bits(0))
    }

    /// The address of the page or frame.
    pub fn address(&self) -> (r: Addr<T>)
        ensures
            r@ == self@,
    {
        self.0
    }

    /// The address of the page or frame with index `index`.
    /// Returns `Error::Overflow` where it does not fit into `usize`
    /// and `Error::InvalidArgument` where it is not a valid address.
    pub fn address_by_index(index: usize) -> (r: Result<Addr<T>>)
        requires
            Self::type_ok(),
        ensures
            index_address_result(r, index as int, SIZE as int),
    {
        match index.checked_mul(SIZE) {
            None => Err(Error::Overflow),
            Some(address) => Addr::new(address),
        }
    }

    /// The page or frame that contains the address `addr`.
    pub fn containing(addr: Addr<T>) -> (r: Self)
        requires
            usize::BITS == 64,
            Self::type_ok(),
            addr.is_valid(),
        ensures
            r@ == addr@ - addr@ as int % SIZE as int,
            r.is_valid(),
            T::spec_is_same_half(addr@, r@),
    {
        let bits = addr.into_usize();
        proof {
            T::lemma_round_down(bits, SIZE as int);
            lemma_page_size_divides(SIZE as int);
            assert((bits - bits as int % SIZE as int) % SIZE as int == 0) by (nonlinear_arith)
                requires SIZE > 0;
        }
        Frage(Addr::new(bits - bits % SIZE).expect("a rounded down address is valid"))
    }

    /// The page or frame with index `index`.
    /// Returns `Error::Overflow` where its address does not fit into `usize`
    /// and `Error::InvalidArgument` where it is not a valid address.
    pub fn from_index(index: usize) -> (r: Result<Self>)
        requires
            Self::type_ok(),
        ensures
            match r {
                Ok(f) => f@ == index * SIZE && f.is_valid(),
                Err(e) => index_address_result(Err::<Addr<T>, Error>(e), index as int, SIZE as int),
            },
            r is Ok <==> index * SIZE <= usize::MAX && T::spec_is_valid((index * SIZE) as usize),
    {
        match Self::address_by_index(index) {
            Ok(address) => {
                proof {
                    lemma_page_size_divides(SIZE as int);
                    vstd::arithmetic::div_mod::lemma_mod_multiples_basic(index as int, SIZE as int);
                }
                Ok(Frage(address))
            },
            Err(e) => Err(e),
        }
    }

    /// The page or frame with index `index`, which must give a valid address.
    pub fn from_index_unchecked(index: usize) -> (r: Self)
        requires
            Self::type_ok(),
            index * SIZE <= usize::MAX,
        ensures
            r@ == index * SIZE,
    {
        Frage(Addr::from_bits(index * SIZE))
    }

    /// The page or frame of index `index` has that index, and its address is aligned, so that
    /// `index` and `index_by_address` give back `index`, and `new` of its address gives it back.
    pub proof fn lemma_index_round_trip(f: Self, index: int)
        requires
            Self::type_ok(),
            0 <= index,
            f@ == index * SIZE,
        ensures
            f.spec_index() == index,
            f@ as int % SIZE as int == 0,
    {
        vstd::arithmetic::div_mod::lemma_div_multiples_vanish(index, SIZE as int);
        vstd::arithmetic::div_mod::lemma_mod_multiples_basic(index, SIZE as int);
        assert(index * SIZE == SIZE * index) by (nonlinear_arith);
    }

    /// The index of the page or frame.
    pub fn index(&self) -> (r: usize)
        requires
            Self::type_ok(),
        ensures
            r == self.spec_index(),
    {
        Self::index_by_address(self.address())
    }

    /// The index of the page or frame that contains the address `address`.
    pub fn index_by_address(address: Addr<T>) -> (r: usize)
        requires
            Self::type_ok(),
        ensures
            r == address@ as int / SIZE as int,
    {
        address.into_usize() / SIZE
    }

    /// The address inside this page or frame at the offset that `address` has inside its own.
    pub fn offset<Q: Tag>(&self, address: Addr<Q>) -> (r: Addr<T>)
        requires
            usize::BITS == 64,
            Self::type_ok(),
            self.is_valid(),
        ensures
            r@ == self@ + address@ as int % SIZE as int,
            r.is_valid(),
    {
        let offset = address.into_usize() % SIZE;
        proof {
            T::lemma_align();
            T::lemma_aligned_offset(self@, SIZE as int, offset as int);
        }
        (self.address() + offset).expect("an offset inside a page or frame is valid")
    }

    /// The size of the page or frame in bytes.
    pub fn size(&self) -> (r: usize)
        ensures
            r == SIZE,
    {
        SIZE
    }
}

impl<T: Tag, const SIZE: usize> Add<usize> for Frage<T, SIZE> {
    type Output = Result<Self>;

    /// The page or frame `rhs` pages or frames up, within the same half of the address space.
    fn add(self, rhs: usize) -> (r: Result<Self>)
        ensures
            self@ as int % SIZE as int == 0 ==> match r {
                Ok(f) => f@ == self@ + rhs * SIZE && T::spec_is_valid(f@)
                    && T::spec_is_same_half(self@, f@),
                Err(e) => moved_result(Err::<Addr<T>, Error>(e), self@, self@ + rhs * SIZE),
            },
    {
        let delta = rhs * SIZE;
        match self.0 + delta {
            Ok(addr) => {
                proof {
                    lemma_page_size_divides(SIZE as int);
                    vstd::arithmetic::div_mod::lemma_mod_multiples_basic(rhs as int, SIZE as int);
                    if self@ as int % SIZE as int == 0 {
                        vstd::arithmetic::div_mod::lemma_add_mod_noop(self@ as int, delta as int, SIZE as int);
                    }
                }
                Self::new(addr)
            },
            Err(e) => Err(e),
        }
    }
}

impl<T: Tag, const SIZE: usize> vstd::std_specs::ops::AddSpecImpl<usize> for Frage<T, SIZE> {
    open spec fn obeys_add_spec() -> bool {
        false
    }

    open spec fn add_req(self, rhs: usize) -> bool {
        Self::type_ok() && rhs * SIZE <= usize::MAX
    }

    open spec fn add_spec(self, rhs: usize) -> Result<Self> {
        arbitrary()
    }
}

impl<T: Tag, const SIZE: usize> Sub<usize> for Frage<T, SIZE> {
    type Output = Result<Self>;

    /// The page or frame `rhs` pages or frames down, within the same half of the address space.
    fn sub(self, rhs: usize) -> (r: Result<Self>)
        ensures
            self@ as int % SIZE as int == 0 ==> match r {
                Ok(f) => f@ == self@ - rhs * SIZE && T::spec_is_valid(f@)
                    && T::spec_is_same_half(self@, f@),
                Err(e) => moved_result(Err::<Addr<T>, Error>(e), self@, self@ - rhs * SIZE),
            },
    {
        let delta = rhs * SIZE;
        match self.0 - delta {
            Ok(addr) => {
                proof {
                    lemma_page_size_divides(SIZE as int);
                    vstd::arithmetic::div_mod::lemma_mod_multiples_basic(rhs as int, SIZE as int);
                    if self@ as int % SIZE as int == 0 {
                        vstd::arithmetic::div_mod::lemma_sub_mod_noop(self@ as int, delta as int, SIZE as int);
                    }
                }
                Self::new(addr)
            },
            Err(e) => Err(e),
        }
    }
}

impl<T: Tag, const SIZE: usize> vstd::std_specs::ops::SubSpecImpl<usize> for Frage<T, SIZE> {
    open spec fn obeys_sub_spec() -> bool {
        false
    }

    open spec fn sub_req(self, rhs: usize) -> bool {
        Self::type_ok() && rhs * SIZE <= usize::MAX
    }

    open spec fn sub_spec(self, rhs: usize) -> Result<Self> {
        arbitrary()
    }
}

/// A physical frame of `SIZE` bytes.
pub type ElasticFrame<const SIZE: usize> = Frage<super::addr::PhysTag, SIZE>;

/// A virtual page of `SIZE` bytes.
pub type ElasticPage<const SIZE: usize> = Frage<VirtTag, SIZE>;

/// A 4 KiB physical frame.
pub type L0Frame = ElasticFrame<L0_SIZE>;

/// A 4 KiB virtual page.
pub type L0Page = ElasticPage<L0_SIZE>;

/// A 2 MiB physical frame.
pub type L1Frame = ElasticFrame<L1_SIZE>;

/// A 2 MiB virtual page.
pub type L1Page = ElasticPage<L1_SIZE>;

/// A 1 GiB physical frame.
pub type L2Frame = ElasticFrame<L2_SIZE>;

/// A 1 GiB virtual page.
pub type L2Page = ElasticPage<L2_SIZE>;

/// A 4 KiB physical frame.
pub type Frame = L0Frame;

/// A 4 KiB virtual page.
pub type Page = L0Page;

/// The index past the last page of `size` bytes in the lower half.
pub open spec fn lower_end(size: int) -> int {
    LOWER_HALF_END as int / size
}

/// The index of the first page of `size` bytes in the higher half.
pub open spec fn higher_start(size: int) -> int {
    HIGHER_HALF_START as int / size
}

/// How many page indexes lie between the two halves.
pub open spec fn non_canonical_count(size: int) -> int {
    higher_start(size) - lower_end(size)
}

/// Whether the page of `size` bytes with index `index` is a valid virtual page.
pub open spec fn is_page_index(index: int, size: int) -> bool {
    0 <= index < lower_end(size) || higher_start(size) <= index < higher_start(size) + lower_end(size)
}

/// The position of the page with index `index` when the pages of both halves are counted in a row.
pub open spec fn page_position(index: int, size: int) -> int {
    if index < lower_end(size) {
        index
    } else {
        index - non_canonical_count(size)
    }
}

/// The facts on page indexes that the page sizes give.
pub proof fn lemma_page_indexes(size: int)
    requires
        is_page_size(size),
    ensures
        lower_end(size) * size == LOWER_HALF_END,
        higher_start(size) * size == HIGHER_HALF_START,
        (higher_start(size) + lower_end(size)) * size == 0x1_0000_0000_0000_0000int,
        0 < lower_end(size) < higher_start(size),
        non_canonical_count(size) > 0,
        forall|i: int| #![trigger is_page_index(i, size)]
            0 <= i ==> (is_page_index(i, size) <==> (i * size <= 0xFFFF_FFFF_FFFF_FFFFint
                && super::addr::is_canonical(i * size))),
{
    if size == 0x1000 {
    } else if size == 0x20_0000 {
    } else {
    }
    assert forall|i: int| 0 <= i implies (#[trigger] is_page_index(i, size) <==> (i * size <= 0xFFFF_FFFF_FFFF_FFFFint
        && super::addr::is_canonical(i * size))) by {
        let l = lower_end(size);
        let h = higher_start(size);
        assert(i < l <==> i * size < LOWER_HALF_END) by (nonlinear_arith)
            requires l * size == LOWER_HALF_END, size > 0, 0 <= i;
        assert(h <= i <==> HIGHER_HALF_START <= i * size) by (nonlinear_arith)
            requires h * size == HIGHER_HALF_START, size > 0, 0 <= i;
        assert(i < h + l <==> i * size <= 0xFFFF_FFFF_FFFF_FFFFint) by (nonlinear_arith)
            requires (h + l) * size == 0x1_0000_0000_0000_0000int, size > 0, 0 <= i;
    }
}

impl<const SIZE: usize> Frage<VirtTag, SIZE> {
    /// The position of this page when the pages of both halves are counted in a row.
    pub open spec fn position(self) -> int {
        page_position(self.spec_index(), SIZE as int)
    }

    /// The first page of the higher half of the virtual address space.
    pub fn higher_half() -> (r: Self)
        requires
            usize::BITS == 64,
            Self::type_ok(),
        ensures
            r@ == HIGHER_HALF_START,
            r.is_valid(),
    {
        proof {
            lemma_page_size_divides(SIZE as int);
        }
        Self::containing(Virt::higher_half())
    }

    /// The first page of the lower half of the virtual address space.
    pub fn lower_half() -> (r: Self)
        requires
            usize::BITS == 64,
            Self::type_ok(),
        ensures
            r@ == 0,
            r.is_valid(),
    {
        Self::containing(Virt::lower_half())
    }

    /// The index of the first page of the higher half.
    pub fn higher_half_start_index() -> (r: usize)
        requires
            usize::BITS == 64,
            Self::type_ok(),
        ensures
            r == higher_start(SIZE as int),
    {
        Self::higher_half().index()
    }

    /// The index past the last page of the higher half.
    pub fn higher_half_end_index() -> (r: usize)
        requires
            usize::BITS == 64,
            Self::type_ok(),
        ensures
            r == higher_start(SIZE as int) + lower_end(SIZE as int),
    {
        proof {
            lemma_page_indexes(SIZE as int);
        }
        (usize::MAX / SIZE) + 1
    }

    /// The index of the first page of the lower half.
    pub fn lower_half_start_index() -> (r: usize)
        requires
            usize::BITS == 64,
            Self::type_ok(),
        ensures
            r == 0,
    {
        Self::lower_half().index()
    }

    /// The index past the last page of the lower half.
    pub fn lower_half_end_index() -> (r: usize)
        requires
            usize::BITS == 64,
            Self::type_ok(),
        ensures
            r == lower_end(SIZE as int),
    {
        Self::lower_half_start_index() + Virt::half_size() / SIZE
    }

    /// Whether the page lies in the higher half of the virtual address space.
    pub fn is_higher_half(&self) -> (r: bool)
        requires
            usize::BITS == 64,
            Self::type_ok(),
        ensures
            r == (higher_start(SIZE as int) <= self.spec_index()),
    {
        Self::higher_half_start_index() <= self.index()
    }

    /// Whether the page lies in the lower half of the virtual address space.
    pub fn is_lower_half(&self) -> (r: bool)
        requires
            usize::BITS == 64,
            Self::type_ok(),
        ensures
            r == (self.spec_index() < lower_end(SIZE as int)),
    {
        self.index() < Self::lower_half_end_index()
    }

    /// The number of page indexes between the two halves.
    fn non_canonical_count() -> (r: usize)
        requires
            usize::BITS == 64,
            Self::type_ok(),
        ensures
            r == non_canonical_count(SIZE as int),
    {
        proof {
            lemma_page_indexes(SIZE as int);
        }
        Self::higher_half_start_index() - Self::lower_half_end_index()
    }

    /// The page `count` pages after `start`, skipping the gap between the two halves.
    /// Returns `None` where there is no such page.
    pub fn forward_checked(start: Self, count: usize) -> (r: Option<Self>)
        requires
            usize::BITS == 64,
            Self::type_ok(),
            start.is_valid(),
        ensures
            r is Some <==> start.position() + count < 2 * lower_end(SIZE as int),
            r matches Some(page) ==> page.is_valid() && page.position() == start.position() + count,
    {
        proof {
            lemma_page_indexes(SIZE as int);
            lemma_valid_page(start);
        }
        let index = start.index();
        let mut advanced = match index.checked_add(count) {
            Some(a) => a,
            None => return None,
        };
        if index < Self::lower_half_end_index() && Self::lower_half_end_index() <= advanced {
            advanced = match advanced.checked_add(Self::non_canonical_count()) {
                Some(a) => a,
                None => return None,
            };
        }
        proof {
            assert(is_page_index(advanced as int, SIZE as int) ==> advanced < 2 * lower_end(SIZE as int) + non_canonical_count(SIZE as int));
        }
        match Self::from_index(advanced) {
            Ok(page) => {
                proof {
                    lemma_index_of_address(page, advanced as int);
                }
                Some(page)
            },
            Err(_) => None,
        }
    }

    /// The page `count` pages before `start`, skipping the gap between the two halves.
    /// Returns `None` where there is no such page.
    pub fn backward_checked(start: Self, count: usize) -> (r: Option<Self>)
        requires
            usize::BITS == 64,
            Self::type_ok(),
            start.is_valid(),
        ensures
            r is Some <==> count <= start.position(),
            r matches Some(page) ==> page.is_valid() && page.position() == start.position() - count,
    {
        proof {
            lemma_page_indexes(SIZE as int);
            lemma_valid_page(start);
        }
        let index = start.index();
        let mut advanced = match index.checked_sub(count) {
            Some(a) => a,
            None => return None,
        };
        if advanced < Self::higher_half_start_index() && Self::higher_half_start_index() <= index {
            advanced = match advanced.checked_sub(Self::non_canonical_count()) {
                Some(a) => a,
                None => return None,
            };
        }
        proof {
            assert(is_page_index(advanced as int, SIZE as int));
        }
        let page = Self::from_index(advanced).expect("the advancement keeps the page canonical");
        proof {
            lemma_index_of_address(page, advanced as int);
        }
        Some(page)
    }

    /// The number of pages from `start` up to `end`, not counting the gap between the halves;
    /// `(0, None)` where `end` precedes `start`.
    pub fn steps_between(start: &Self, end: &Self) -> (r: (usize, Option<usize>))
        requires
            usize::BITS == 64,
            Self::type_ok(),
            start.is_valid(),
            end.is_valid(),
        ensures
            start@ <= end@ ==> r == (
                (end.position() - start.position()) as usize,
                Some((end.position() - start.position()) as usize),
            ),
            start@ > end@ ==> r == (0usize, None::<usize>),
    {
        proof {
            lemma_page_indexes(SIZE as int);
            lemma_valid_page(*start);
            lemma_valid_page(*end);
        }
        if start.address().into_usize() <= end.address().into_usize() {
            let steps = if Self::is_lower_half(start) == Self::is_lower_half(end) {
                end.index() - start.index()
            } else {
                end.index() - start.index() - Self::non_canonical_count()
            };
            (steps, Some(steps))
        } else {
            (0, None)
        }
    }

    /// The index of the page `page_count` pages after this one,
    /// or the index past the last page where there is no such page.
    pub fn advance_index(&self, page_count: usize) -> (r: usize)
        requires
            usize::BITS == 64,
            Self::type_ok(),
            self.is_valid(),
        ensures
            self.position() + page_count < 2 * lower_end(SIZE as int)
                ==> page_position(r as int, SIZE as int) == self.position() + page_count
                && is_page_index(r as int, SIZE as int),
            self.position() + page_count >= 2 * lower_end(SIZE as int)
                ==> r == higher_start(SIZE as int) + lower_end(SIZE as int),
    {
        match Self::forward_checked(*self, page_count) {
            Some(page) => {
                proof {
                    lemma_page_indexes(SIZE as int);
                    lemma_valid_page(page);
                }
                page.index()
            },
            None => Self::higher_half_end_index(),
        }
    }
}

/// A valid page has an index of a valid page, and its address is its index times its size.
proof fn lemma_valid_page<const SIZE: usize>(page: Frage<VirtTag, SIZE>)
    requires
        Frage::<VirtTag, SIZE>::type_ok(),
        page.is_valid(),
    ensures
        page@ == page.spec_index() * SIZE,
        is_page_index(page.spec_index(), SIZE as int),
{
    lemma_page_indexes(SIZE as int);
    lemma_page_size_divides(SIZE as int);
    vstd::arithmetic::div_mod::lemma_fundamental_div_mod(page@ as int, SIZE as int);
    assert(page.spec_index() >= 0) by {
        vstd::arithmetic::div_mod::lemma_div_pos_is_pos(page@ as int, SIZE as int);
    }
    assert(is_page_index(page.spec_index(), SIZE as int));
}

/// The index of a page made of the index `index` is `index`.
proof fn lemma_index_of_address<const SIZE: usize>(page: Frage<VirtTag, SIZE>, index: int)
    requires
        Frage::<VirtTag, SIZE>::type_ok(),
        page@ == index * SIZE,
        0 <= index,
    ensures
        page.spec_index() == index,
{
    lemma_page_size_divides(SIZE as int);
    vstd::arithmetic::div_mod::lemma_div_multiples_vanish(index, SIZE as int);
}

} // verus!
