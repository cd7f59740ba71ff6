use core::cmp::Ordering;
use core::marker::PhantomData;
use core::ops::Range;

use vstd::prelude::*;

use crate::error::{Error, Result};

use super::addr::{Addr, Tag, PHYS_END, new_result, is_page_size, lemma_page_size_divides};
use super::frage::{Frage, L0_SIZE, index_address_result};
use vstd::std_specs::cmp::{PartialEqSpecImpl, PartialOrdSpecImpl};

verus! {

/// The elements that blocks are made of: addresses (one byte each) or pages and frames.
pub trait Memory: Sized + Copy {
    /// The kind of addresses of the elements.
    type Tag: Tag;

    /// Whether the element type is usable: pages and frames of a page size of x86-64.
    spec fn type_ok() -> bool;

    /// Size of one element in bytes.
    spec fn spec_size_of() -> nat;

    /// Index of the element `element`.
    spec fn spec_index(element: Self) -> int;

    /// Address of the element `element`.
    spec fn spec_address(element: Self) -> int;

    /// Whether `element` is a valid element.
    spec fn spec_is_valid(element: Self) -> bool;

    /// The element types have sizes of one byte or of a page of memory.
    proof fn lemma_type()
        requires
            Self::type_ok(),
        ensures
            Self::spec_size_of() == 1 || (is_page_size(Self::spec_size_of() as int)
                && <Self::Tag as Tag>::spec_bits() >= 48),
    ;

    /// A valid element lies at its index times the element size, and that address is valid.
    proof fn lemma_valid_element(element: Self)
        requires
            Self::type_ok(),
            Self::spec_is_valid(element),
        ensures
            Self::spec_address(element) == Self::spec_index(element) * Self::spec_size_of(),
            0 <= Self::spec_address(element) <= usize::MAX,
            <Self::Tag as Tag>::spec_is_valid(Self::spec_address(element) as usize),
    ;

    /// Size of one element in bytes.
    fn size_of() -> (r: usize)
        ensures
            r == Self::spec_size_of(),
    ;

    /// The address of the element `element`.
    fn address(element: Self) -> (r: Addr<Self::Tag>)
        ensures
            r@ == Self::spec_address(element),
    ;

    /// The address of the element with index `index`.
    fn address_by_index(index: usize) -> (r: Result<Addr<Self::Tag>>)
        requires
            Self::type_ok(),
        ensures
            index_address_result(r, index as int, Self::spec_size_of() as int),
    ;

    /// The address of the element with index `index`, which must fit into `usize`.
    fn address_by_index_unchecked(index: usize) -> (r: Addr<Self::Tag>)
        requires
            Self::type_ok(),
            index * Self::spec_size_of() <= usize::MAX,
        ensures
            r@ == index * Self::spec_size_of(),
    ;

    /// The element with index `index`.
    fn from_index(index: usize) -> (r: Result<Self>)
        requires
            Self::type_ok(),
        ensures
            match r {
                Ok(e) => Self::spec_index(e) == index && Self::spec_is_valid(e),
                Err(err) => index_address_result(
                    Err::<Addr<Self::Tag>, Error>(err),
                    index as int,
                    Self::spec_size_of() as int,
                ),
            },
            r is Ok <==> index * Self::spec_size_of() <= usize::MAX
                && <Self::Tag as Tag>::spec_is_valid((index * Self::spec_size_of()) as usize),
    ;

    /// The index of the element `element`.
    fn index(element: Self) -> (r: usize)
        requires
            Self::type_ok(),
        ensures
            r == Self::spec_index(element),
    ;
}

impl<T: Tag> Memory for Addr<T> {
    type Tag = T;

    open spec fn type_ok() -> bool {
        true
    }

    open spec fn spec_size_of() -> nat {
        1
    }

    open spec fn spec_index(element: Self) -> int {
        element@ as int
    }

    open spec fn spec_address(element: Self) -> int {
        element@ as int
    }

    open spec fn spec_is_valid(element: Self) -> bool {
        element.is_valid()
    }

    proof fn lemma_type() {
    }

    proof fn lemma_valid_element(element: Self) {
        assert(element@ as int * 1 == element@ as int);
    }

    fn size_of() -> (r: usize) {
        1
    }

    fn address(element: Self) -> (r: Addr<T>) {
        element
    }

    fn address_by_index(index: usize) -> (r: Result<Addr<T>>) {
        Addr::new(index)
    }

    fn address_by_index_unchecked(index: usize) -> (r: Addr<T>) {
        Addr::from_bits(index)
    }

    fn from_index(index: usize) -> (r: Result<Self>) {
        assert(index * 1 == index);
        Addr::new(index)
    }

    fn index(element: Self) -> (r: usize) {
        element.into_usize()
    }
}

impl<T: Tag, const SIZE: usize> Memory for Frage<T, SIZE> {
    type Tag = T;

    open spec fn type_ok() -> bool {
        Frage::<T, SIZE>::type_ok()
    }

    open spec fn spec_size_of() -> nat {
        SIZE as nat
    }

    open spec fn spec_index(element: Self) -> int {
        element.spec_index()
    }

    open spec fn spec_address(element: Self) -> int {
        element@ as int
    }

    open spec fn spec_is_valid(element: Self) -> bool {
        element.is_valid()
    }

    proof fn lemma_type() {
    }

    proof fn lemma_valid_element(element: Self) {
        lemma_page_size_divides(SIZE as int);
        vstd::arithmetic::div_mod::lemma_fundamental_div_mod(element@ as int, SIZE as int);
        vstd::arithmetic::mul::lemma_mul_is_commutative(SIZE as int, element@ as int / SIZE as int);
    }

    fn size_of() -> (r: usize) {
        SIZE
    }

    fn address(element: Self) -> (r: Addr<T>) {
        element.address()
    }

    fn address_by_index(index: usize) -> (r: Result<Addr<T>>) {
        Frage::<T, SIZE>::address_by_index(index)
    }

    fn address_by_index_unchecked(index: usize) -> (r: Addr<T>) {
        Frage::<T, SIZE>::from_index_unchecked(index).address()
    }

    fn from_index(index: usize) -> (r: Result<Self>) {
        let r = Frage::<T, SIZE>::from_index(index);
        proof {
            if let Ok(f) = r {
                lemma_page_size_divides(SIZE as int);
                vstd::arithmetic::div_mod::lemma_div_multiples_vanish(index as int, SIZE as int);
            }
        }
        r
    }

    fn index(element: Self) -> (r: usize) {
        element.index()
    }
}

/// Whether the element of index `index` of type `T` has a valid address.
pub open spec fn valid_index<T: Memory>(index: int) -> bool {
    0 <= index && index * T::spec_size_of() <= usize::MAX
        && <T::Tag as Tag>::spec_is_valid((index * T::spec_size_of()) as usize)
}

/// The bits of the address of the element of index `index` of type `T`.
pub open spec fn index_address<T: Memory>(index: int) -> usize {
    (index * T::spec_size_of()) as usize
}

/// The index of the last element of the block `[start, end)`, or `end` for an empty block.
pub open spec fn last_index(start: int, end: int) -> int {
    if start < end {
        end - 1
    } else {
        end
    }
}

/// Whether `[start, end)` is a valid block of elements of type `T`: its bounds are in order,
/// its first and last elements have valid addresses, and those lie in the same half.
pub open spec fn valid_block<T: Memory>(start: int, end: int) -> bool {
    &&& T::type_ok()
    &&& start <= end
    &&& valid_index::<T>(start)
    &&& valid_index::<T>(last_index(start, end))
    &&& <T::Tag as Tag>::spec_is_same_half(index_address::<T>(start), index_address::<T>(last_index(start, end)))
}

/// `r` is what `Block::from_index(start, end)` gives: the block where it is valid, else the
/// error of the first failing check, in order: the address of the first element, that of
/// the last element, then the order of the bounds and the halves, `Error::InvalidArgument`.
pub open spec fn from_index_result<T: Memory>(r: Result<Block<T>>, start: int, end: int) -> bool {
    let size = T::spec_size_of() as int;
    if start * size > usize::MAX {
        r == Err::<Block<T>, Error>(Error::Overflow)
    } else if !<T::Tag as Tag>::spec_is_valid((start * size) as usize) {
        r == Err::<Block<T>, Error>(Error::InvalidArgument)
    } else if last_index(start, end) * size > usize::MAX {
        r == Err::<Block<T>, Error>(Error::Overflow)
    } else if !<T::Tag as Tag>::spec_is_valid((last_index(start, end) * size) as usize) {
        r == Err::<Block<T>, Error>(Error::InvalidArgument)
    } else if !valid_block::<T>(start, end) {
        r == Err::<Block<T>, Error>(Error::InvalidArgument)
    } else {
        r matches Ok(b) && b@ == (start, end)
    }
}

/// A half-open block `[start, end)` of elements of type `T`, given by their indexes:
/// of addresses (`Block<Phys>`, `Block<Virt>`) or of pages and frames (`Block<Page>`, ...).
#[derive(Debug)]
pub struct Block<T> {
    start: usize,
    end: usize,
    tag: PhantomData<T>,
}

impl<T> Clone for Block<T> {
    fn clone(&self) -> (r: Self)
        ensures
            r == *self,
    {
        *self
    }
}

impl<T> Copy for Block<T> {
}

impl<T> View for Block<T> {
    type V = (int, int);

    /// The indexes of the first element and of the element past the last.
    closed spec fn view(&self) -> (int, int) {
        (self.start as int, self.end as int)
    }
}

impl<T: Memory> Block<T> {
    /// Whether the block is valid: see `valid_block`.
    pub open spec fn wf(self) -> bool {
        valid_block::<T>(self@.0, self@.1)
    }

    /// The number of elements in the block.
    pub open spec fn spec_count(self) -> int {
        self@.1 - self@.0
    }

    /// The address of the first element.
    pub open spec fn spec_start_address(self) -> int {
        self@.0 * T::spec_size_of()
    }

    /// The address past the last element.
    pub open spec fn spec_end_address(self) -> int {
        self@.1 * T::spec_size_of()
    }

    /// A block always has its bounds within `usize`.
    pub proof fn lemma_bounds(self)
        ensures
            0 <= self@.0 <= usize::MAX,
            0 <= self@.1 <= usize::MAX,
    {
    }

    /// Makes the block `[start, end)` of the elements `start` and `end`.
    pub fn new(start: T, end: T) -> (r: Result<Self>)
        requires
            T::type_ok(),
        ensures
            from_index_result(r, T::spec_index(start), T::spec_index(end)),
    {
        Self::from_index(T::index(start), T::index(end))
    }

    /// Makes the block of `count` elements from `start`, with no check of its validity.
    pub fn from_count_unchecked(start: T, count: usize) -> (r: Self)
        requires
            T::type_ok(),
            T::spec_index(start) + count <= usize::MAX,
        ensures
            r@ == (T::spec_index(start), T::spec_index(start) + count),
    {
        Self::from_index_count_unchecked(T::index(start), count)
    }

    /// Makes the block of `count` elements from the index `start`, with no check of its validity.
    pub fn from_index_count_unchecked(start: usize, count: usize) -> (r: Self)
        requires
            start + count <= usize::MAX,
        ensures
            r@ == (start as int, start + count),
    {
        Self { start, end: start + count, tag: PhantomData }
    }

    /// The empty block at index zero.
    pub fn zero() -> (r: Self)
        ensures
            r@ == (0int, 0int),
    {
        Self { start: 0, end: 0, tag: PhantomData }
    }

    /// Makes the block `[start, end)` of the element indexes `start` and `end`.
    /// Returns `Error::InvalidArgument` where `start > end`, where the first and the last
    /// elements lie in different halves of the address space or where an address is invalid,
    /// and `Error::Overflow` where an address does not fit into `usize`.
    pub fn from_index(start: usize, end: usize) -> (r: Result<Self>)
        requires
            T::type_ok(),
        ensures
            from_index_result(r, start as int, end as int),
            r is Ok <==> valid_block::<T>(start as int, end as int),
            r matches Ok(b) ==> b.wf(),
    {
        let start_address = match T::address_by_index(start) {
            Ok(a) => a,
            Err(e) => return Err(e),
        };
        let last = if start < end { end - 1 } else { end };
        let last_address = match T::address_by_index(last) {
            Ok(a) => a,
            Err(e) => return Err(e),
        };
        if start <= end && <T::Tag as Tag>::is_same_half(start_address, last_address) {
            Ok(Self { start, end, tag: PhantomData })
        } else {
            Err(Error::InvalidArgument)
        }
    }

    /// Makes the block `[start, end)` of the element indexes given as `u64`.
    pub fn from_index_u64(start: u64, end: u64) -> (r: Result<Self>)
        requires
            T::type_ok(),
            usize::BITS == 64,
        ensures
            from_index_result(r, start as int, end as int),
    {
        Self::from_index(start as usize, end as usize)
    }

    /// Makes the block of the single element `element`.
    pub fn from_element(element: T) -> (r: Result<Self>)
        requires
            T::type_ok(),
            T::spec_index(element) < usize::MAX,
        ensures
            from_index_result(r, T::spec_index(element), T::spec_index(element) + 1),
    {
        Self::from_index(T::index(element), T::index(element) + 1)
    }

    /// The number of elements in the block.
    pub fn count(&self) -> (r: usize)
        requires
            self@.0 <= self@.1,
        ensures
            r == self.spec_count(),
    {
        self.end - self.start
    }

    /// The size of the block in bytes.
    pub fn size(&self) -> (r: usize)
        requires
            usize::BITS == 64,
            self.wf(),
        ensures
            r == self.spec_count() * T::spec_size_of(),
    {
        proof {
            self.lemma_size_fits();
        }
        self.count() * T::size_of()
    }

    /// The size of a valid block fits into `usize`.
    pub proof fn lemma_size_fits(self)
        requires
            usize::BITS == 64,
            self.wf(),
        ensures
            self.spec_count() * T::spec_size_of() <= usize::MAX,
            self.spec_end_address() <= usize::MAX + 1,
    {
        let (s, e) = self@;
        let size = T::spec_size_of() as int;
        let l = last_index(s, e);
        T::lemma_type();
        <T::Tag as Tag>::lemma_span((s * size) as usize, (l * size) as usize);
        assert(s * size <= l * size) by (nonlinear_arith)
            requires s <= l, size > 0;
        assert((e - s) * size <= l * size - s * size + size) by (nonlinear_arith)
            requires s <= e, l == if s < e { e - 1 } else { e }, size > 0;
        assert(e * size <= l * size + size) by (nonlinear_arith)
            requires s <= e, l == if s < e { e - 1 } else { e }, size > 0;
        if size != 1 {
            lemma_page_size_divides(size);
        }
    }

    /// The index of the first element.
    pub fn start(&self) -> (r: usize)
        ensures
            r == self@.0,
    {
        self.start
    }

    /// The index past the last element.
    pub fn end(&self) -> (r: usize)
        ensures
            r == self@.1,
    {
        self.end
    }

    /// The address of the first element.
    pub fn start_address(&self) -> (r: Addr<T::Tag>)
        requires
            self.wf(),
        ensures
            r@ == self.spec_start_address(),
            r.is_valid(),
    {
        T::address_by_index_unchecked(self.start)
    }

    /// The address past the last element.
    /// Returns `Error::Overflow` where it does not fit into `usize`
    /// and `Error::InvalidArgument` where it is not a valid address.
    pub fn end_address(&self) -> (r: Result<Addr<T::Tag>>)
        requires
            T::type_ok(),
        ensures
            index_address_result(r, self@.1, T::spec_size_of() as int),
            r is Ok <==> valid_index::<T>(self@.1),
    {
        T::address_by_index(self.end)
    }

    /// The address past the last element as a `u128`, which always holds it.
    pub fn end_address_u128(&self) -> (r: u128)
        ensures
            r == self.spec_end_address(),
    {
        let end = self.end as u128;
        let size = T::size_of() as u128;
        proof {
            assert(end * size <= u128::MAX) by (nonlinear_arith)
                requires end <= usize::MAX, size <= usize::MAX, usize::MAX <= u64::MAX;
        }
        end * size
    }

    /// Every element from the first to the last of a valid block has a valid address
    /// in the half of the first one.
    pub proof fn lemma_inner_index(self, i: int)
        requires
            self.wf(),
            self@.0 <= i <= last_index(self@.0, self@.1),
            (i * T::spec_size_of()) % (<T::Tag as Tag>::spec_align() as int) == 0,
        ensures
            valid_index::<T>(i),
            <T::Tag as Tag>::spec_is_same_half(index_address::<T>(self@.0), index_address::<T>(i)),
    {
        let (s, e) = self@;
        let size = T::spec_size_of() as int;
        let l = last_index(s, e);
        T::lemma_type();
        <T::Tag as Tag>::lemma_align();
        assert(s * size <= i * size <= l * size) by (nonlinear_arith)
            requires s <= i <= l, size > 0;
        if size != 1 {
            lemma_page_size_divides(size);
            vstd::arithmetic::div_mod::lemma_mod_multiples_basic(i, size);
        } else {
            assert(i * size == i);
        }
        <T::Tag as Tag>::lemma_between((s * size) as usize, (i * size) as usize, (l * size) as usize);
    }

    /// The address at the offset `offset` from the start of the block.
    /// Returns `Error::Overflow` where the offset is not less than the size of the block.
    pub fn address(&self, offset: usize) -> (r: Result<Addr<T::Tag>>)
        requires
            usize::BITS == 64,
            self.wf(),
            offset < self.spec_count() * T::spec_size_of()
                ==> (self.spec_start_address() + offset) % (<T::Tag as Tag>::spec_align() as int) == 0,
        ensures
            offset < self.spec_count() * T::spec_size_of() ==> (r matches Ok(a)
                && a@ == self.spec_start_address() + offset && a.is_valid()
                && <T::Tag as Tag>::spec_is_same_half(self.spec_start_address() as usize, a@)),
            offset >= self.spec_count() * T::spec_size_of() ==> r == Err::<Addr<T::Tag>, Error>(Error::Overflow),
    {
        if offset < self.size() {
            let start = self.start_address().into_usize();
            proof {
                self.lemma_offset_address(offset as int);
            }
            let address = start + offset;
            Ok(Addr::new(address).expect("an address inside a valid block is valid"))
        } else {
            Err(Error::Overflow)
        }
    }

    /// An address inside a valid block is valid and lies in the half of the block.
    pub proof fn lemma_offset_address(self, offset: int)
        requires
            usize::BITS == 64,
            self.wf(),
            0 <= offset < self.spec_count() * T::spec_size_of(),
            (self.spec_start_address() + offset) % (<T::Tag as Tag>::spec_align() as int) == 0,
        ensures
            self.spec_start_address() + offset <= usize::MAX,
            <T::Tag as Tag>::spec_is_valid((self.spec_start_address() + offset) as usize),
            <T::Tag as Tag>::spec_is_same_half(
                self.spec_start_address() as usize,
                (self.spec_start_address() + offset) as usize,
            ),
    {
        let (s, e) = self@;
        let size = T::spec_size_of() as int;
        let x = s * size + offset;
        T::lemma_type();
        <T::Tag as Tag>::lemma_align();
        self.lemma_size_fits();
        let k = x / size;
        assert(s <= k < e) by (nonlinear_arith)
            requires x == s * size + offset, 0 <= offset < (e - s) * size, size > 0, k == x / size;
        vstd::arithmetic::div_mod::lemma_fundamental_div_mod(x, size);
        vstd::arithmetic::mul::lemma_mul_is_commutative(size, k);
        if size != 1 {
            lemma_page_size_divides(size);
            vstd::arithmetic::div_mod::lemma_mod_multiples_basic(k, size);
        } else {
            assert(k * size == x);
        }
        self.lemma_inner_index(k);
        if size == 1 {
            assert(x == k);
        } else {
            let m = x % size;
            assert(0 <= m < size);
            assert((k * size) % size == 0) by {
                vstd::arithmetic::div_mod::lemma_mod_multiples_basic(k, size);
            }
            <T::Tag as Tag>::lemma_aligned_offset((k * size) as usize, size, m);
            <T::Tag as Tag>::lemma_same_half_equivalence(
                (s * size) as usize, (k * size) as usize, x as usize);
        }
    }

    /// The address at the offset `offset` from the start of the block, with no check:
    /// the sum wraps around.
    pub fn address_unchecked(&self, offset: usize) -> (r: Addr<T::Tag>)
        requires
            self.wf(),
        ensures
            r@ == if self.spec_start_address() + offset > usize::MAX {
                self.spec_start_address() + offset - (usize::MAX + 1)
            } else {
                self.spec_start_address() + offset
            },
    {
        let start = self.start_address().into_usize();
        Addr::from_bits(start.wrapping_add(offset))
    }

    /// The offset of the address `address` from the start of the block.
    /// Returns `Error::Overflow` where the block does not contain `address`.
    pub fn offset(&self, address: Addr<T::Tag>) -> (r: Result<usize>)
        requires
            self.wf(),
        ensures
            self.spec_contains_address(address@ as int) ==> r == Ok::<usize, Error>((address@ - self.spec_start_address()) as usize),
            !self.spec_contains_address(address@ as int) ==> r == Err::<usize, Error>(Error::Overflow),
    {
        if self.contains_address(address) {
            Ok(address.into_usize() - self.start_address().into_usize())
        } else {
            Err(Error::Overflow)
        }
    }

    /// The offset of the address `address` from the start of the block, with no check
    /// that the block contains it.
    pub fn offset_unchecked(&self, address: Addr<T::Tag>) -> (r: usize)
        requires
            self.wf(),
            address@ >= self.spec_start_address(),
        ensures
            r == address@ - self.spec_start_address(),
    {
        address.into_usize() - self.start_address().into_usize()
    }

    /// The first element of the block.
    pub fn start_element(&self) -> (r: T)
        requires
            self.wf(),
        ensures
            T::spec_index(r) == self@.0,
            T::spec_is_valid(r),
    {
        T::from_index(self.start).expect("the first element of a valid block is valid")
    }

    /// The element past the last one of the block.
    /// Returns `Error::Overflow` where its address does not fit into `usize`
    /// and `Error::InvalidArgument` where its address is not valid.
    pub fn end_element(&self) -> (r: Result<T>)
        requires
            T::type_ok(),
        ensures
            match r {
                Ok(e) => T::spec_index(e) == self@.1 && T::spec_is_valid(e),
                Err(err) => index_address_result(
                    Err::<Addr<T::Tag>, Error>(err), self@.1, T::spec_size_of() as int),
            },
    {
        T::from_index(self.end)
    }

    /// The address at offset `offset` inside the block lies in the block, and its offset is
    /// `offset` again: `offset` gives back what `address` gave; an address outside the block
    /// has no offset (`Error::Overflow`).
    pub proof fn lemma_offset_round_trip(self, offset: int)
        requires
            0 <= offset < self.spec_count() * T::spec_size_of(),
            T::spec_size_of() > 0,
        ensures
            self.spec_contains_address(self.spec_start_address() + offset),
            (self.spec_start_address() + offset) - self.spec_start_address() == offset,
    {
        let z = T::spec_size_of() as int;
        assert(self.spec_count() * z == self@.1 * z - self@.0 * z) by (nonlinear_arith)
            requires self.spec_count() == self@.1 - self@.0;
    }

    /// Whether the block contains the address `address`: it is not below the start address
    /// and below the end address.
    pub open spec fn spec_contains_address(self, address: int) -> bool {
        self.spec_start_address() <= address < self.spec_end_address()
    }

    /// Whether the block contains the element `element`.
    pub fn contains(&self, element: T) -> (r: bool)
        requires
            self.wf(),
        ensures
            r == self.spec_contains_address(T::spec_address(element)),
    {
        self.contains_address(T::address(element))
    }

    /// Whether the block contains the address `addr`: it is not below the start address and
    /// below the end address.
    pub fn contains_address(&self, addr: Addr<T::Tag>) -> (r: bool)
        requires
            self.wf(),
        ensures
            r == self.spec_contains_address(addr@ as int),
    {
        addr.into_usize() >= self.start_address().into_usize()
            && (addr.into_usize() as u128) < self.end_address_u128()
    }

    /// Whether the block contains the block `block`.
    pub fn contains_block(&self, block: Self) -> (r: bool)
        ensures
            r == (self@.0 <= block@.0 && block@.1 <= self@.1),
    {
        self.start <= block.start && block.end <= self.end
    }

    /// Whether the block contains the element with index `index`.
    pub fn contains_index(&self, index: usize) -> (r: bool)
        ensures
            r == (self@.0 <= index < self@.1),
    {
        self.start <= index && index < self.end
    }

    /// Whether the block `block` starts right where this block ends.
    pub fn is_adjacent(&self, block: Self) -> (r: bool)
        requires
            block.wf(),
        ensures
            r == (valid_index::<T>(self@.1) && self@.1 == block@.0),
    {
        match self.end_address() {
            Ok(end_address) => {
                proof {
                    T::lemma_type();
                    assert(self@.1 * T::spec_size_of() == block@.0 * T::spec_size_of()
                        <==> self@.1 == block@.0) by (nonlinear_arith)
                        requires T::spec_size_of() > 0;
                }
                end_address.into_usize() == block.start_address().into_usize()
            },
            Err(_) => false,
        }
    }

    /// Whether the blocks have no common element.
    pub fn is_disjoint(&self, block: Self) -> (r: bool)
        requires
            self.wf(),
            block.wf(),
        ensures
            r == (self@.0 == self@.1 || block@.0 == block@.1
                || (!self.spec_contains_address(block.spec_start_address())
                    && !block.spec_contains_address(self.spec_start_address()))),
    {
        self.is_empty() || block.is_empty() || (!self.contains_address(block.start_address())
            && !block.contains_address(self.start_address()))
    }

    /// Whether the block is empty.
    pub fn is_empty(&self) -> (r: bool)
        ensures
            r == (self@.0 == self@.1),
    {
        self.start == self.end
    }

    /// The block that joins this block and the block `block` right after it.
    /// Returns `Error::InvalidArgument` where `block` does not start right where this one ends.
    pub fn coalesce(&self, block: Self) -> (r: Result<Self>)
        requires
            self.wf(),
            block.wf(),
        ensures
            valid_index::<T>(self@.1) && self@.1 == block@.0 ==> (r matches Ok(b) && b@ == (self@.0, block@.1) && b.wf()),
            !(valid_index::<T>(self@.1) && self@.1 == block@.0) ==> r == Err::<Self, Error>(Error::InvalidArgument),
    {
        if self.is_adjacent(block) {
            proof {
                self.lemma_coalesce(block);
            }
            Ok(Block::from_index(self.start(), block.end()).expect("a coalesce of valid blocks is valid"))
        } else {
            Err(Error::InvalidArgument)
        }
    }

    /// Two valid blocks, the second starting at the valid end of the first, join into a valid block.
    pub proof fn lemma_coalesce(self, block: Self)
        requires
            self.wf(),
            block.wf(),
            valid_index::<T>(self@.1),
            self@.1 == block@.0,
        ensures
            valid_block::<T>(self@.0, block@.1),
    {
        let (s, e) = self@;
        let be = block@.1;
        let size = T::spec_size_of() as int;
        T::lemma_type();
        let l = last_index(s, e);
        let bl = last_index(e, be);
        assert(e * size - l * size <= size) by (nonlinear_arith)
            requires l == if s < e { e - 1 } else { e }, size > 0, s <= e;
        assert(l * size <= e * size) by (nonlinear_arith)
            requires l <= e, size > 0;
        if size != 1 {
            lemma_page_size_divides(size);
        }
        <T::Tag as Tag>::lemma_near((l * size) as usize, (e * size) as usize);
        let a = (s * size) as usize;
        let b = (l * size) as usize;
        let c = (e * size) as usize;
        let d = (bl * size) as usize;
        <T::Tag as Tag>::lemma_same_half_equivalence(a, b, c);
        <T::Tag as Tag>::lemma_same_half_equivalence(a, c, d);
    }

    /// The common part of the two blocks, or the empty block at zero where they have none.
    pub fn intersection(&self, block: Self) -> (r: Self)
        requires
            self.wf(),
            block.wf(),
        ensures
            r.wf(),
            max(self@.0, block@.0) <= min(self@.1, block@.1)
                ==> r@ == (max(self@.0, block@.0), min(self@.1, block@.1)),
            max(self@.0, block@.0) > min(self@.1, block@.1) ==> r@ == (0int, 0int),
    {
        let start = if self.start() < block.start() { block.start() } else { self.start() };
        let end = if self.end() < block.end() { self.end() } else { block.end() };
        if start <= end {
            proof {
                T::lemma_type();
                let l = last_index(start as int, end as int);
                <T::Tag as Tag>::lemma_valid_aligned(index_address::<T>(start as int));
                <T::Tag as Tag>::lemma_same_half_equivalence(
                    index_address::<T>(start as int), index_address::<T>(start as int),
                    index_address::<T>(start as int));
                if start < end {
                    <T::Tag as Tag>::lemma_valid_aligned(index_address::<T>(l));
                    self.lemma_inner_index(start as int);
                    self.lemma_inner_index(l);
                    <T::Tag as Tag>::lemma_same_half_equivalence(
                        index_address::<T>(self@.0), index_address::<T>(start as int), index_address::<T>(l));
                    <T::Tag as Tag>::lemma_same_half_equivalence(
                        index_address::<T>(start as int), index_address::<T>(self@.0), index_address::<T>(l));
                }
            }
            Block::from_index(start, end).expect("an intersection of valid blocks is valid")
        } else {
            proof {
                T::lemma_type();
                if T::spec_size_of() != 1 {
                    lemma_page_size_divides(T::spec_size_of() as int);
                }
                <T::Tag as Tag>::lemma_same_half_equivalence(0, 0, 0);
                <T::Tag as Tag>::lemma_zero_valid();
            }
            Block::zero()
        }
    }

    /// The sub-block of the elements with the indexes `range` inside this block.
    /// Returns `None` where the range is out of order or beyond the block,
    /// or where the sub-block is not valid.
    pub fn slice(&self, range: Range<usize>) -> (r: Option<Self>)
        requires
            self.wf(),
        ensures
            (range.start <= range.end && range.end <= self.spec_count()
                && valid_block::<T>(self@.0 + range.start, self@.0 + range.end))
                ==> (r matches Some(b) && b@ == (self@.0 + range.start, self@.0 + range.end) && b.wf()),
            !(range.start <= range.end && range.end <= self.spec_count()
                && valid_block::<T>(self@.0 + range.start, self@.0 + range.end)) ==> r is None,
    {
        if range.start <= range.end && range.end <= self.count() {
            Self::from_index(self.start + range.start, self.start + range.end).ok()
        } else {
            None
        }
    }

    /// Cuts the last `count` elements off the block and returns them as a block.
    /// Returns `None`, leaving the block as it was, where the block has fewer elements
    /// or where the tail block is not valid.
    pub fn tail(&mut self, count: usize) -> (r: Option<Self>)
        requires
            old(self).wf(),
        ensures
            (count <= old(self).spec_count() && valid_block::<T>(old(self)@.1 - count, old(self)@.1))
                ==> (r matches Some(b) && b@ == (old(self)@.1 - count, old(self)@.1) && b.wf()
                    && final(self)@ == (old(self)@.0, old(self)@.1 - count)),
            !(count <= old(self).spec_count() && valid_block::<T>(old(self)@.1 - count, old(self)@.1))
                ==> (r is None && *final(self) == *old(self)),
            <T::Tag as Tag>::spec_align() == 1 ==> final(self).wf(),
    {
        if count <= self.count() {
            let new_start = self.end - count;
            match Block::from_index(new_start, self.end) {
                Ok(new_block) => {
                    proof {
                        let l = last_index(self@.0, new_start as int);
                        if self@.0 < new_start && <T::Tag as Tag>::spec_align() == 1 {
                            self.lemma_inner_index(l);
                        }
                        T::lemma_type();
                        <T::Tag as Tag>::lemma_same_half_equivalence(
                            index_address::<T>(self@.0), index_address::<T>(l), index_address::<T>(l));
                    }
                    self.end = new_start;
                    Some(new_block)
                },
                Err(_) => None,
            }
        } else {
            None
        }
    }
}

/// The greater of two integers.
pub open spec fn max(a: int, b: int) -> int {
    if a < b { b } else { a }
}

/// The lesser of two integers.
pub open spec fn min(a: int, b: int) -> int {
    if a < b { a } else { b }
}

impl<T> PartialEq for Block<T> {
    fn eq(&self, other: &Self) -> (r: bool) {
        self.start == other.start && self.end == other.end
    }
}

impl<T> PartialEqSpecImpl for Block<T> {
    open spec fn obeys_eq_spec() -> bool {
        true
    }

    open spec fn eq_spec(&self, other: &Self) -> bool {
        self@ == other@
    }
}

impl<T> Eq for Block<T> {
}

impl<T> PartialOrd for Block<T> {
    /// Blocks are ordered where one lies entirely before the other;
    /// equal blocks are equal; overlapping different blocks are not comparable.
    fn partial_cmp(&self, other: &Self) -> (r: Option<Ordering>) {
        if self.end <= other.start {
            Some(Ordering::Less)
        } else if other.end <= self.start {
            Some(Ordering::Greater)
        } else if self.eq(other) {
            Some(Ordering::Equal)
        } else {
            None
        }
    }
}

impl<T> PartialOrdSpecImpl for Block<T> {
    open spec fn obeys_partial_cmp_spec() -> bool {
        true
    }

    open spec fn partial_cmp_spec(&self, other: &Self) -> Option<Ordering> {
        if self@.1 <= other@.0 {
            Some(Ordering::Less)
        } else if other@.1 <= self@.0 {
            Some(Ordering::Greater)
        } else if self@ == other@ {
            Some(Ordering::Equal)
        } else {
            None
        }
    }
}

impl<T> Default for Block<T> {
    /// The empty block at index zero.
    fn default() -> (r: Self)
        ensures
            r@ == (0int, 0int),
    {
        Self { start: 0, end: 0, tag: PhantomData }
    }
}

impl<T: Tag> Block<Addr<T>> {
    /// The block of 4 KiB pages or frames that encloses the addresses of this block.
    pub fn enclosing(&self) -> (r: Block<Frage<T, L0_SIZE>>)
        requires
            usize::BITS == 64,
            T::spec_bits() >= 48,
            self.wf(),
            self@.0 < self@.1 ==> valid_index::<Addr<T>>(self@.1),
        ensures
            r.wf(),
            r@ == (
                self@.0 / 4096,
                if self@.0 == self@.1 { self@.0 / 4096 } else { (self@.1 - 1) / 4096 + 1 },
            ),
    {
        let start_frage = Frage::<T, L0_SIZE>::index_by_address(self.start_address());
        let end_frage = if self.start == self.end {
            start_frage
        } else {
            let end_address = self.end_address().expect("the end of a non-empty block is valid");
            proof {
                assert(self@.1 * 1 == self@.1) by (nonlinear_arith);
                assert((self@.1 - 1) * 1 == self@.1 - 1) by (nonlinear_arith);
                T::lemma_near((self@.1 - 1) as usize, self@.1 as usize);
                T::lemma_same_half_equivalence((self@.1 - 1) as usize, self@.1 as usize, self@.1 as usize);
            }
            let last_address = (end_address - 1).expect("the last address of a non-empty block is valid");
            Frage::<T, L0_SIZE>::index_by_address(last_address) + 1
        };
        proof {
            let s = self@.0;
            let e = self@.1;
            let l = last_index(s, e);
            assert(s * 1 == s) by (nonlinear_arith);
            assert(l * 1 == l) by (nonlinear_arith);
            T::lemma_round_down(s as usize, 4096);
            T::lemma_round_down(l as usize, 4096);
            let sp = s / 4096;
            let lp = l / 4096;
            assert(sp * 4096 == s - s % 4096);
            assert(lp * 4096 == l - l % 4096);
            assert(sp <= lp);
            assert(last_index(start_frage as int, end_frage as int) == lp);
            T::lemma_same_half_equivalence(s as usize, l as usize, (l - l % 4096) as usize);
            T::lemma_same_half_equivalence(s as usize, (s - s % 4096) as usize, (l - l % 4096) as usize);
            T::lemma_same_half_equivalence((s - s % 4096) as usize, s as usize, (l - l % 4096) as usize);
        }
        Block::from_index(start_frage, end_frage).expect("the pages enclosing a valid block are valid")
    }
}

impl<T: Tag, const SIZE: usize> Block<Frage<T, SIZE>> {
    /// The block of the addresses of the pages or frames of this block.
    pub fn into_addresses(self) -> (r: Block<Addr<T>>)
        requires
            usize::BITS == 64,
            self.wf(),
            valid_index::<Frage<T, SIZE>>(self@.1),
        ensures
            r.wf(),
            r@ == (self@.0 * SIZE, self@.1 * SIZE),
    {
        let start = self.start_address();
        let end = self.end_address().expect("the end of the block is valid");
        proof {
            let s = self@.0;
            let e = self@.1;
            let size = SIZE as int;
            lemma_page_size_divides(size);
            assert(s * size <= e * size) by (nonlinear_arith) requires s <= e, size > 0;
            if s < e {
                let l = e - 1;
                assert(e * size - 1 == l * size + (size - 1)) by (nonlinear_arith) requires l == e - 1;
                assert(s * size <= l * size) by (nonlinear_arith) requires s <= l, size > 0;
                T::lemma_align();
                self.lemma_inner_index(l);
                vstd::arithmetic::div_mod::lemma_mod_multiples_basic(l, size);
                T::lemma_aligned_offset((l * size) as usize, size, size - 1);
                T::lemma_same_half_equivalence((s * size) as usize, (l * size) as usize, (e * size - 1) as usize);
                assert((e * size - 1) * 1 == e * size - 1) by (nonlinear_arith);
                assert(s * size * 1 == s * size) by (nonlinear_arith);
            } else {
                assert(s * size * 1 == s * size) by (nonlinear_arith);
                T::lemma_same_half_equivalence((s * size) as usize, (s * size) as usize, (s * size) as usize);
            }
        }
        Block::new(start, end).expect("the addresses of a valid block are a valid block")
    }
}

} // verus!
