use core::marker::PhantomData;
use core::ops::{Add, Sub};

use vstd::prelude::*;

use crate::error::{Error, Result};
use crate::memory::grouped_hex::{grouped_hex_text, lemma_grouped_hex_text_ascii, GroupedHex};
use crate::text::{ascii_chars, ascii_string};

verus! {

/// The first address past the physical address space: physical addresses have 52 bits.
pub const PHYS_END: u64 = 0x0010_0000_0000_0000;

/// The first address past the lower half of the virtual address space.
pub const LOWER_HALF_END: u64 = 0x0000_8000_0000_0000;

/// The first address of the higher half of the virtual address space.
pub const HIGHER_HALF_START: u64 = 0xFFFF_8000_0000_0000;

/// The mask that sign-extends a 48-bit virtual address to 64 bits.
pub const NEGATIVE_SIGN_EXTEND: u64 = 0xFFFF_0000_0000_0000;

/// The first number past the I/O port space: port numbers have 16 bits.
pub const PORT_END: u64 = 0x1_0000;

/// Whether `addr` is a canonical virtual address: it lies in the lower or in the higher half.
pub open spec fn is_canonical(addr: int) -> bool {
    addr < LOWER_HALF_END || HIGHER_HALF_START <= addr
}

/// Which half of the 64-bit space `addr` lies in, by its bits from the 47th up.
pub open spec fn virt_half(addr: int) -> int {
    addr / (LOWER_HALF_END as int)
}

/// The address that `Virt::canonize` makes of `addr`.
pub open spec fn canonized(addr: int) -> int {
    if addr < LOWER_HALF_END {
        addr
    } else {
        addr % 0x1_0000_0000_0000 + NEGATIVE_SIGN_EXTEND
    }
}

/// A memory address of x86-64, either virtual or physical, told apart by the tag `T`.
#[derive(Debug, Default, PartialEq, Eq, PartialOrd, Ord, Hash)]
pub struct Addr<T>(pub(crate) usize, pub(crate) PhantomData<T>);

impl<T> Clone for Addr<T> {
    fn clone(&self) -> (r: Self)
        ensures
            r == *self,
    {
        *self
    }
}

impl<T> Copy for Addr<T> {
}

impl<T> Addr<T> {
    /// Makes an address of its bit representation, with no check.
    pub(crate) fn from_bits(addr: usize) -> (r: Self)
        ensures
            r@ == addr,
    {
        Addr(addr, PhantomData)
    }
}

impl<T> View for Addr<T> {
    type V = usize;

    closed spec fn view(&self) -> usize {
        self.0
    }
}

/// `r` is what making an address of the bits `addr` gives, where `valid` tells whether
/// `addr` is a valid address of its kind: the address itself, or `Error::InvalidArgument`.
pub open spec fn new_result<T>(r: Result<Addr<T>>, addr: int, valid: bool) -> bool {
    match r {
        Ok(a) => valid && a@ == addr,
        Err(e) => !valid && e == Error::InvalidArgument,
    }
}

/// Tells virtual addresses from physical ones, and pages from frames.
pub trait Tag: Sized + Copy {
    /// Whether `addr` is the bit representation of a valid address of this kind.
    spec fn spec_is_valid(addr: usize) -> bool;

    /// Whether two valid addresses of this kind lie in the same half of the address space.
    spec fn spec_is_same_half(x: usize, y: usize) -> bool;

    /// Number of used bits in an address of this kind.
    spec fn spec_bits() -> nat;

    /// Makes an address of its bit representation `addr`.
    /// Returns `Error::InvalidArgument` where `addr` is not a valid address of this kind.
    fn new(addr: usize) -> (r: Result<Addr<Self>>)
        ensures
            new_result(r, addr as int, Self::spec_is_valid(addr)),
    ;

    /// Returns `true` where `x` and `y` lie in the same half of the address space:
    /// for virtual addresses the same half; for physical addresses and ports always.
    fn is_same_half(x: Addr<Self>, y: Addr<Self>) -> (r: bool)
        ensures
            r == Self::spec_is_same_half(x@, y@),
    ;

    /// Number of used bits in an address of this kind.
    fn bits() -> (r: u32)
        ensures
            r == Self::spec_bits(),
    ;

    /// The letter that follows `0` in the prefix of the hexadecimal text of an address
    /// of this kind, as an ASCII code: `p` for physical, `v` for virtual, `x` for ports.
    spec fn spec_hex_letter() -> u8;

    /// The letter that follows `0` in the prefix of the hexadecimal text of an address
    /// of this kind, as an ASCII code.
    fn hex_letter() -> (r: u8)
        ensures
            r == Self::spec_hex_letter(),
            r < 128,
    ;

    /// The alignment that every valid address of this kind has:
    /// 1 for memory addresses, the width of the port data for I/O ports.
    spec fn spec_align() -> nat;

    /// The alignment divides the size of a page.
    proof fn lemma_align()
        ensures
            Self::spec_align() > 0,
            4096int % (Self::spec_align() as int) == 0,
            Self::spec_bits() >= 48 ==> Self::spec_align() == 1,
    ;

    /// The zero address is valid.
    proof fn lemma_zero_valid()
        ensures
            Self::spec_is_valid(0),
    ;

    /// Valid addresses are aligned.
    proof fn lemma_valid_aligned(x: usize)
        requires
            Self::spec_is_valid(x),
        ensures
            (x as int) % (Self::spec_align() as int) == 0,
    ;

    /// Being in the same half is an equivalence on valid addresses.
    proof fn lemma_same_half_equivalence(a: usize, b: usize, c: usize)
        ensures
            Self::spec_is_same_half(a, a),
            Self::spec_is_same_half(a, b) ==> Self::spec_is_same_half(b, a),
            Self::spec_is_same_half(a, b) && Self::spec_is_same_half(b, c) ==> Self::spec_is_same_half(a, c),
    ;

    /// An aligned address between two valid addresses of the same half is valid and in that half.
    proof fn lemma_between(a: usize, x: usize, b: usize)
        requires
            Self::spec_is_valid(a),
            Self::spec_is_valid(b),
            Self::spec_is_same_half(a, b),
            a <= x <= b,
            (x as int) % (Self::spec_align() as int) == 0,
        ensures
            Self::spec_is_valid(x),
            Self::spec_is_same_half(a, x),
            Self::spec_is_same_half(x, b),
    ;

    /// Two valid addresses at most 1 GiB apart lie in the same half.
    proof fn lemma_near(a: usize, b: usize)
        requires
            Self::spec_is_valid(a),
            Self::spec_is_valid(b),
            a <= b,
            b - a <= 0x4000_0000,
        ensures
            Self::spec_is_same_half(a, b),
    ;

    /// Two valid addresses of the same half are less than 2^52 bytes apart.
    proof fn lemma_span(a: usize, b: usize)
        requires
            Self::spec_is_valid(a),
            Self::spec_is_valid(b),
            Self::spec_is_same_half(a, b),
            a <= b,
        ensures
            b - a < PHYS_END,
    ;

    /// Within a valid address aligned to a page size, the aligned offsets below that size
    /// give valid addresses of the same half: for memory addresses at any page size, for
    /// ports within 4 KiB.
    proof fn lemma_aligned_offset(a: usize, size: int, offset: int)
        requires
            usize::BITS == 64,
            Self::spec_bits() >= 48 || size == 0x1000,
            Self::spec_is_valid(a),
            is_page_size(size),
            (a as int) % size == 0,
            0 <= offset < size,
            offset % (Self::spec_align() as int) == 0,
        ensures
            a + offset <= usize::MAX,
            Self::spec_is_valid((a + offset) as usize),
            Self::spec_is_same_half(a, (a + offset) as usize),
    ;

    /// Rounding a valid address down to a page size keeps it valid and in its half.
    proof fn lemma_round_down(a: usize, size: int)
        requires
            usize::BITS == 64,
            Self::spec_is_valid(a),
            is_page_size(size),
        ensures
            Self::spec_is_valid((a - (a as int) % size) as usize),
            Self::spec_is_same_half(a, (a - (a as int) % size) as usize),
    ;
}

/// The sizes of pages and frames: 4 KiB, 2 MiB and 1 GiB.
pub open spec fn is_page_size(size: int) -> bool {
    size == 0x1000 || size == 0x20_0000 || size == 0x4000_0000
}

/// Tag of physical addresses and frames.
#[derive(Clone, Copy, Debug, Default, PartialEq, Eq, PartialOrd, Ord, Hash)]
pub struct PhysTag;

/// Tag of virtual addresses and pages.
#[derive(Clone, Copy, Debug, Default, PartialEq, Eq, PartialOrd, Ord, Hash)]
pub struct VirtTag;

/// A physical address of x86-64.
pub type Phys = Addr<PhysTag>;

/// A virtual address of x86-64.
pub type Virt = Addr<VirtTag>;

impl Tag for PhysTag {
    open spec fn spec_is_valid(addr: usize) -> bool {
        addr < PHYS_END
    }

    open spec fn spec_is_same_half(x: usize, y: usize) -> bool {
        true
    }

    open spec fn spec_bits() -> nat {
        52
    }

    fn new(addr: usize) -> (r: Result<Addr<Self>>) {
        if (addr as u64) < PHYS_END {
            Ok(Addr(addr, PhantomData))
        } else {
            Err(Error::InvalidArgument)
        }
    }

    fn is_same_half(x: Addr<Self>, y: Addr<Self>) -> (r: bool) {
        true
    }

    fn bits() -> (r: u32) {
        52
    }

    open spec fn spec_hex_letter() -> u8 {
        112
    }

    fn hex_letter() -> (r: u8) {
        112
    }

    open spec fn spec_align() -> nat {
        1
    }

    proof fn lemma_align() {
    }

    proof fn lemma_valid_aligned(x: usize) {
    }

    proof fn lemma_zero_valid() {
    }

    proof fn lemma_same_half_equivalence(a: usize, b: usize, c: usize) {
    }

    proof fn lemma_between(a: usize, x: usize, b: usize) {
    }

    proof fn lemma_near(a: usize, b: usize) {
    }

    proof fn lemma_span(a: usize, b: usize) {
    }

    proof fn lemma_aligned_offset(a: usize, size: int, offset: int) {
        lemma_page_size_divides(size);
        assert(a + offset < PHYS_END) by (nonlinear_arith)
            requires
                a < PHYS_END,
                (PHYS_END as int) % size == 0,
                size > 0,
                (a as int) % size == 0,
                0 <= offset < size,
        {
        }
    }

    proof fn lemma_round_down(a: usize, size: int) {
    }
}

impl Tag for VirtTag {
    open spec fn spec_is_valid(addr: usize) -> bool {
        is_canonical(addr as int)
    }

    open spec fn spec_is_same_half(x: usize, y: usize) -> bool {
        virt_half(x as int) == virt_half(y as int)
    }

    open spec fn spec_bits() -> nat {
        48
    }

    fn new(addr: usize) -> (r: Result<Addr<Self>>) {
        if (addr as u64) < LOWER_HALF_END || (addr as u64) >= HIGHER_HALF_START {
            Ok(Addr(addr, PhantomData))
        } else {
            Err(Error::InvalidArgument)
        }
    }

    fn is_same_half(x: Addr<Self>, y: Addr<Self>) -> (r: bool) {
        (x.0 as u64) / LOWER_HALF_END == (y.0 as u64) / LOWER_HALF_END
    }

    fn bits() -> (r: u32) {
        48
    }

    open spec fn spec_hex_letter() -> u8 {
        118
    }

    fn hex_letter() -> (r: u8) {
        118
    }

    open spec fn spec_align() -> nat {
        1
    }

    proof fn lemma_align() {
    }

    proof fn lemma_valid_aligned(x: usize) {
    }

    proof fn lemma_zero_valid() {
    }

    proof fn lemma_same_half_equivalence(a: usize, b: usize, c: usize) {
    }

    proof fn lemma_between(a: usize, x: usize, b: usize) {
        lemma_virt_half(a);
        lemma_virt_half(x);
        lemma_virt_half(b);
    }

    proof fn lemma_near(a: usize, b: usize) {
        lemma_virt_half(a);
        lemma_virt_half(b);
    }

    proof fn lemma_span(a: usize, b: usize) {
        lemma_virt_half(a);
        lemma_virt_half(b);
    }

    proof fn lemma_aligned_offset(a: usize, size: int, offset: int) {
        lemma_virt_half(a);
        lemma_page_size_divides(size);
        let x = a + offset;
        if a < LOWER_HALF_END {
            assert(x < LOWER_HALF_END) by (nonlinear_arith)
                requires
                    a < LOWER_HALF_END,
                    (LOWER_HALF_END as int) % size == 0,
                    size > 0,
                    (a as int) % size == 0,
                    0 <= offset < size,
                    x == a + offset,
            {
            }
        } else {
            assert(x < 0x1_0000_0000_0000_0000int) by (nonlinear_arith)
                requires
                    a < 0x1_0000_0000_0000_0000int,
                    0x1_0000_0000_0000_0000int % size == 0,
                    size > 0,
                    (a as int) % size == 0,
                    0 <= offset < size,
                    x == a + offset,
            {
            }
        }
        lemma_virt_half(x as usize);
    }

    proof fn lemma_round_down(a: usize, size: int) {
        lemma_virt_half(a);
        let x = a - (a as int) % size;
        lemma_page_size_divides(size);
        if a >= HIGHER_HALF_START {
            assert(x >= HIGHER_HALF_START) by (nonlinear_arith)
                requires
                    a >= HIGHER_HALF_START,
                    (HIGHER_HALF_START as int) % size == 0,
                    size > 0,
                    x == a - (a as int) % size,
            {
                vstd::arithmetic::div_mod::lemma_fundamental_div_mod(a as int, size);
                vstd::arithmetic::div_mod::lemma_fundamental_div_mod(HIGHER_HALF_START as int, size);
                vstd::arithmetic::div_mod::lemma_div_is_ordered(HIGHER_HALF_START as int, a as int, size);
                vstd::arithmetic::mul::lemma_mul_inequality(HIGHER_HALF_START as int / size, a as int / size, size);
            }
        }
        lemma_virt_half(x as usize);
    }
}

/// Each page size divides the boundaries of the address spaces.
pub proof fn lemma_page_size_divides(size: int)
    requires
        is_page_size(size),
    ensures
        size > 0,
        (LOWER_HALF_END as int) % size == 0,
        (HIGHER_HALF_START as int) % size == 0,
        (PHYS_END as int) % size == 0,
        (PORT_END as int) % size == 0 || size > PORT_END,
        0x1_0000_0000_0000_0000int % size == 0,
        0x1_0000_0000int % size == 0,
{
}

/// The half of a canonical address is 0 for the lower half and `0x1FFFF` for the higher one.
proof fn lemma_virt_half(a: usize)
    ensures
        a < LOWER_HALF_END <==> virt_half(a as int) == 0,
        a >= HIGHER_HALF_START ==> virt_half(a as int) == 0x1FFFF,
        a < HIGHER_HALF_START ==> virt_half(a as int) < 0x1FFFF,
{
}

impl<T: Tag> Addr<T> {
    /// Whether this address is valid for its kind.
    pub open spec fn is_valid(self) -> bool {
        T::spec_is_valid(self@)
    }

    /// Makes an address of its bit representation `addr`.
    /// Returns `Error::InvalidArgument` where `addr` is not valid for the target kind.
    pub fn new(addr: usize) -> (r: Result<Self>)
        ensures
            new_result(r, addr as int, T::spec_is_valid(addr)),
    {
        T::new(addr)
    }

    /// Makes an address of its bit representation `addr`, which must be valid for its kind.
    pub fn new_unchecked(addr: usize) -> (r: Self)
        requires
            T::spec_is_valid(addr),
        ensures
            r@ == addr,
            r.is_valid(),
    {
        Addr(addr, PhantomData)
    }

    /// Makes an address of its bit representation given as `u64`.
    pub fn new_u64(addr: u64) -> (r: Result<Self>)
        ensures
            new_result(r, addr as usize as int, T::spec_is_valid(addr as usize)),
    {
        Self::new(addr as usize)
    }

    /// The zero address.
    pub fn zero() -> (r: Self)
        ensures
            r@ == 0,
    {
        Addr(0, PhantomData)
    }

    /// The bit representation of the address.
    pub fn into_usize(self) -> (r: usize)
        ensures
            r == self@,
    {
        self.0
    }

    /// The bit representation of the address.
    pub fn into_u64(self) -> (r: u64)
        ensures
            r == self@,
    {
        self.0 as u64
    }

    /// The text of the address: `0`, the letter of its kind, then its bit representation
    /// in hexadecimal with digits grouped by four, such as `0v7FFF_FFFF_F000`.
    pub fn to_string(&self) -> (r: String)
        ensures
            r@ == ascii_chars(addr_text(T::spec_hex_letter(), self@)),
    {
        let mut text: Vec<u8> = Vec::new();
        text.push(48);
        text.push(T::hex_letter());
        let mut digits = GroupedHex::new(self.0 as u128).to_ascii();
        text.append(&mut digits);
        proof {
            lemma_grouped_hex_text_ascii(self@ as int);
            let whole = addr_text(T::spec_hex_letter(), self@);
            assert(text@ =~= whole);
            assert forall|i: int| 0 <= i < whole.len() implies #[trigger] whole[i] < 128 by {
                if i >= 2 {
                    assert(whole[i] == grouped_hex_text(self@ as int)[i - 2]);
                }
            }
        }
        ascii_string(text)
    }
}

/// The text of the address `addr` of the kind whose prefix letter is `letter`:
/// `0`, the letter, then the grouped hexadecimal digits of `addr`.
pub open spec fn addr_text(letter: u8, addr: usize) -> Seq<u8> {
    seq![48u8, letter] + grouped_hex_text(addr as int)
}

/// `r` is what moving the address `x` to the bit representation `target` gives:
/// `Error::Overflow` where `target` does not fit into `usize` or leaves the half of `x`,
/// `Error::InvalidArgument` where `target` is not a valid address, else the address `target`.
pub open spec fn moved_result<T: Tag>(r: Result<Addr<T>>, x: usize, target: int) -> bool {
    if target < 0 || target > usize::MAX {
        r == Err::<Addr<T>, Error>(Error::Overflow)
    } else if !T::spec_is_valid(target as usize) {
        r == Err::<Addr<T>, Error>(Error::InvalidArgument)
    } else if !T::spec_is_same_half(x, target as usize) {
        r == Err::<Addr<T>, Error>(Error::Overflow)
    } else {
        r matches Ok(a) && a@ == target
    }
}

impl<T: Tag> Add<usize> for Addr<T> {
    type Output = Result<Self>;

    /// Moves the address `rhs` bytes up, within its half of the address space.
    fn add(self, rhs: usize) -> (r: Result<Self>)
        ensures
            moved_result(r, self@, self@ + rhs),
    {
        match self.0.checked_add(rhs) {
            None => Err(Error::Overflow),
            Some(sum) => match Self::new(sum) {
                Err(e) => Err(e),
                Ok(addr) => {
                    if T::is_same_half(self, addr) {
                        Ok(addr)
                    } else {
                        Err(Error::Overflow)
                    }
                },
            },
        }
    }
}

impl<T: Tag> vstd::std_specs::ops::AddSpecImpl<usize> for Addr<T> {
    open spec fn obeys_add_spec() -> bool {
        false
    }

    open spec fn add_req(self, rhs: usize) -> bool {
        true
    }

    open spec fn add_spec(self, rhs: usize) -> Result<Self> {
        arbitrary()
    }
}

impl<T: Tag> Sub<usize> for Addr<T> {
    type Output = Result<Self>;

    /// Moves the address `rhs` bytes down, within its half of the address space.
    fn sub(self, rhs: usize) -> (r: Result<Self>)
        ensures
            moved_result(r, self@, self@ - rhs),
    {
        match self.0.checked_sub(rhs) {
            None => Err(Error::Overflow),
            Some(diff) => match Self::new(diff) {
                Err(e) => Err(e),
                Ok(addr) => {
                    if T::is_same_half(self, addr) {
                        Ok(addr)
                    } else {
                        Err(Error::Overflow)
                    }
                },
            },
        }
    }
}

impl<T: Tag> vstd::std_specs::ops::SubSpecImpl<usize> for Addr<T> {
    open spec fn obeys_sub_spec() -> bool {
        false
    }

    open spec fn sub_req(self, rhs: usize) -> bool {
        true
    }

    open spec fn sub_spec(self, rhs: usize) -> Result<Self> {
        arbitrary()
    }
}

impl<T: Tag> Sub<Addr<T>> for Addr<T> {
    type Output = Result<usize>;

    /// The distance in bytes from `rhs` up to this address, where both lie in the same half.
    fn sub(self, rhs: Self) -> (r: Result<usize>)
        ensures
            T::spec_is_same_half(self@, rhs@) && rhs@ <= self@ ==> r == Ok::<usize, Error>((self@ - rhs@) as usize),
            !(T::spec_is_same_half(self@, rhs@) && rhs@ <= self@) ==> r == Err::<usize, Error>(Error::Overflow),
    {
        if T::is_same_half(self, rhs) {
            match self.0.checked_sub(rhs.0) {
                Some(d) => Ok(d),
                None => Err(Error::Overflow),
            }
        } else {
            Err(Error::Overflow)
        }
    }
}

impl<T: Tag> vstd::std_specs::ops::SubSpecImpl<Addr<T>> for Addr<T> {
    open spec fn obeys_sub_spec() -> bool {
        false
    }

    open spec fn sub_req(self, rhs: Self) -> bool {
        true
    }

    open spec fn sub_spec(self, rhs: Self) -> Result<usize> {
        arbitrary()
    }
}

impl Addr<PhysTag> {
    /// Makes a physical address of a `u32`; every `u32` is a valid physical address.
    pub fn new_u32(addr: u32) -> (r: Self)
        ensures
            r@ == addr,
            r.is_valid(),
    {
        Addr(addr as usize, PhantomData)
    }
}

impl Addr<VirtTag> {
    /// Makes a virtual address of `addr`, sign-extending it from bit 47 where it is not canonical.
    pub fn canonize(addr: usize) -> (r: Self)
        requires
            usize::BITS == 64,
        ensures
            r@ == canonized(addr as int),
    {
        let mut addr = addr as u64;
        if addr > 0x7FFF_FFFF_FFFF {
            assert((addr | 0xFFFF_0000_0000_0000u64)
                == addr % 0x1_0000_0000_0000 + 0xFFFF_0000_0000_0000u64) by (bit_vector);
            addr = addr | NEGATIVE_SIGN_EXTEND;
        }
        Addr(addr as usize, PhantomData)
    }

    /// The address that the page table translates through the entries `page_table_indexes`
    /// (by level, from the leaf up) to the byte `offset` of a page: the indexes and the offset
    /// laid side by side and sign-extended from bit 47.
    pub fn from_page_table_indexes(page_table_indexes: [usize; 4], offset: usize) -> (r: Self)
        requires
            usize::BITS == 64,
            forall|l: int| 0 <= l < 4 ==> #[trigger] page_table_indexes[l] < 512,
            offset < 4096,
        ensures
            r@ == canonized(
                ((page_table_indexes[3] * 512 + page_table_indexes[2]) * 512 + page_table_indexes[1]) * 512 * 4096
                    + page_table_indexes[0] * 4096 + offset),
            r@ % 4096 == offset,
            forall|l: int| 0 <= l < 4 ==>
                (r@ as int / vstd::arithmetic::power2::pow2((12 + 9 * l) as nat) as int) % 512
                    == #[trigger] page_table_indexes[l],
    {
        let i0 = page_table_indexes[0] as u64;
        let i1 = page_table_indexes[1] as u64;
        let i2 = page_table_indexes[2] as u64;
        let i3 = page_table_indexes[3] as u64;
        let o = offset as u64;
        assert(i0 < 512 && i1 < 512 && i2 < 512 && i3 < 512);
        let v3: u64 = i3;
        let v2: u64 = (v3 << 9u64) | i2;
        let v1: u64 = (v2 << 9u64) | i1;
        let v0: u64 = (v1 << 9u64) | i0;
        let raw: u64 = (v0 << 12u64) | o;
        assert(v2 == i3 * 512 + i2 && v2 < 0x4_0000) by (bit_vector)
            requires i3 < 512, i2 < 512, v2 == (i3 << 9u64) | i2;
        assert(v1 == v2 * 512 + i1 && v1 < 0x800_0000) by (bit_vector)
            requires v2 < 0x4_0000, i1 < 512, v1 == (v2 << 9u64) | i1;
        assert(v0 == v1 * 512 + i0 && v0 < 0x10_0000_0000) by (bit_vector)
            requires v1 < 0x800_0000, i0 < 512, v0 == (v1 << 9u64) | i0;
        assert(raw == v0 * 4096 + o && raw < 0x1_0000_0000_0000) by (bit_vector)
            requires v0 < 0x10_0000_0000, o < 4096, raw == (v0 << 12u64) | o;
        assert(raw % 4096 == o
            && (raw / 0x1000) % 512 == i0
            && (raw / 0x20_0000) % 512 == i1
            && (raw / 0x4000_0000) % 512 == i2
            && (raw / 0x80_0000_0000) % 512 == i3) by (bit_vector)
            requires
                i0 < 512, i1 < 512, i2 < 512, i3 < 512, o < 4096,
                raw == ((i3 * 512 + i2) * 512 + i1) * 512 * 4096 + i0 * 4096 + o,
        ;
        let r = Self::canonize(raw as usize);
        proof {
            let c = r@ as u64;
            assert(c == raw || c == raw + 0xFFFF_0000_0000_0000u64);
            assert(c % 4096 == o
                && (c / 0x1000) % 512 == i0
                && (c / 0x20_0000) % 512 == i1
                && (c / 0x4000_0000) % 512 == i2
                && (c / 0x80_0000_0000) % 512 == i3) by (bit_vector)
                requires
                    raw < 0x1_0000_0000_0000,
                    c == raw || c == raw + 0xFFFF_0000_0000_0000u64,
                    raw % 4096 == o,
                    (raw / 0x1000) % 512 == i0,
                    (raw / 0x20_0000) % 512 == i1,
                    (raw / 0x4000_0000) % 512 == i2,
                    (raw / 0x80_0000_0000) % 512 == i3,
            ;
            vstd::arithmetic::power2::lemma2_to64();
            assert forall|l: int| 0 <= l < 4 implies
                (r@ as int / vstd::arithmetic::power2::pow2((12 + 9 * l) as nat) as int) % 512
                    == #[trigger] page_table_indexes[l] by {
                if l == 0 {
                    assert(vstd::arithmetic::power2::pow2(12) == 0x1000);
                } else if l == 1 {
                    assert(vstd::arithmetic::power2::pow2(21) == 0x20_0000);
                } else if l == 2 {
                    assert(vstd::arithmetic::power2::pow2(30) == 0x4000_0000);
                } else {
                    vstd::arithmetic::power2::lemma_pow2_adds(32, 7);
                    assert(vstd::arithmetic::power2::pow2(39) == 0x80_0000_0000);
                }
            }
        }
        r
    }

    /// Size in bytes of each of the two halves of the virtual address space.
    pub fn half_size() -> (r: usize)
        requires
            usize::BITS == 64,
        ensures
            r == LOWER_HALF_END,
    {
        LOWER_HALF_END as usize
    }

    /// The first address of the higher half of the virtual address space.
    pub fn higher_half() -> (r: Self)
        requires
            usize::BITS == 64,
        ensures
            r@ == HIGHER_HALF_START,
            r.is_valid(),
    {
        Addr(HIGHER_HALF_START as usize, PhantomData)
    }

    /// The first address of the lower half of the virtual address space.
    pub fn lower_half() -> (r: Self)
        ensures
            r@ == 0,
            r.is_valid(),
    {
        Addr(0, PhantomData)
    }

    /// Index of the entry in the page table node of level `level` that translates this address.
    pub fn page_table_index(&self, level: u32) -> (r: usize)
        requires
            usize::BITS == 64,
            level <= 5,
        ensures
            r == (self@ as int / vstd::arithmetic::power2::pow2((12 + 9 * level) as nat) as int) % 512,
            r < 512,
    {
        let shift: u32 = 12 + level * 9;
        let a: usize = self.0;
        let r = (a >> shift) & 511;
        proof {
            let s = shift as usize;
            assert((a >> shift) == (a >> s)) by (bit_vector)
                requires
                    s == shift as usize,
                    shift < 64,
            ;
            vstd::bits::lemma_usize_shr_is_div(a, s);
            let q = a >> s;
            vstd::bits::lemma_usize_low_bits_mask_is_mod(q, 9);
            vstd::bits::lemma_low_bits_mask_values();
            vstd::arithmetic::power2::lemma2_to64();
        }
        r
    }

    /// Whether the address lies in the higher half of the virtual address space.
    pub fn is_higher_half(&self) -> (r: bool)
        ensures
            r == (self@ >= 0x1_0000_0000_0000),
    {
        !self.is_lower_half()
    }

    /// Whether the address lies in the lower half of the virtual address space.
    pub fn is_lower_half(&self) -> (r: bool)
        ensures
            r == (self@ < 0x1_0000_0000_0000),
    {
        (self.0 as u64) < 0x1_0000_0000_0000
    }
}

} // verus!
