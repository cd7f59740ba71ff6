use vstd::prelude::*;

use super::addr::{Addr, Tag};
use super::frage::Frage;

verus! {

/// One kibibyte.
#[allow(non_upper_case_globals)]
pub const KiB: usize = 0x400;

/// One mebibyte.
#[allow(non_upper_case_globals)]
pub const MiB: usize = 0x10_0000;

/// One gibibyte.
#[allow(non_upper_case_globals)]
pub const GiB: usize = 0x4000_0000;

/// Converts a `u64` into a `usize`, which has the same width on x86-64.
pub fn into_usize(x: u64) -> (r: usize)
    requires
        usize::BITS == 64,
    ensures
        r == x,
{
    x as usize
}

/// Converts a `usize` into a `u64`, which has the same width on x86-64.
pub fn into_u64(x: usize) -> (r: u64)
    ensures
        r == x,
{
    x as u64
}

/// Converts an unsigned integer of at most 64 bits, given as `u64`, into a `usize`.
pub fn from(x: u64) -> (r: usize)
    requires
        usize::BITS == 64,
    ensures
        r == x,
{
    into_usize(x)
}

/// The types whose elements have a size in bytes.
pub trait SizeOf: Sized {
    /// Size of one element in bytes.
    spec fn spec_size_of() -> nat;

    /// Size of one element in bytes.
    fn size_of() -> (r: usize)
        ensures
            r == Self::spec_size_of(),
    ;

    /// The number of elements that `size` bytes need, rounding up.
    fn count_up(size: usize) -> (r: usize)
        requires
            Self::spec_size_of() > 0,
        ensures
            r == (size + Self::spec_size_of() - 1) / (Self::spec_size_of() as int),
    {
        let element = Self::size_of();
        let q = size / element;
        let m = size % element;
        proof {
            vstd::arithmetic::div_mod::lemma_fundamental_div_mod(size as int, element as int);
            if m == 0 {
                vstd::arithmetic::div_mod::lemma_fundamental_div_mod_converse(
                    size + element - 1, element as int, q as int, element - 1);
            } else {
                assert(size + element - 1 == (q + 1) * element + (m - 1)) by (nonlinear_arith)
                    requires size == element * q + m;
                vstd::arithmetic::div_mod::lemma_fundamental_div_mod_converse(
                    size + element - 1, element as int, q + 1, m - 1);
                assert(q < size) by (nonlinear_arith)
                    requires size == element * q + m, element >= 1, m > 0, q >= 0;
            }
        }
        let r = q + if m == 0 { 0 } else { 1 };
        r
    }
}

impl<T: Tag> SizeOf for Addr<T> {
    open spec fn spec_size_of() -> nat {
        1
    }

    fn size_of() -> (r: usize) {
        1
    }
}

impl<T: Tag, const SIZE: usize> SizeOf for Frage<T, SIZE> {
    open spec fn spec_size_of() -> nat {
        SIZE as nat
    }

    fn size_of() -> (r: usize) {
        SIZE
    }
}

/// A size of a piece of memory in bytes.
#[derive(Clone, Copy, Debug, Default, PartialEq, Eq, PartialOrd, Ord)]
pub struct Size(usize);

impl View for Size {
    type V = usize;

    closed spec fn view(&self) -> usize {
        self.0
    }
}

impl Size {
    /// The size of `count` elements of the type `T`.
    pub fn new<T: SizeOf>(count: usize) -> (r: Self)
        requires
            count * T::spec_size_of() <= usize::MAX,
        ensures
            r@ == count * T::spec_size_of(),
    {
        Self(count * T::size_of())
    }

    /// The size of `count` elements of the type `T`, the count given as `u64`.
    pub fn new_u64<T: SizeOf>(count: u64) -> (r: Self)
        requires
            usize::BITS == 64,
            count * T::spec_size_of() <= usize::MAX,
        ensures
            r@ == count * T::spec_size_of(),
    {
        Self::new::<T>(into_usize(count))
    }

    /// The size of `bytes` bytes.
    pub fn bytes(bytes: usize) -> (r: Self)
        ensures
            r@ == bytes,
    {
        Self(bytes)
    }

    /// The size of the slice `slice` in bytes.
    pub fn from_slice<T>(slice: &[T]) -> (r: Self)
        ensures
            r@ == vstd::layout::spec_size_of_val::<[T]>(slice),
    {
        Self(core::mem::size_of_val(slice))
    }

    /// The size of the type `T` in bytes.
    pub fn of<T>() -> (r: Self)
        ensures
            r@ == vstd::layout::size_of::<T>(),
    {
        Self(core::mem::size_of::<T>())
    }

    /// The number of bytes.
    pub fn num_bytes(&self) -> (r: usize)
        ensures
            r == self@,
    {
        self.0
    }
}

} // verus!
