use core::marker::PhantomData;

use vstd::prelude::*;

use crate::error::{Error, Result};

use super::addr::{Addr, Tag, PHYS_END, PORT_END, new_result, is_page_size, lemma_page_size_divides};

verus! {

/// The data types that can be read from and written to an I/O port: `u8`, `u16` and `u32`.
pub trait PortData: Sized + Copy {
    /// Width in bytes of the port data.
    spec fn spec_width() -> nat;

    /// Width in bytes of the port data.
    fn width() -> (r: usize)
        ensures
            r == Self::spec_width(),
            r == 1 || r == 2 || r == 4,
    ;

    /// The width is 1, 2 or 4 bytes.
    proof fn lemma_width()
        ensures
            Self::spec_width() == 1 || Self::spec_width() == 2 || Self::spec_width() == 4,
    ;
}

impl PortData for u8 {
    open spec fn spec_width() -> nat {
        1
    }

    fn width() -> (r: usize) {
        1
    }

    proof fn lemma_width() {
    }
}

impl PortData for u16 {
    open spec fn spec_width() -> nat {
        2
    }

    fn width() -> (r: usize) {
        2
    }

    proof fn lemma_width() {
    }
}

impl PortData for u32 {
    open spec fn spec_width() -> nat {
        4
    }

    fn width() -> (r: usize) {
        4
    }

    proof fn lemma_width() {
    }
}

/// Tag of I/O port numbers whose data has the type `T`.
#[derive(Debug, Default, PartialEq, Eq, PartialOrd, Ord, Hash)]
pub struct PortTag<T>(PhantomData<T>);

impl<T> Clone for PortTag<T> {
    fn clone(&self) -> (r: Self)
        ensures
            r == *self,
    {
        *self
    }
}

impl<T> Copy for PortTag<T> {
}

/// An I/O port of x86-64 whose data has the type `T`.
pub type Port<T> = Addr<PortTag<T>>;

impl<T: PortData> Tag for PortTag<T> {
    open spec fn spec_is_valid(addr: usize) -> bool {
        addr < PORT_END && addr as int % (T::spec_width() as int) == 0
    }

    open spec fn spec_is_same_half(x: usize, y: usize) -> bool {
        true
    }

    open spec fn spec_bits() -> nat {
        16
    }

    fn new(addr: usize) -> (r: Result<Addr<Self>>) {
        let width = T::width();
        if (addr as u64) < PORT_END && addr % width == 0 {
            Ok(Addr::from_bits(addr))
        } else {
            Err(Error::InvalidArgument)
        }
    }

    fn is_same_half(x: Addr<Self>, y: Addr<Self>) -> (r: bool) {
        true
    }

    open spec fn spec_hex_letter() -> u8 {
        120
    }

    fn hex_letter() -> (r: u8) {
        120
    }

    fn bits() -> (r: u32) {
        16
    }

    open spec fn spec_align() -> nat {
        T::spec_width()
    }

    proof fn lemma_align() {
        T::lemma_width();
        let w = T::spec_width() as int;
        if w == 1 {
            assert(4096int % w == 0);
        } else if w == 2 {
            assert(4096int % w == 0);
        } else {
            assert(4096int % w == 0);
        }
    }

    proof fn lemma_valid_aligned(x: usize) {
    }

    proof fn lemma_zero_valid() {
        T::lemma_width();
        assert(0int % (T::spec_width() as int) == 0);
    }

    proof fn lemma_same_half_equivalence(a: usize, b: usize, c: usize) {
    }

    proof fn lemma_between(a: usize, x: usize, b: usize) {
        T::lemma_width();
    }

    proof fn lemma_near(a: usize, b: usize) {
    }

    proof fn lemma_span(a: usize, b: usize) {
    }

    proof fn lemma_aligned_offset(a: usize, size: int, offset: int) {
        T::lemma_width();
        let w = T::spec_width() as int;
        assert(a + offset < PORT_END) by (nonlinear_arith)
            requires
                a < PORT_END,
                (a as int) % size == 0,
                size == 0x1000,
                0 <= offset < size,
        ;
        assert((a + offset) % w == 0) by (nonlinear_arith)
            requires
                (a as int) % w == 0,
                offset % w == 0,
                w > 0,
        {
            vstd::arithmetic::div_mod::lemma_add_mod_noop(a as int, offset, w);
        }
    }

    proof fn lemma_round_down(a: usize, size: int) {
        T::lemma_width();
        let w = T::spec_width() as int;
        lemma_page_size_divides(size);
        let r = (a as int) % size;
        assert(0 <= r < size);
        assert(size % w == 0) by (nonlinear_arith)
            requires
                size == 0x1000 || size == 0x20_0000 || size == 0x4000_0000,
                w == 1 || w == 2 || w == 4,
        ;
        vstd::arithmetic::div_mod::lemma_fundamental_div_mod(a as int, size);
        assert((a - r) % w == 0) by (nonlinear_arith)
            requires
                a - r == size * ((a as int) / size),
                size % w == 0,
                w > 0,
        {
            vstd::arithmetic::div_mod::lemma_mod_multiples_basic((a as int) / size * (size / w), w);
            vstd::arithmetic::div_mod::lemma_fundamental_div_mod(size, w);
        }
    }
}

/// A pair of I/O ports: writing an index into the first selects which data the second gives.
pub struct IndexDataPortPair<T> {
    index_port: Port<T>,
    data_port: Port<T>,
}

impl<T: PortData> IndexDataPortPair<T> {
    /// The index port.
    pub closed spec fn spec_index_port(&self) -> Port<T> {
        self.index_port
    }

    /// The data port.
    pub closed spec fn spec_data_port(&self) -> Port<T> {
        self.data_port
    }

    /// Makes a pair of the index port `index_port` and the data port `data_port`.
    pub fn new(index_port: Port<T>, data_port: Port<T>) -> (r: Self)
        ensures
            r.spec_index_port() == index_port,
            r.spec_data_port() == data_port,
    {
        Self { index_port, data_port }
    }

    /// Makes a pair of the index port `index_port` and the data port right after it.
    /// Fails with `Error::Overflow` where the data port number does not fit into 16 bits,
    /// and with `Error::InvalidArgument` where a port number is not aligned to the data width.
    pub fn from_index_port(index_port: u16) -> (r: Result<Self>)
        ensures
            !PortTag::<T>::spec_is_valid(index_port as usize) ==> r == Err::<Self, Error>(Error::InvalidArgument),
            PortTag::<T>::spec_is_valid(index_port as usize) && index_port + T::spec_width() > u16::MAX
                ==> r == Err::<Self, Error>(Error::Overflow),
            PortTag::<T>::spec_is_valid(index_port as usize) && index_port + T::spec_width() <= u16::MAX
                ==> (r matches Ok(pair) && pair.spec_index_port()@ == index_port
                    && pair.spec_data_port()@ == index_port + T::spec_width()),
    {
        let index = match Port::<T>::new(index_port as usize) {
            Ok(port) => port,
            Err(e) => return Err(e),
        };
        let width = T::width() as u16;
        let data_number = match index_port.checked_add(width) {
            Some(n) => n,
            None => return Err(Error::Overflow),
        };
        proof {
            T::lemma_width();
            let w = T::spec_width() as int;
            let a = index_port as int;
            assert((a + w) % w == 0) by {
                if w == 1 {
                } else if w == 2 {
                } else {
                }
            }
        }
        let data = match Port::<T>::new(data_number as usize) {
            Ok(port) => port,
            Err(e) => return Err(e),
        };
        Ok(Self::new(index, data))
    }
}

} // verus!
