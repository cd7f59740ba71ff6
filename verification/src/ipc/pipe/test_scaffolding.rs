//! Access to the inner state of a ring buffer, for tests.

use vstd::prelude::*;

use super::{RingBuffer, Tag};
use crate::memory::block::Block;
use crate::memory::frage::Page;

pub use super::{head_tail, stats};

verus! {

/// The state byte of a record not written yet.
pub const CLEAR: u8 = 0;

/// The state byte of a record that the writer committed and the reader did not.
pub const WRITTEN: u8 = 1;

/// The state byte of a record that both sides committed.
pub const READ: u8 = 2;

/// The state byte of a record that closes the buffer.
pub const CLOSED: u8 = 3;

/// The block of virtual memory that `buffer` is mapped to.
pub fn block<T: Tag>(buffer: &RingBuffer<T>) -> (r: Block<Page>)
    ensures
        r == buffer.spec_block(),
{
    buffer.block()
}

/// The size of a record header of `buffer`.
pub fn header_size<T: Tag>(buffer: &RingBuffer<T>) -> (r: usize)
    ensures
        r == buffer.spec_header_size(),
{
    buffer.header_size()
}

} // verus!
