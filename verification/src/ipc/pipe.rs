//! The bookkeeping of a one-way channel for byte sequences over a ring buffer that is mapped
//! twice in a row into virtual memory, so that every record lies contiguously.
//!
//! Each record starts with a header: a state byte, then the size of the payload in
//! big-endian bytes, as many as the size of the buffer needs.

use core::marker::PhantomData;

use vstd::prelude::*;

use crate::memory::block::Block;
use crate::memory::frage::Page;

pub mod test_scaffolding;

verus! {

/// The size of the state byte that ends a record: the state of the next record.
pub const STATE_SIZE: usize = 1;

/// `256` to the power `n`.
pub open spec fn pow256(n: nat) -> nat
    decreases n,
{
    if n == 0 { 1 } else { 256 * pow256((n - 1) as nat) }
}

/// The number of bytes that the big-endian representation of `n` takes: none for zero.
pub open spec fn size_bytes(n: nat) -> nat
    decreases n,
{
    if n == 0 { 0 } else { 1 + size_bytes(n / 256) }
}

/// The number that the big-endian bytes `bytes` hold.
pub open spec fn be_value(bytes: Seq<u8>) -> nat
    decreases bytes.len(),
{
    if bytes.len() == 0 { 0 } else { be_value(bytes.drop_last()) * 256 + bytes.last() as nat }
}

/// A number is below `256` to the power of its byte count.
pub proof fn lemma_size_bytes_bound(n: nat)
    ensures
        n < pow256(size_bytes(n)),
    decreases n,
{
    if n > 0 {
        lemma_size_bytes_bound(n / 256);
    }
}

/// A number below `256` to the power `k` takes at most `k` bytes.
pub proof fn lemma_size_bytes_at_most(n: nat, k: nat)
    requires
        n < pow256(k),
    ensures
        size_bytes(n) <= k,
    decreases k,
{
    if n > 0 {
        assert(k > 0);
        let p = pow256((k - 1) as nat);
        assert(n / 256 < p) by (nonlinear_arith)
            requires n < 256 * p;
        lemma_size_bytes_at_most(n / 256, (k - 1) as nat);
    }
}

/// `bytes` hold a number below `256` to the power of their count.
pub proof fn lemma_be_value_bound(bytes: Seq<u8>)
    ensures
        be_value(bytes) < pow256(bytes.len()),
    decreases bytes.len(),
{
    if bytes.len() > 0 {
        lemma_be_value_bound(bytes.drop_last());
        let v = be_value(bytes.drop_last());
        let p = pow256((bytes.len() - 1) as nat);
        assert(v * 256 + bytes.last() < p * 256) by (nonlinear_arith)
            requires v < p, bytes.last() < 256;
    }
}

/// The value of bytes laid side by side.
proof fn lemma_be_value_concat(a: Seq<u8>, b: Seq<u8>)
    ensures
        be_value(a + b) == be_value(a) * pow256(b.len()) + be_value(b),
    decreases b.len(),
{
    if b.len() == 0 {
        assert(a + b =~= a);
        assert(pow256(0) == 1);
        assert(be_value(b) == 0);
        assert(be_value(a) * 1 == be_value(a)) by (nonlinear_arith);
    } else {
        lemma_be_value_concat(a, b.drop_last());
        assert((a + b).drop_last() =~= a + b.drop_last());
        assert((a + b).last() == b.last());
        assert(be_value(a + b) == be_value((a + b).drop_last()) * 256 + (a + b).last() as nat);
        assert(be_value(b) == be_value(b.drop_last()) * 256 + b.last() as nat);
        assert(pow256(b.len()) == 256 * pow256((b.len() - 1) as nat));
        let x = be_value(a);
        let p = pow256((b.len() - 1) as nat);
        let y = be_value(b.drop_last());
        assert((x * p + y) * 256 + b.last() == x * (256 * p) + (y * 256 + b.last())) by (nonlinear_arith);
    }
}

/// `256` to the power `n` within 64 bits.
proof fn lemma_pow256_small(n: nat)
    requires
        n <= 7,
    ensures
        pow256(n) <= 0x100_0000_0000_0000,
    decreases n,
{
    reveal_with_fuel(pow256, 8);
}

/// The size that the big-endian bytes `bytes` of a record header hold.
pub fn read_size(bytes: &[u8]) -> (r: usize)
    requires
        usize::BITS == 64,
        bytes@.len() <= 8,
    ensures
        r == be_value(bytes@),
{
    let mut size: u64 = 0;
    let mut i: usize = 0;
    while i < bytes.len()
        invariant
            i <= bytes@.len() <= 8,
            size == be_value(bytes@.take(i as int)),
        decreases bytes@.len() - i,
    {
        proof {
            lemma_be_value_bound(bytes@.take(i as int));
            lemma_pow256_small(i as nat);
            assert(bytes@.take(i as int + 1).drop_last() =~= bytes@.take(i as int));
        }
        let byte = bytes[i] as u64;
        assert(((size << 8u64) | byte) == size * 256 + byte) by (bit_vector)
            requires size < 0x100_0000_0000_0000, byte < 256;
        size = (size << 8u64) | byte;
        i = i + 1;
    }
    assert(bytes@.take(bytes@.len() as int) =~= bytes@);
    size as usize
}

/// Writes `size` into the big-endian bytes `bytes` of a record header; it must fit them.
pub fn write_size(bytes: &mut Vec<u8>, size: usize)
    requires
        size < pow256(old(bytes)@.len()),
    ensures
        final(bytes)@.len() == old(bytes)@.len(),
        be_value(final(bytes)@) == size,
{
    let len = bytes.len();
    let mut rest: usize = size;
    let mut i: usize = len;
    proof {
        assert(bytes@.subrange(len as int, len as int) =~= Seq::<u8>::empty());
        assert(be_value(bytes@.subrange(len as int, len as int)) == 0);
        assert(pow256(0) == 1);
        assert(rest * 1 == rest) by (nonlinear_arith);
    }
    while i > 0
        invariant
            i <= len == bytes@.len(),
            size == rest * pow256((len - i) as nat) + be_value(bytes@.subrange(i as int, len as int)),
            size < pow256(len as nat),
        decreases i,
    {
        let ghost old_suffix = bytes@.subrange(i as int, len as int);
        let byte = (rest % 256) as u8;
        bytes.set(i - 1, byte);
        proof {
            assert(bytes@.subrange(i as int, len as int) =~= old_suffix);
            let one = seq![byte];
            assert(bytes@.subrange(i - 1, len as int) =~= one + old_suffix);
            lemma_be_value_concat(one, old_suffix);
            assert(one.drop_last() =~= Seq::<u8>::empty());
            assert(be_value(one.drop_last()) == 0);
            assert(one.last() == byte);
            assert(be_value(one) == byte);
            let p = pow256(old_suffix.len());
            assert(old_suffix.len() == len - i);
            assert(rest == (rest / 256) * 256 + rest % 256);
            assert(rest * p == (rest / 256) * (256 * p) + (rest % 256) * p) by (nonlinear_arith)
                requires rest == (rest / 256) * 256 + rest % 256;
            assert(pow256((len - (i - 1)) as nat) == 256 * p);
        }
        rest = rest / 256;
        i = i - 1;
    }
    proof {
        assert(bytes@.subrange(0, len as int) =~= bytes@);
        lemma_be_value_bound(bytes@);
        assert(rest == 0) by (nonlinear_arith)
            requires
                size == rest * pow256(len as nat) + be_value(bytes@),
                size < pow256(len as nat),
                rest >= 0,
                be_value(bytes@) >= 0,
        ;
    }
}

/// Tells the reading side of a buffer from the writing one.
pub trait Tag {
    /// Whether this is the reading side.
    spec fn spec_read() -> bool;

    /// Whether this is the reading side.
    fn read() -> (r: bool)
        ensures
            r == Self::spec_read(),
    ;
}

/// The tag of the reading side.
#[derive(Debug, Default)]
pub struct ReadTag;

impl Tag for ReadTag {
    open spec fn spec_read() -> bool {
        true
    }

    fn read() -> (r: bool) {
        true
    }
}

/// The tag of the writing side.
#[derive(Debug, Default)]
pub struct WriteTag;

impl Tag for WriteTag {
    open spec fn spec_read() -> bool {
        false
    }

    fn read() -> (r: bool) {
        false
    }
}

/// The counts of the reads or of the writes of a buffer.
#[derive(Clone, Copy, Debug, PartialEq, Eq, Structural)]
pub struct RingBufferStats {
    /// Bytes read or written in committed transactions.
    committed: usize,
    /// Committed transactions.
    commits: usize,
    /// Bytes read or written in transactions that were dropped.
    dropped: usize,
    /// Transactions that were dropped.
    drops: usize,
    /// Errors in transactions.
    errors: usize,
    /// Transactions started.
    txs: usize,
}

impl View for RingBufferStats {
    /// The counts, in the order: committed bytes, commits, dropped bytes, drops, errors,
    /// transactions.
    type V = (usize, usize, usize, usize, usize, usize);

    closed spec fn view(&self) -> Self::V {
        (self.committed, self.commits, self.dropped, self.drops, self.errors, self.txs)
    }
}

impl RingBufferStats {
    /// Whether every count is zero.
    pub open spec fn spec_is_zero(self) -> bool {
        self@ == (0usize, 0usize, 0usize, 0usize, 0usize, 0usize)
    }

    /// Bytes read or written in committed transactions.
    pub fn committed(&self) -> (r: &usize)
        ensures
            *r == self@.0,
    {
        &self.committed
    }

    /// Committed transactions.
    pub fn commits(&self) -> (r: &usize)
        ensures
            *r == self@.1,
    {
        &self.commits
    }

    /// Bytes read or written in transactions that were dropped.
    pub fn dropped(&self) -> (r: &usize)
        ensures
            *r == self@.2,
    {
        &self.dropped
    }

    /// Transactions that were dropped.
    pub fn drops(&self) -> (r: &usize)
        ensures
            *r == self@.3,
    {
        &self.drops
    }

    /// Errors in transactions.
    pub fn errors(&self) -> (r: &usize)
        ensures
            *r == self@.4,
    {
        &self.errors
    }

    /// Transactions started.
    pub fn txs(&self) -> (r: &usize)
        ensures
            *r == self@.5,
    {
        &self.txs
    }
}

impl Default for RingBufferStats {
    fn default() -> (r: Self)
        ensures
            r.spec_is_zero(),
    {
        RingBufferStats { committed: 0, commits: 0, dropped: 0, drops: 0, errors: 0, txs: 0 }
    }
}

/// One side of a ring buffer over the block of pages `block`, whose second half maps the
/// same frames as its first. The positions `head` and `tail` count the bytes read and
/// written since the buffer was made; only the access to memory takes them modulo the
/// size of the buffer.
#[derive(Debug)]
pub struct RingBuffer<T: Tag> {
    block: Block<Page>,
    closed: bool,
    header_size: usize,
    head: usize,
    tail: usize,
    stats: RingBufferStats,
    _tag: PhantomData<T>,
}

/// The reading side of a buffer.
pub type ReadBuffer = RingBuffer<ReadTag>;

/// The writing side of a buffer.
pub type WriteBuffer = RingBuffer<WriteTag>;

impl<T: Tag> RingBuffer<T> {
    /// The mapped block.
    pub closed spec fn spec_block(&self) -> Block<Page> {
        self.block
    }

    /// Whether the buffer is closed.
    pub closed spec fn spec_closed(&self) -> bool {
        self.closed
    }

    /// The size of a record header.
    pub closed spec fn spec_header_size(&self) -> int {
        self.header_size as int
    }

    /// The bytes read since the buffer was made.
    pub closed spec fn spec_head(&self) -> int {
        self.head as int
    }

    /// The bytes written since the buffer was made.
    pub closed spec fn spec_tail(&self) -> int {
        self.tail as int
    }

    /// The counts of the transactions of this side.
    pub closed spec fn spec_stats(&self) -> RingBufferStats {
        self.stats
    }

    /// The bytes of memory that the buffer holds: half of those mapped.
    pub open spec fn spec_real_size(&self) -> int {
        self.spec_block().spec_count() * 4096 / 2
    }

    /// The buffer over `block`, which must not start at the null page and must have an even
    /// number of pages: nothing read or written, and a header of a state byte and as many
    /// bytes as the size of the buffer takes. Every size up to that of the buffer fits
    /// the header.
    pub fn new(block: Block<Page>) -> (r: Self)
        requires
            usize::BITS == 64,
            block.wf(),
            block@.0 != 0,
            block.spec_count() % 2 == 0,
        ensures
            r.spec_block() == block,
            !r.spec_closed(),
            r.spec_header_size() == 1 + size_bytes(r.spec_real_size() as nat),
            r.spec_real_size() < pow256((r.spec_header_size() - 1) as nat),
            r.spec_head() == 0,
            r.spec_tail() == 0,
            r.spec_stats().spec_is_zero(),
    {
        let mut header_size: usize = 1;
        let buffer_size: usize = block.size() / 2;
        let mut real_size: usize = buffer_size;
        proof {
            reveal_with_fuel(pow256, 9);
            lemma_size_bytes_at_most(buffer_size as nat, 8);
        }
        while real_size > 0
            invariant
                header_size + size_bytes(real_size as nat) == 1 + size_bytes(buffer_size as nat),
                size_bytes(buffer_size as nat) <= 8,
            decreases real_size,
        {
            assert(size_bytes(real_size as nat) >= 1);
            assert(real_size >> 8usize == real_size / 256) by (bit_vector);
            header_size = header_size + 1;
            real_size = real_size >> 8usize;
        }
        proof {
            lemma_size_bytes_bound(buffer_size as nat);
        }
        RingBuffer {
            block,
            closed: false,
            header_size,
            head: 0,
            tail: 0,
            stats: RingBufferStats::default(),
            _tag: PhantomData,
        }
    }

    /// The block of virtual memory that the buffer is mapped to.
    pub fn block(&self) -> (r: Block<Page>)
        ensures
            r == self.spec_block(),
    {
        self.block
    }

    /// The largest payload of one record: the buffer less a header and the state byte of
    /// the next record.
    pub fn max_capacity(&self) -> (r: usize)
        requires
            usize::BITS == 64,
            self.spec_block().wf(),
            self.spec_real_size() >= self.spec_header_size() + STATE_SIZE,
        ensures
            r == self.spec_real_size() - self.spec_header_size() - STATE_SIZE,
    {
        self.real_size() - self.header_size() - STATE_SIZE
    }

    /// The position of the first header of this side that is not committed.
    pub fn header_position(&self) -> (r: usize)
        ensures
            r == if T::spec_read() { self.spec_head() } else { self.spec_tail() },
    {
        if T::read() {
            self.head
        } else {
            self.tail
        }
    }

    /// The size of a record header.
    pub fn header_size(&self) -> (r: usize)
        ensures
            r == self.spec_header_size(),
    {
        self.header_size
    }

    /// The bytes of virtual memory mapped.
    pub fn mapped_size(&self) -> (r: usize)
        requires
            usize::BITS == 64,
            self.spec_block().wf(),
        ensures
            r == self.spec_block().spec_count() * 4096,
    {
        self.block.size()
    }

    /// The bytes of memory that the buffer holds.
    pub fn real_size(&self) -> (r: usize)
        requires
            usize::BITS == 64,
            self.spec_block().wf(),
        ensures
            r == self.spec_real_size(),
    {
        self.mapped_size() / 2
    }
}

/// The positions of `buffer` read and written up to, each taken modulo the size of the buffer.
pub fn head_tail<T: Tag>(buffer: &RingBuffer<T>) -> (r: (usize, usize))
    requires
        usize::BITS == 64,
        buffer.spec_block().wf(),
        buffer.spec_real_size() > 0,
    ensures
        r.0 == buffer.spec_head() % buffer.spec_real_size(),
        r.1 == buffer.spec_tail() % buffer.spec_real_size(),
{
    let real_size = buffer.real_size();
    (buffer.head % real_size, buffer.tail % real_size)
}

/// The counts of the transactions of `buffer`.
pub fn stats<T: Tag>(buffer: &RingBuffer<T>) -> (r: RingBufferStats)
    ensures
        r == buffer.spec_stats(),
{
    buffer.stats
}

impl RingBuffer<ReadTag> {
    /// The counts of the read transactions.
    pub fn read_stats(&self) -> (r: &RingBufferStats)
        ensures
            *r == self.spec_stats(),
    {
        &self.stats
    }
}

impl RingBuffer<WriteTag> {
    /// The counts of the write transactions.
    pub fn write_stats(&self) -> (r: &RingBufferStats)
        ensures
            *r == self.spec_stats(),
    {
        &self.stats
    }
}

} // verus!
