use vstd::prelude::*;

use crate::error::{Error, Result};

verus! {

/// Whether bit `n` of the words `words` is set, counting from the lowest bit of the first word.
pub open spec fn bit_of(words: Seq<u64>, n: int) -> bool {
    (words[n / 64] >> ((n % 64) as u64)) & 1u64 == 1u64
}

/// The number of clear bits among the first `len` bits of `words`.
pub open spec fn free_count(words: Seq<u64>, len: int) -> int
    decreases len,
{
    if len <= 0 {
        0
    } else {
        free_count(words, len - 1) + if bit_of(words, len - 1) { 0int } else { 1int }
    }
}

/// The number of words that `len` bits take.
pub open spec fn entry_count(len: int) -> int {
    (len + 63) / 64
}

/// How many steps a scan that starts at word `start` and wraps around after `count` words
/// takes to reach word `index`.
pub open spec fn scan_distance(start: int, index: int, count: int) -> int {
    (index - start + count) % count
}

/// Whether every element of word `index` below `len` is taken.
pub open spec fn entry_full(view: Seq<bool>, index: int, len: int) -> bool {
    forall|m: int| 0 <= m < len && m / 64 == index ==> #[trigger] view[m]
}

/// Counting the clear bits one more bit at a time, never more than bits counted.
proof fn lemma_free_count_bounds(words: Seq<u64>, len: int)
    requires
        0 <= len,
    ensures
        0 <= free_count(words, len) <= len,
    decreases len,
{
    if len > 0 {
        lemma_free_count_bounds(words, len - 1);
    }
}

/// Two sequences of words that agree on the first `len` bits have the same count.
proof fn lemma_free_count_same(a: Seq<u64>, b: Seq<u64>, len: int)
    requires
        0 <= len,
        forall|m: int| 0 <= m < len ==> bit_of(a, m) == bit_of(b, m),
    ensures
        free_count(a, len) == free_count(b, len),
    decreases len,
{
    if len > 0 {
        lemma_free_count_same(a, b, len - 1);
    }
}

/// Setting one clear bit below `len` lowers the count by one.
proof fn lemma_free_count_set(a: Seq<u64>, b: Seq<u64>, len: int, n: int)
    requires
        0 <= n < len,
        !bit_of(a, n),
        bit_of(b, n),
        forall|m: int| 0 <= m < len && m != n ==> bit_of(a, m) == bit_of(b, m),
    ensures
        free_count(b, len) == free_count(a, len) - 1,
    decreases len,
{
    if len - 1 == n {
        lemma_free_count_same(a, b, len - 1);
    } else {
        lemma_free_count_set(a, b, len - 1, n);
    }
}

/// No element below `len` is free exactly when the count is zero.
proof fn lemma_free_count_zero(words: Seq<u64>, len: int)
    requires
        0 <= len,
    ensures
        (free_count(words, len) == 0) <==> (forall|m: int| 0 <= m < len ==> bit_of(words, m)),
    decreases len,
{
    lemma_free_count_bounds(words, len);
    if len > 0 {
        lemma_free_count_zero(words, len - 1);
        lemma_free_count_bounds(words, len - 1);
    }
}

/// Testing a bit by a mask is testing it by a shift.
proof fn lemma_mask_bit(x: u64, k: u64)
    requires
        k < 64,
    ensures
        (x & (1u64 << k) != 0) == ((x >> k) & 1u64 == 1u64),
{
    assert((x & (1u64 << k) != 0) == ((x >> k) & 1u64 == 1u64)) by (bit_vector)
        requires k < 64;
}

/// Setting bit `k` of a word sets that bit and keeps the others.
proof fn lemma_set_bit(x: u64, k: u64)
    requires
        k < 64,
    ensures
        forall|j: u64| j < 64 ==> #[trigger] ((x | (1u64 << k)) >> j) & 1u64
            == if j == k { 1u64 } else { (x >> j) & 1u64 },
{
    assert(forall|j: u64| j < 64 ==> #[trigger] ((x | (1u64 << k)) >> j) & 1u64
        == if j == k { 1u64 } else { (x >> j) & 1u64 }) by (bit_vector)
        requires k < 64;
}

/// Clearing bit `k` of a word clears that bit and keeps the others.
proof fn lemma_clear_bit(x: u64, k: u64)
    requires
        k < 64,
    ensures
        forall|j: u64| j < 64 ==> #[trigger] ((x & !(1u64 << k)) >> j) & 1u64
            == if j == k { 0u64 } else { (x >> j) & 1u64 },
{
    assert(forall|j: u64| j < 64 ==> #[trigger] ((x & !(1u64 << k)) >> j) & 1u64
        == if j == k { 0u64 } else { (x >> j) & 1u64 }) by (bit_vector)
        requires k < 64;
}

/// The lowest clear bit of a word is where its trailing ones end.
proof fn lemma_trailing_ones(x: u64)
    requires
        x != u64::MAX,
    ensures
        vstd::std_specs::bits::u64_trailing_ones(x) < 64,
        (x >> (vstd::std_specs::bits::u64_trailing_ones(x) as u64)) & 1u64 == 0u64,
        forall|j: u64| j < vstd::std_specs::bits::u64_trailing_ones(x) ==> #[trigger] (x >> j) & 1u64 == 1u64,
{
    let nx: u64 = !x;
    vstd::std_specs::bits::axiom_u64_trailing_zeros(nx);
    let t = vstd::std_specs::bits::u64_trailing_zeros(nx) as u64;
    assert(nx != 0) by (bit_vector)
        requires nx == !x, x != u64::MAX;
    assert(forall|j: u64| j < 64 && (nx >> j) & 1u64 == 0u64 ==> #[trigger] (x >> j) & 1u64 == 1u64) by (bit_vector)
        requires nx == !x;
    assert(forall|j: u64| j < 64 && (nx >> j) & 1u64 == 1u64 ==> #[trigger] (x >> j) & 1u64 == 0u64) by (bit_vector)
        requires nx == !x;
    assert((x >> t) & 1u64 == 0u64);
}


/// Some taken element below `len` makes the count less than `len`.
proof fn lemma_free_count_taken(words: Seq<u64>, len: int, n: int)
    requires
        0 <= n < len,
        bit_of(words, n),
    ensures
        free_count(words, len) <= len - 1,
    decreases len,
{
    if len - 1 == n {
        lemma_free_count_bounds(words, len - 1);
    } else {
        lemma_free_count_taken(words, len - 1, n);
    }
}

/// Clear bits from `from` up to `to` add their number to the count.
proof fn lemma_free_count_clear(words: Seq<u64>, from: int, to: int)
    requires
        0 <= from <= to,
        forall|m: int| from <= m < to ==> !bit_of(words, m),
    ensures
        free_count(words, to) == free_count(words, from) + (to - from),
    decreases to - from,
{
    if from < to {
        lemma_free_count_clear(words, from, to - 1);
    }
}

/// Words grown by zero words keep the bits of the old words below `old_len`, where the bits
/// past `old_len` were clear all bits past it are clear, and the count of the new elements
/// adds their number.
pub proof fn lemma_grown_words(old_words: Seq<u64>, old_len: int, words: Seq<u64>, new_len: int)
    requires
        0 <= old_len < new_len,
        old_words.len() == entry_count(old_len),
        forall|m: int| old_len <= m < old_words.len() * 64 ==> !#[trigger] bit_of(old_words, m),
        words.len() == entry_count(new_len),
        words.subrange(0, old_words.len() as int) == old_words,
        forall|i: int| old_words.len() <= i < words.len() ==> words[i] == 0u64,
    ensures
        forall|m: int| 0 <= m < old_len ==> bit_of(words, m) == bit_of(old_words, m),
        forall|m: int| old_len <= m < words.len() * 64 ==> !#[trigger] bit_of(words, m),
        free_count(words, new_len) == free_count(old_words, old_len) + (new_len - old_len),
{
    assert(old_words.len() <= words.len());
    assert forall|m: int| 0 <= m < words.len() * 64 implies bit_of(words, m) == (m / 64 < old_words.len() && bit_of(old_words, m)) by {
        lemma_bit_position(m);
        if m / 64 < old_words.len() {
            assert(words[m / 64] == words.subrange(0, old_words.len() as int)[m / 64]);
        } else {
            let k = (m % 64) as u64;
            assert((0u64 >> k) & 1u64 == 0u64) by (bit_vector);
        }
    }
    assert forall|m: int| old_len <= m < words.len() * 64 implies !#[trigger] bit_of(words, m) by {
        lemma_bit_position(m);
        if m / 64 < old_words.len() {
            assert(m < old_words.len() * 64);
            assert(!bit_of(old_words, m));
        }
    }
    assert forall|m: int| 0 <= m < old_len implies bit_of(words, m) == bit_of(old_words, m) by {
        lemma_bit_position(m);
        assert(m / 64 < old_words.len());
    }
    lemma_free_count_same(words, old_words, old_len);
    assert forall|m: int| old_len <= m < new_len implies !bit_of(words, m) by {
        assert(new_len <= words.len() * 64);
        assert(!bit_of(words, m));
    }
    lemma_free_count_clear(words, old_len, new_len);
}

/// A scan from `start` reaches word `e` after `scan_distance` steps, fewer than the words.
proof fn lemma_scan_distance(start: int, e: int, count: int)
    requires
        0 <= start < count,
        0 <= e < count,
    ensures
        0 <= scan_distance(start, e, count) < count,
        e == (start + scan_distance(start, e, count)) % count,
{
    if e >= start {
        vstd::arithmetic::div_mod::lemma_mod_sub_multiples_vanish(e - start + count, count);
        vstd::arithmetic::div_mod::lemma_small_mod((e - start) as nat, count as nat);
        vstd::arithmetic::div_mod::lemma_small_mod(e as nat, count as nat);
    } else {
        vstd::arithmetic::div_mod::lemma_small_mod((e - start + count) as nat, count as nat);
        vstd::arithmetic::div_mod::lemma_mod_sub_multiples_vanish(e + count, count);
        vstd::arithmetic::div_mod::lemma_small_mod(e as nat, count as nat);
    }
}

/// Bit `n` of the words is bit `n % 64` of word `n / 64`.
proof fn lemma_bit_position(n: int)
    requires
        0 <= n,
    ensures
        n == (n / 64) * 64 + n % 64,
        0 <= n % 64 < 64,
        0 <= n / 64,
{
}

/// The element with bit `j` of word `index` is `index * 64 + j`.
proof fn lemma_element_position(index: int, j: int)
    requires
        0 <= index,
        0 <= j < 64,
    ensures
        (index * 64 + j) / 64 == index,
        (index * 64 + j) % 64 == j,
{
    vstd::arithmetic::div_mod::lemma_fundamental_div_mod_converse(index * 64 + j, 64, index, j);
}

/// A [free-space bitmap](https://en.wikipedia.org/wiki/Free-space_bitmap) of fixed size
/// that tracks which elements are taken and which are free.
pub struct Bitmap {
    /// The bits, one per element, set for a taken element;
    /// each word tracks `BITS_PER_ENTRY` elements.
    bitmap: Vec<u64>,

    /// The word of the last allocation, where the search for a free element starts:
    /// it speeds the search up and spreads the taken elements evenly.
    cursor: usize,

    /// The number of free elements, as the owner of the bitmap tells it.
    free: usize,

    /// The number of elements.
    len: usize,
}

impl View for Bitmap {
    type V = Seq<bool>;

    /// For each element, whether it is taken.
    closed spec fn view(&self) -> Seq<bool> {
        Seq::new(self.len as nat, |n: int| bit_of(self.bitmap@, n))
    }
}

impl Bitmap {
    /// The number of elements that one word of the bitmap tracks.
    pub const BITS_PER_ENTRY: usize = 64;

    /// The words of the bitmap.
    pub closed spec fn spec_words(&self) -> Seq<u64> {
        self.bitmap@
    }

    /// The word where the next search for a free element starts.
    pub closed spec fn spec_cursor(&self) -> int {
        self.cursor as int
    }

    /// The number of free elements that the bitmap holds for true.
    pub closed spec fn spec_free(&self) -> int {
        self.free as int
    }

    /// The number of elements.
    pub closed spec fn spec_len(&self) -> int {
        self.len as int
    }

    /// The words cover exactly the elements, and the cursor points at one of them.
    pub closed spec fn wf(&self) -> bool {
        &&& self.bitmap@.len() == entry_count(self.len as int)
        &&& if self.bitmap@.len() == 0 { self.cursor == 0 } else { self.cursor < self.bitmap@.len() }
    }

    /// Whether the bits past the last element are clear.
    pub open spec fn padding_clear(&self) -> bool {
        forall|m: int| self.spec_len() <= m < self.spec_words().len() * 64 ==> !#[trigger] bit_of(self.spec_words(), m)
    }

    /// Whether the number of free elements that the bitmap holds is the true one.
    pub open spec fn spec_consistent(&self) -> bool {
        self.spec_free() == free_count(self.spec_words(), self.spec_len())
    }

    /// A valid bitmap has the words that its elements need.
    pub proof fn lemma_wf(&self)
        requires
            self.wf(),
        ensures
            self.spec_words().len() == entry_count(self.spec_len()),
            0 <= self.spec_cursor(),
    {
    }

    /// A true count of free elements is at most the number of elements, and less where
    /// an element is taken.
    pub proof fn lemma_free_bounds(&self)
        requires
            self.spec_consistent(),
        ensures
            0 <= self.spec_free() <= self.spec_len() <= usize::MAX,
            forall|n: int| 0 <= n < self.spec_len() && #[trigger] self@[n] ==> self.spec_free() < self.spec_len(),
            self.spec_free() == 0 ==> forall|n: int| 0 <= n < self.spec_len() ==> #[trigger] self@[n],
            (forall|n: int| 0 <= n < self.spec_len() ==> #[trigger] self@[n]) ==> self.spec_free() == 0,
    {
        lemma_free_count_bounds(self.bitmap@, self.len as int);
        lemma_free_count_zero(self.bitmap@, self.len as int);
        if forall|n: int| 0 <= n < self.spec_len() ==> #[trigger] self@[n] {
            assert forall|m: int| 0 <= m < self.len implies bit_of(self.bitmap@, m) by {
                assert(self@[m]);
            }
        }
        assert forall|n: int| 0 <= n < self.spec_len() && #[trigger] self@[n] implies self.spec_free() < self.spec_len() by {
            lemma_free_count_taken(self.bitmap@, self.len as int, n);
        }
    }

    /// The view has one entry per element, each read from its bit.
    pub proof fn lemma_view(&self)
        ensures
            self@.len() == self.spec_len(),
            forall|n: int| 0 <= n < self.spec_len() ==> #[trigger] self@[n] == bit_of(self.spec_words(), n),
    {
    }

    /// Makes a bitmap of `len` elements over the words `bitmap`, which keeps the words that
    /// `len` elements need. Where `free` is `None`, it counts the free elements; otherwise it
    /// takes `free` as their number without checking it (see `validate`).
    /// The search for a free element starts at the word that `len - free` taken elements
    /// would fill up to, or at the first word where that is past the end.
    pub fn new(bitmap: Vec<u64>, len: usize, free: Option<usize>) -> (r: Self)
        requires
            entry_count(len as int) <= bitmap@.len(),
            free matches Some(f) ==> f <= len,
        ensures
            r.wf(),
            r.spec_words() == bitmap@.subrange(0, entry_count(len as int)),
            r.spec_len() == len,
            r.spec_free() == match free {
                Some(f) => f as int,
                None => free_count(bitmap@, len as int),
            },
            r.spec_cursor() == if (len - r.spec_free()) / 64 >= entry_count(len as int) {
                0
            } else {
                (len - r.spec_free()) / 64
            },
    {
        let count = len / Self::BITS_PER_ENTRY + if len % Self::BITS_PER_ENTRY == 0 { 0 } else { 1 };
        assert(count == entry_count(len as int));
        let free = match free {
            Some(f) => f,
            None => {
                proof {
                    lemma_free_count_bounds(bitmap@, len as int);
                }
                Self::count_free(bitmap.as_slice(), len)
            },
        };
        let mut cursor = (len - free) / Self::BITS_PER_ENTRY;
        if cursor >= count {
            cursor = 0;
        }
        let mut words = bitmap;
        words.truncate(count);
        proof {
            lemma_free_count_same(bitmap@, words@, len as int);
        }
        Self { bitmap: words, cursor, free, len }
    }

    /// The words of the bitmap, which it gives up.
    pub fn into_words(self) -> (r: Vec<u64>)
        ensures
            r@ == self.spec_words(),
    {
        self.bitmap
    }

    /// An empty bitmap.
    pub fn zero() -> (r: Self)
        ensures
            r.wf(),
            r@ == Seq::<bool>::empty(),
            r.spec_free() == 0,
            r.spec_cursor() == 0,
            r.spec_consistent(),
            r.padding_clear(),
            r.spec_len() == 0,
            r.spec_words().len() == 0,
    {
        let r = Self { bitmap: Vec::new(), cursor: 0, free: 0, len: 0 };
        assert(r@ =~= Seq::<bool>::empty());
        r
    }

    /// The number of free elements.
    pub fn free(&self) -> (r: usize)
        ensures
            r == self.spec_free(),
    {
        self.free
    }

    /// The number of elements.
    pub fn len(&self) -> (r: usize)
        ensures
            r == self.spec_len(),
    {
        self.len
    }

    /// Whether the bitmap has no elements.
    pub fn is_empty(&self) -> (r: bool)
        ensures
            r == (self.spec_len() == 0),
    {
        self.len == 0
    }

    /// Whether element `number` is free.
    pub fn is_free(&self, number: usize) -> (r: bool)
        requires
            self.wf(),
            number < self.spec_len(),
        ensures
            r == !self@[number as int],
    {
        proof {
            lemma_bit_position(number as int);
            assert((number / 64) < entry_count(self.len as int));
        }
        !Self::bit(self.bitmap.as_slice(), number)
    }

    /// Marks the taken element `number` free.
    pub fn set_free(&mut self, number: usize)
        requires
            old(self).wf(),
            number < old(self).spec_len(),
            old(self)@[number as int],
            old(self).spec_free() < usize::MAX,
        ensures
            final(self).wf(),
            final(self)@ == old(self)@.update(number as int, false),
            final(self).spec_free() == old(self).spec_free() + 1,
            final(self).spec_len() == old(self).spec_len(),
            final(self).spec_cursor() == old(self).spec_cursor(),
            old(self).spec_consistent() ==> final(self).spec_consistent(),
            old(self).padding_clear() ==> final(self).padding_clear(),
    {
        proof {
            lemma_bit_position(number as int);
            assert((number / 64) < entry_count(self.len as int));
        }
        let index = number / Self::BITS_PER_ENTRY;
        let shift = (number % Self::BITS_PER_ENTRY) as u64;
        let word = self.bitmap[index];
        let new_word = word & !(1u64 << shift);
        proof {
            lemma_clear_bit(word, shift);
        }
        let ghost old_words = self.bitmap@;
        self.bitmap.set(index, new_word);
        self.free = self.free + 1;
        proof {
            let new_words = self.bitmap@;
            assert forall|m: int| 0 <= m < self.bitmap@.len() * 64 implies bit_of(new_words, m)
                == if m == number { false } else { bit_of(old_words, m) } by {
                lemma_bit_position(m);
                if m / 64 == number / 64 {
                    assert(((new_word >> ((m % 64) as u64)) & 1u64) == if (m % 64) as u64 == shift { 0u64 } else { (word >> ((m % 64) as u64)) & 1u64 });
                }
            }
            assert(self@ =~= old(self)@.update(number as int, false));
            lemma_free_count_set(new_words, old_words, self.len as int, number as int);
            if old(self).padding_clear() {
                assert forall|m: int| self.len <= m < self.bitmap@.len() * 64 implies !#[trigger] bit_of(self.bitmap@, m) by {
                    assert(!bit_of(old(self).spec_words(), m));
                }
            }
        }
    }

    /// Finds a free element, marks it taken and returns its number; `None` where no element
    /// is free (or the bitmap holds its number of free elements at zero).
    ///
    /// The search starts at the word of the cursor, wraps around the end, and takes the
    /// lowest free element of the first word that has one; the cursor then points at
    /// that word.
    pub fn allocate(&mut self) -> (r: Option<usize>)
        requires
            old(self).wf(),
        ensures
            final(self).wf(),
            final(self).spec_len() == old(self).spec_len(),
            old(self).spec_consistent() ==> final(self).spec_consistent(),
            old(self).padding_clear() ==> final(self).padding_clear(),
            match r {
                None => {
                    &&& *final(self) == *old(self)
                    &&& (old(self).spec_free() == 0
                        || forall|m: int| 0 <= m < old(self).spec_len() ==> #[trigger] old(self)@[m])
                },
                Some(n) => {
                    let count = old(self).spec_words().len() as int;
                    &&& old(self).spec_free() > 0
                    &&& n < old(self).spec_len()
                    &&& !old(self)@[n as int]
                    &&& final(self)@ == old(self)@.update(n as int, true)
                    &&& final(self).spec_free() == old(self).spec_free() - 1
                    &&& final(self).spec_cursor() == n / 64
                    &&& forall|m: int| 0 <= m < n && m / 64 == n / 64 ==> #[trigger] old(self)@[m]
                    &&& forall|e: int| 0 <= e < count
                        && scan_distance(old(self).spec_cursor(), e, count)
                            < scan_distance(old(self).spec_cursor(), n as int / 64, count)
                        ==> entry_full(old(self)@, e, old(self).spec_len())
                },
            },
    {
        if self.free == 0 {
            return None;
        }
        let count = self.bitmap.len();
        let start = self.cursor;
        let mut offset: usize = 0;
        while offset < count
            invariant
                self.wf(),
                *self == *old(self),
                count == self.bitmap@.len(),
                start == self.cursor,
                count > 0 ==> start < count,
                self.free > 0,
                offset <= count,
                forall|e: int| 0 <= e < count && scan_distance(start as int, e, count as int) < offset
                    ==> entry_full(self@, e, self.len as int),
            decreases count - offset,
        {
            let index = (start + offset) % count;
            let entry = self.bitmap[index];
            proof {
                assert(scan_distance(start as int, index as int, count as int) == offset) by {
                    vstd::arithmetic::div_mod::lemma_mod_bound((start + offset) as int, count as int);
                    if start + offset < count {
                        vstd::arithmetic::div_mod::lemma_small_mod((start + offset) as nat, count as nat);
                        vstd::arithmetic::div_mod::lemma_small_mod(offset as nat, count as nat);
                        assert((index - start + count) as int == offset + count);
                        vstd::arithmetic::div_mod::lemma_mod_add_multiples_vanish(offset as int, count as int);
                    } else {
                        vstd::arithmetic::div_mod::lemma_mod_sub_multiples_vanish((start + offset) as int, count as int);
                        vstd::arithmetic::div_mod::lemma_small_mod((start + offset - count) as nat, count as nat);
                        vstd::arithmetic::div_mod::lemma_small_mod(offset as nat, count as nat);
                    }
                }
            }
            if entry != u64::MAX {
                let position = entry.trailing_ones() as usize;
                proof {
                    lemma_trailing_ones(entry);
                    assert(index * 64 < self.len) by {
                        assert(index + 1 <= entry_count(self.len as int));
                        assert((index + 1) * 64 <= self.len + 63) by (nonlinear_arith)
                            requires index + 1 <= (self.len + 63) / 64;
                    }
                }
                if position < self.len - index * Self::BITS_PER_ENTRY {
                    let element = index * Self::BITS_PER_ENTRY + position;
                    let shift = position as u64;
                    let new_word = entry | (1u64 << shift);
                    proof {
                        lemma_set_bit(entry, shift);
                        lemma_element_position(index as int, position as int);
                    }
                    let ghost old_words = self.bitmap@;
                    self.bitmap.set(index, new_word);
                    self.cursor = index;
                    self.free = self.free - 1;
                    proof {
                        let new_words = self.bitmap@;
                        assert(!bit_of(old_words, element as int));
                        assert forall|m: int| 0 <= m < self.bitmap@.len() * 64 implies bit_of(new_words, m)
                            == if m == element { true } else { bit_of(old_words, m) } by {
                            lemma_bit_position(m);
                            if m / 64 == index {
                                assert(((new_word >> ((m % 64) as u64)) & 1u64) == if (m % 64) as u64 == shift { 1u64 } else { (entry >> ((m % 64) as u64)) & 1u64 });
                                if m % 64 == position {
                                    assert(m == element);
                                }
                            } else {
                                assert(m != element);
                            }
                        }
                        assert(self@ =~= old(self)@.update(element as int, true));
                        if old(self).padding_clear() {
                            assert forall|m: int| self.len <= m < self.bitmap@.len() * 64 implies !#[trigger] bit_of(self.bitmap@, m) by {
                                assert(!bit_of(old(self).spec_words(), m));
                            }
                        }
                        assert forall|m: int| 0 <= m < element && m / 64 == element / 64 implies #[trigger] old(self)@[m] by {
                            lemma_bit_position(m);
                            assert((m % 64) < position);
                            assert((entry >> ((m % 64) as u64)) & 1u64 == 1u64);
                        }
                        lemma_free_count_set(old_words, new_words, self.len as int, element as int);
                    }
                    return Some(element);
                } else {
                    proof {
                        assert forall|m: int| 0 <= m < self.len && m / 64 == index implies #[trigger] self@[m] by {
                            lemma_bit_position(m);
                            assert((m % 64) < position) by {
                                if (m % 64) >= position {
                                    lemma_element_position(index as int, position as int);
                                }
                            }
                            assert((entry >> ((m % 64) as u64)) & 1u64 == 1u64);
                        }
                    }
                }
            } else {
                proof {
                    assert forall|m: int| 0 <= m < self.len && m / 64 == index implies #[trigger] self@[m] by {
                        lemma_bit_position(m);
                        let j = (m % 64) as u64;
                        assert((entry >> j) & 1u64 == 1u64) by (bit_vector)
                            requires entry == u64::MAX, j < 64;
                    }
                }
            }
            proof {
                assert forall|e: int| 0 <= e < count && scan_distance(start as int, e, count as int) < offset + 1
                    implies entry_full(self@, e, self.len as int) by {
                    lemma_scan_distance(start as int, e, count as int);
                }
            }
            offset = offset + 1;
        }
        proof {
            assert forall|m: int| 0 <= m < self.len implies #[trigger] self@[m] by {
                lemma_bit_position(m);
                let e = m / 64;
                assert(e < count);
                vstd::arithmetic::div_mod::lemma_mod_bound(e - start + count, count as int);
                assert(entry_full(self@, e, self.len as int));
            }
        }
        None
    }

    /// Checks the number of free elements against the bits.
    /// Returns `Error::InvalidArgument` where they disagree.
    pub fn validate(&self) -> (r: Result<()>)
        requires
            self.wf(),
        ensures
            self.spec_consistent() ==> r is Ok,
            !self.spec_consistent() ==> r == Err::<(), Error>(Error::InvalidArgument),
    {
        proof {
            assert(entry_count(self.len as int) <= self.bitmap@.len());
        }
        if self.free == Self::count_free(self.bitmap.as_slice(), self.len) {
            Ok(())
        } else {
            Err(Error::InvalidArgument)
        }
    }

    /// The number of clear bits among the first `len` bits of `bitmap`.
    pub fn count_free(bitmap: &[u64], len: usize) -> (r: usize)
        requires
            entry_count(len as int) <= bitmap@.len(),
        ensures
            r == free_count(bitmap@, len as int),
    {
        let mut count: usize = 0;
        let mut number: usize = 0;
        while number < len
            invariant
                number <= len,
                entry_count(len as int) <= bitmap@.len(),
                count == free_count(bitmap@, number as int),
            decreases len - number,
        {
            proof {
                lemma_free_count_bounds(bitmap@, number as int);
                lemma_bit_position(number as int);
                assert(number / 64 < entry_count(len as int));
            }
            if !Self::bit(bitmap, number) {
                count = count + 1;
            }
            number = number + 1;
        }
        count
    }

    /// Whether bit `number` of `bitmap` is set.
    fn bit(bitmap: &[u64], number: usize) -> (r: bool)
        requires
            number / 64 < bitmap@.len(),
        ensures
            r == bit_of(bitmap@, number as int),
    {
        let shift = (number % Self::BITS_PER_ENTRY) as u64;
        proof {
            lemma_mask_bit(bitmap@[number as int / 64], shift);
        }
        bitmap[number / Self::BITS_PER_ENTRY] & (1u64 << shift) != 0
    }
}

} // verus!
