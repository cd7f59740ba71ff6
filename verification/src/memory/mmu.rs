use vstd::prelude::*;

use crate::error::{Error, Result};
use crate::text::{
    ascii_chars, ascii_string, hex_digits, is_ascii_text, lemma_ascii_concat, lemma_hex_digits_ascii,
    push_hex_digits,
};

use super::addr::{Addr, Phys, PhysTag, Tag, PHYS_END, is_page_size};
use super::frage::{ElasticFrame, Frage, Frame};

verus! {

/// The flags of a page table entry, with `EXECUTABLE` standing for the cleared no-execute bit.
#[derive(Clone, Copy, Debug, Default, PartialEq, Eq, Structural)]
pub struct PageTableFlags(u64);

impl View for PageTableFlags {
    type V = u64;

    closed spec fn view(&self) -> u64 {
        self.0
    }
}

/// The bits that page table flags may hold: bits 0 to 11 and bit 63.
pub const PAGE_TABLE_FLAGS_ALL: u64 = 0x8000_0000_0000_0FFF;

/// The mask of the frame address in a page table entry: bits 12 to 51.
pub const ADDRESS_MASK: u64 = 0x000F_FFFF_FFFF_F000;

/// The no-execute bit of a page table entry and the `EXECUTABLE` flag.
pub const EXECUTABLE_BIT: u64 = 0x8000_0000_0000_0000;

impl PageTableFlags {
    /// The page is present.
    pub fn present() -> (r: PageTableFlags)
        ensures
            r@ == 1,
    {
        PageTableFlags(1)
    }
    /// The page is writable.
    pub fn writable() -> (r: PageTableFlags)
        ensures
            r@ == 2,
    {
        PageTableFlags(2)
    }
    /// The page is accessible from user space.
    pub fn user() -> (r: PageTableFlags)
        ensures
            r@ == 4,
    {
        PageTableFlags(4)
    }
    /// Writes go through the cache.
    pub fn write_through() -> (r: PageTableFlags)
        ensures
            r@ == 8,
    {
        PageTableFlags(8)
    }
    /// The page is not cached.
    pub fn no_cache() -> (r: PageTableFlags)
        ensures
            r@ == 0x10,
    {
        PageTableFlags(0x10)
    }
    /// The page has been accessed.
    pub fn accessed() -> (r: PageTableFlags)
        ensures
            r@ == 0x20,
    {
        PageTableFlags(0x20)
    }
    /// The page has been written to.
    pub fn dirty() -> (r: PageTableFlags)
        ensures
            r@ == 0x40,
    {
        PageTableFlags(0x40)
    }
    /// The entry maps a huge page.
    pub fn huge() -> (r: PageTableFlags)
        ensures
            r@ == 0x80,
    {
        PageTableFlags(0x80)
    }
    /// The mapping is global.
    pub fn global() -> (r: PageTableFlags)
        ensures
            r@ == 0x100,
    {
        PageTableFlags(0x100)
    }
    /// The bits available to the operating system.
    pub fn available() -> (r: PageTableFlags)
        ensures
            r@ == 0xE00,
    {
        PageTableFlags(0xE00)
    }
    /// The first bit available to the operating system.
    pub fn available_0() -> (r: PageTableFlags)
        ensures
            r@ == 0x200,
    {
        PageTableFlags(0x200)
    }
    /// The second bit available to the operating system.
    pub fn available_1() -> (r: PageTableFlags)
        ensures
            r@ == 0x400,
    {
        PageTableFlags(0x400)
    }
    /// The third bit available to the operating system.
    pub fn available_2() -> (r: PageTableFlags)
        ensures
            r@ == 0x800,
    {
        PageTableFlags(0x800)
    }
    /// The page is copied on write.
    pub fn copy_on_write() -> (r: PageTableFlags)
        ensures
            r@ == 0x200,
    {
        PageTableFlags(0x200)
    }
    /// The page is executable.
    pub fn executable() -> (r: PageTableFlags)
        ensures
            r@ == 0x8000_0000_0000_0000,
    {
        PageTableFlags(0x8000_0000_0000_0000)
    }

    /// Whether the flags hold only known bits.
    pub open spec fn is_valid(self) -> bool {
        self@ & !PAGE_TABLE_FLAGS_ALL == 0
    }

    /// The flags of the bits `bits`, or `None` where `bits` holds an unknown bit.
    pub fn from_bits(bits: u64) -> (r: Option<Self>)
        ensures
            bits & !PAGE_TABLE_FLAGS_ALL == 0 ==> (r matches Some(f) && f@ == bits),
            bits & !PAGE_TABLE_FLAGS_ALL != 0 ==> r is None,
    {
        if bits & !PAGE_TABLE_FLAGS_ALL == 0 {
            Some(PageTableFlags(bits))
        } else {
            None
        }
    }

    /// The flags of the known bits of `bits`.
    pub fn from_bits_truncate(bits: u64) -> (r: Self)
        ensures
            r@ == bits & PAGE_TABLE_FLAGS_ALL,
    {
        PageTableFlags(bits & PAGE_TABLE_FLAGS_ALL)
    }

    /// No flags.
    pub fn empty() -> (r: Self)
        ensures
            r@ == 0,
    {
        PageTableFlags(0)
    }

    /// The bits of the flags.
    pub fn bits(&self) -> (r: u64)
        ensures
            r == self@,
    {
        self.0
    }

    /// Whether no flag is set.
    pub fn is_empty(&self) -> (r: bool)
        ensures
            r == (self@ == 0),
    {
        self.0 == 0
    }

    /// Whether all flags of `other` are set.
    pub fn contains(&self, other: Self) -> (r: bool)
        ensures
            r == (self@ & other@ == other@),
    {
        self.0 & other.0 == other.0
    }

    /// The flags set in either.
    pub fn union(self, other: Self) -> (r: Self)
        ensures
            r@ == self@ | other@,
    {
        PageTableFlags(self.0 | other.0)
    }

    /// The flags set in both.
    pub fn intersection(self, other: Self) -> (r: Self)
        ensures
            r@ == self@ & other@,
    {
        PageTableFlags(self.0 & other.0)
    }

    /// The flags set in exactly one of them.
    pub fn symmetric_difference(self, other: Self) -> (r: Self)
        ensures
            r@ == self@ ^ other@,
    {
        PageTableFlags(self.0 ^ other.0)
    }

    /// Whether the page has been written to.
    pub fn is_dirty(&self) -> (r: bool)
        ensures
            r == (self@ & 0x40 == 0x40),
    {
        self.contains(Self::dirty())
    }

    /// Whether the page is executable.
    pub fn is_executable(&self) -> (r: bool)
        ensures
            r == (self@ & EXECUTABLE_BIT == EXECUTABLE_BIT),
    {
        self.contains(Self::executable())
    }

    /// Whether the entry maps a huge page.
    pub fn is_huge(&self) -> (r: bool)
        ensures
            r == (self@ & 0x80 == 0x80),
    {
        self.contains(Self::huge())
    }

    /// Whether the page is present.
    pub fn is_present(&self) -> (r: bool)
        ensures
            r == (self@ & 1 == 1),
    {
        self.contains(Self::present())
    }

    /// Whether the page is writable.
    pub fn is_writable(&self) -> (r: bool)
        ensures
            r == (self@ & 2 == 2),
    {
        self.contains(Self::writable())
    }

    /// Whether the page is accessible from user space.
    pub fn is_user(&self) -> (r: bool)
        ensures
            r == (self@ & 4 == 4),
    {
        self.contains(Self::user())
    }

    /// The text of the flags: see [`flags_text`]; for example `---G--A---W-P(0x8000000000000123)`
    /// for the present, writable, accessed, global and non-executable flags.
    pub fn to_string(&self) -> (r: String)
        ensures
            r@ == ascii_chars(flags_text(self@)),
    {
        let mut text: Vec<u8> = Vec::new();
        let mut index: usize = 0;
        while index < FLAG_SYMBOL_COUNT
            invariant
                index <= FLAG_SYMBOL_COUNT,
                text@ =~= flag_marks(self@).subrange(0, index as int),
            decreases FLAG_SYMBOL_COUNT - index,
        {
            let (mask, symbol) = flag_symbol(FLAG_SYMBOL_COUNT - 1 - index);
            if self.0 & mask == mask {
                text.push(symbol);
            } else {
                text.push(45);
            }
            index = index + 1;
        }
        text.push(40);
        text.push(48);
        text.push(120);
        push_hex_digits(&mut text, self.0 ^ EXECUTABLE_BIT);
        text.push(41);
        proof {
            let marks = flag_marks(self@);
            let digits = hex_digits((self@ ^ EXECUTABLE_BIT) as nat);
            assert(text@ =~= flags_text(self@));
            assert(is_ascii_text(marks));
            assert(is_ascii_text(seq![40u8, 48u8, 120u8]));
            assert(is_ascii_text(seq![41u8]));
            lemma_hex_digits_ascii((self@ ^ EXECUTABLE_BIT) as nat);
            lemma_ascii_concat(marks, seq![40u8, 48u8, 120u8]);
            lemma_ascii_concat(marks + seq![40u8, 48u8, 120u8], digits);
            lemma_ascii_concat(marks + seq![40u8, 48u8, 120u8] + digits, seq![41u8]);
        }
        ascii_string(text)
    }
}

/// Number of flags that have a letter in the text of page table flags.
pub const FLAG_SYMBOL_COUNT: usize = 13;

/// The mask of the flag number `index` of the text of page table flags,
/// counted from the rightmost letter.
pub open spec fn flag_symbol_mask(index: int) -> u64 {
    if index == 0 {
        1
    } else if index == 1 {
        EXECUTABLE_BIT
    } else if index == 2 {
        2
    } else if index == 3 {
        4
    } else if index == 4 {
        8
    } else if index == 5 {
        0x10
    } else if index == 6 {
        0x20
    } else if index == 7 {
        0x40
    } else if index == 8 {
        0x80
    } else if index == 9 {
        0x100
    } else if index == 10 {
        0x200
    } else if index == 11 {
        0x400
    } else {
        0x800
    }
}

/// The letter, as an ASCII code, of the flag number `index` of the text of page table flags,
/// counted from the rightmost letter: `P`resent, e`X`ecutable, `W`ritable, `U`ser,
/// write `T`hrough, no `C`ache, `A`ccessed, `D`irty, `H`uge, `G`lobal and the available
/// bits `0`, `1`, `2`.
pub open spec fn flag_symbol_letter(index: int) -> u8 {
    if index == 0 {
        80
    } else if index == 1 {
        88
    } else if index == 2 {
        87
    } else if index == 3 {
        85
    } else if index == 4 {
        84
    } else if index == 5 {
        67
    } else if index == 6 {
        65
    } else if index == 7 {
        68
    } else if index == 8 {
        72
    } else if index == 9 {
        71
    } else if index == 10 {
        48
    } else if index == 11 {
        49
    } else {
        50
    }
}

/// The letters of the flags in `bits`, leftmost first: the letter of each flag that is set,
/// `-` for each flag that is not.
pub open spec fn flag_marks(bits: u64) -> Seq<u8> {
    Seq::new(
        FLAG_SYMBOL_COUNT as nat,
        |i: int|
            {
                let index = FLAG_SYMBOL_COUNT - 1 - i;
                if bits & flag_symbol_mask(index) == flag_symbol_mask(index) {
                    flag_symbol_letter(index)
                } else {
                    45u8
                }
            },
    )
}

/// The text of page table flags `bits`: the letters of [`flag_marks`], then in brackets the
/// bits with the no-execute bit in place of `EXECUTABLE`, in hexadecimal after `0x`.
pub open spec fn flags_text(bits: u64) -> Seq<u8> {
    flag_marks(bits) + seq![40u8, 48u8, 120u8] + hex_digits((bits ^ EXECUTABLE_BIT) as nat)
        + seq![41u8]
}

/// The mask and the letter of the flag number `index` of the text of page table flags.
fn flag_symbol(index: usize) -> (r: (u64, u8))
    requires
        index < FLAG_SYMBOL_COUNT,
    ensures
        r == (flag_symbol_mask(index as int), flag_symbol_letter(index as int)),
{
    if index == 0 {
        (1, 80)
    } else if index == 1 {
        (EXECUTABLE_BIT, 88)
    } else if index == 2 {
        (2, 87)
    } else if index == 3 {
        (4, 85)
    } else if index == 4 {
        (8, 84)
    } else if index == 5 {
        (0x10, 67)
    } else if index == 6 {
        (0x20, 65)
    } else if index == 7 {
        (0x40, 68)
    } else if index == 8 {
        (0x80, 72)
    } else if index == 9 {
        (0x100, 71)
    } else if index == 10 {
        (0x200, 48)
    } else if index == 11 {
        (0x400, 49)
    } else {
        (0x800, 50)
    }
}

/// An entry of a page table node: the address of a frame and the flags of the mapping,
/// with bit 63 the no-execute bit.
#[derive(Clone, Copy, Debug, Default, PartialEq, Eq, Structural)]
pub struct PageTableEntry(u64);

impl View for PageTableEntry {
    type V = u64;

    closed spec fn view(&self) -> u64 {
        self.0
    }
}

/// The flags that an entry with the bits `entry` holds.
pub open spec fn entry_flags(entry: u64) -> u64 {
    (entry & !ADDRESS_MASK) ^ EXECUTABLE_BIT
}

/// Reading the flags of an entry gives back the flags last stored in it, and keeps its frame:
/// after `set_flags(f)` the flags are `f`; after `set_frame` they are `f` and present; after
/// `set_huge_frame` also huge. In the entry itself the bit of `EXECUTABLE` is the hardware's
/// no-execute bit, set exactly where the flags are not executable.
pub proof fn lemma_entry_flags_round_trip(entry: u64, flags: u64, frame: u64)
    requires
        flags & !PAGE_TABLE_FLAGS_ALL == 0,
        frame & !ADDRESS_MASK == 0,
    ensures
        entry_flags(entry_address(entry) | (flags ^ EXECUTABLE_BIT)) == flags,
        entry_address(entry_address(entry) | (flags ^ EXECUTABLE_BIT)) == entry_address(entry),
        entry_flags(frame | ((flags | 1) ^ EXECUTABLE_BIT)) == flags | 1,
        entry_address(frame | ((flags | 1) ^ EXECUTABLE_BIT)) == frame,
        entry_flags(frame | ((flags | 0x81) ^ EXECUTABLE_BIT)) == flags | 0x81,
        ((entry_address(entry) | (flags ^ EXECUTABLE_BIT)) & EXECUTABLE_BIT == 0) <==> (flags & EXECUTABLE_BIT != 0),
{
    assert(((entry & 0x000F_FFFF_FFFF_F000u64) | (flags ^ 0x8000_0000_0000_0000u64)) & !0x000F_FFFF_FFFF_F000u64
        ^ 0x8000_0000_0000_0000u64 == flags) by (bit_vector)
        requires flags & !0x8000_0000_0000_0FFFu64 == 0;
    assert(((entry & 0x000F_FFFF_FFFF_F000u64) | (flags ^ 0x8000_0000_0000_0000u64)) & 0x000F_FFFF_FFFF_F000u64
        == entry & 0x000F_FFFF_FFFF_F000u64) by (bit_vector)
        requires flags & !0x8000_0000_0000_0FFFu64 == 0;
    assert((frame | ((flags | 1) ^ 0x8000_0000_0000_0000u64)) & !0x000F_FFFF_FFFF_F000u64
        ^ 0x8000_0000_0000_0000u64 == flags | 1) by (bit_vector)
        requires flags & !0x8000_0000_0000_0FFFu64 == 0, frame & !0x000F_FFFF_FFFF_F000u64 == 0;
    assert((frame | ((flags | 1) ^ 0x8000_0000_0000_0000u64)) & 0x000F_FFFF_FFFF_F000u64 == frame) by (bit_vector)
        requires flags & !0x8000_0000_0000_0FFFu64 == 0, frame & !0x000F_FFFF_FFFF_F000u64 == 0;
    assert((frame | ((flags | 0x81) ^ 0x8000_0000_0000_0000u64)) & !0x000F_FFFF_FFFF_F000u64
        ^ 0x8000_0000_0000_0000u64 == flags | 0x81) by (bit_vector)
        requires flags & !0x8000_0000_0000_0FFFu64 == 0, frame & !0x000F_FFFF_FFFF_F000u64 == 0;
    assert((((entry & 0x000F_FFFF_FFFF_F000u64) | (flags ^ 0x8000_0000_0000_0000u64)) & 0x8000_0000_0000_0000u64 == 0)
        <==> (flags & 0x8000_0000_0000_0000u64 != 0)) by (bit_vector);
}

/// The frame address that an entry with the bits `entry` holds.
pub open spec fn entry_address(entry: u64) -> u64 {
    entry & ADDRESS_MASK
}

impl PageTableEntry {
    /// Whether the entry holds no unknown bits: bits 52 to 62 are clear.
    pub open spec fn is_valid(self) -> bool {
        self@ & 0x7FF0_0000_0000_0000 == 0
    }

    /// The flags of the entry.
    pub fn flags(&self) -> (r: PageTableFlags)
        requires
            self.is_valid(),
        ensures
            r@ == entry_flags(self@),
    {
        let entry = self.0;
        let bits = entry & !ADDRESS_MASK;
        proof {
            assert(bits & !PAGE_TABLE_FLAGS_ALL == 0) by (bit_vector)
                requires
                    bits == entry & !0x000F_FFFF_FFFF_F000u64,
                    entry & 0x7FF0_0000_0000_0000u64 == 0;
        }
        let flags = PageTableFlags::from_bits(bits).expect("the flags of a valid entry are valid");
        flags.symmetric_difference(PageTableFlags::executable())
    }

    /// Sets the flags of the entry to `flags`, keeping its frame address.
    pub fn set_flags(&mut self, flags: PageTableFlags)
        requires
            usize::BITS == 64,
            old(self).is_valid(),
            flags.is_valid(),
        ensures
            final(self)@ == entry_address(old(self)@) | (flags@ ^ EXECUTABLE_BIT),
            final(self).is_valid(),
    {
        let phys = self.phys();
        self.set_phys(phys, flags);
    }

    /// The frame the entry maps.
    /// Returns `Error::NoPage` where the entry is not present.
    pub fn frame(&self) -> (r: Result<Frame>)
        requires
            usize::BITS == 64,
            self.is_valid(),
            entry_flags(self@) & 0x80 == 0,
        ensures
            entry_flags(self@) & 1 == 1 ==> (r matches Ok(f) && f@ == entry_address(self@)),
            entry_flags(self@) & 1 != 1 ==> r == Err::<Frame, Error>(Error::NoPage),
    {
        if self.is_present() {
            let phys = self.phys();
            proof {
                lemma_entry_address(self@);
            }
            Ok(Frame::new(phys).expect("the address in an entry is aligned"))
        } else {
            Err(Error::NoPage)
        }
    }

    /// Maps the frame `frame` with the flags `flags` and the present flag.
    pub fn set_frame(&mut self, frame: Frame, flags: PageTableFlags)
        requires
            frame.is_valid(),
            flags.is_valid(),
            flags@ & 0x80 == 0,
        ensures
            final(self)@ == (frame@ as u64) | ((flags@ | 1) ^ EXECUTABLE_BIT),
            final(self).is_valid(),
    {
        let f = flags.bits();
        proof {
            assert((f | 1) & !0x8000_0000_0000_0FFFu64 == 0) by (bit_vector)
                requires f & !0x8000_0000_0000_0FFFu64 == 0;
        }
        self.set_phys(frame.address(), flags.union(PageTableFlags::present()));
    }

    /// The huge frame of `SIZE` bytes the entry maps.
    /// Returns `Error::NoPage` where the entry is not present.
    pub fn huge_frame<const SIZE: usize>(&self) -> (r: Result<ElasticFrame<SIZE>>)
        requires
            usize::BITS == 64,
            Frage::<PhysTag, SIZE>::type_ok(),
            self.is_valid(),
            entry_flags(self@) & 0x80 == 0x80,
            entry_flags(self@) & 1 == 1 ==> entry_address(self@) as int % SIZE as int == 0,
        ensures
            entry_flags(self@) & 1 == 1 ==> (r matches Ok(f) && f@ == entry_address(self@)),
            entry_flags(self@) & 1 != 1 ==> r == Err::<ElasticFrame<SIZE>, Error>(Error::NoPage),
    {
        if self.is_present() {
            let phys = self.phys();
            Ok(ElasticFrame::<SIZE>::new(phys).expect("a huge frame address in an entry is aligned"))
        } else {
            Err(Error::NoPage)
        }
    }

    /// Maps the huge frame `frame` with the flags `flags` and the huge and the present flags.
    pub fn set_huge_frame<const SIZE: usize>(&mut self, frame: ElasticFrame<SIZE>, flags: PageTableFlags)
        requires
            Frage::<PhysTag, SIZE>::type_ok(),
            frame.is_valid(),
            flags.is_valid(),
        ensures
            final(self)@ == (frame@ as u64) | ((flags@ | 0x81) ^ EXECUTABLE_BIT),
            final(self).is_valid(),
    {
        let f = flags.bits();
        proof {
            assert((f | 0x80) | 1 == f | 0x81 && (f | 0x80) & !0x8000_0000_0000_0FFFu64 == 0
                && ((f | 0x80) | 1) & !0x8000_0000_0000_0FFFu64 == 0) by (bit_vector)
                requires f & !0x8000_0000_0000_0FFFu64 == 0;
        }
        self.set_phys(frame.address(), flags.union(PageTableFlags::huge()).union(PageTableFlags::present()));
    }

    /// The frame address held by the entry.
    fn phys(&self) -> (r: Phys)
        requires
            usize::BITS == 64,
        ensures
            r@ == entry_address(self@),
            r.is_valid(),
    {
        let address = self.0 & ADDRESS_MASK;
        proof {
            lemma_entry_address(self@);
        }
        Addr::from_bits(address as usize)
    }

    /// Sets the entry to the frame address `phys` with the flags `flags`.
    fn set_phys(&mut self, phys: Phys, flags: PageTableFlags)
        requires
            phys.is_valid(),
            flags.is_valid(),
        ensures
            final(self)@ == (phys@ as u64) | (flags@ ^ EXECUTABLE_BIT),
            final(self).is_valid(),
    {
        let address = phys.into_u64();
        let bits = flags.symmetric_difference(PageTableFlags::executable()).bits();
        let f = flags.bits();
        proof {
            assert((address | (f ^ 0x8000_0000_0000_0000u64)) & 0x7FF0_0000_0000_0000u64 == 0) by (bit_vector)
                requires
                    address < 0x0010_0000_0000_0000u64,
                    f & !0x8000_0000_0000_0FFFu64 == 0;
        }
        self.0 = address | bits;
    }

    /// Whether the page has been written to.
    pub fn is_dirty(&self) -> (r: bool)
        requires
            self.is_valid(),
        ensures
            r == (entry_flags(self@) & 0x40 == 0x40),
    {
        self.flags().is_dirty()
    }

    /// Whether the page is executable.
    pub fn is_executable(&self) -> (r: bool)
        requires
            self.is_valid(),
        ensures
            r == (entry_flags(self@) & EXECUTABLE_BIT == EXECUTABLE_BIT),
    {
        self.flags().is_executable()
    }

    /// Whether the entry maps a huge page.
    pub fn is_huge(&self) -> (r: bool)
        requires
            self.is_valid(),
        ensures
            r == (entry_flags(self@) & 0x80 == 0x80),
    {
        self.flags().is_huge()
    }

    /// Whether the page is present.
    pub fn is_present(&self) -> (r: bool)
        requires
            self.is_valid(),
        ensures
            r == (entry_flags(self@) & 1 == 1),
    {
        self.flags().is_present()
    }

    /// Whether the page is writable.
    pub fn is_writable(&self) -> (r: bool)
        requires
            self.is_valid(),
        ensures
            r == (entry_flags(self@) & 2 == 2),
    {
        self.flags().is_writable()
    }

    /// Whether the page is accessible from user space.
    pub fn is_user(&self) -> (r: bool)
        requires
            self.is_valid(),
        ensures
            r == (entry_flags(self@) & 4 == 4),
    {
        self.flags().is_user()
    }

    /// Clears the entry.
    pub fn clear(&mut self)
        ensures
            final(self)@ == 0,
    {
        self.0 = 0;
    }

    /// Clears the entry and returns the frame it mapped.
    /// Returns `Error::NoPage`, leaving the entry as it was, where it is not present.
    pub fn take(&mut self) -> (r: Result<Frame>)
        requires
            usize::BITS == 64,
            old(self).is_valid(),
            entry_flags(old(self)@) & 0x80 == 0,
        ensures
            entry_flags(old(self)@) & 1 == 1 ==> (r matches Ok(f) && f@ == entry_address(old(self)@)
                && final(self)@ == 0),
            entry_flags(old(self)@) & 1 != 1 ==> (r == Err::<Frame, Error>(Error::NoPage)
                && final(self)@ == old(self)@),
    {
        if self.is_present() {
            let phys = self.phys();
            self.clear();
            proof {
                lemma_entry_address(old(self)@);
            }
            Ok(Frame::new(phys).expect("the address in an entry is aligned"))
        } else {
            Err(Error::NoPage)
        }
    }
}

/// The frame address of an entry is a valid physical address aligned to 4 KiB.
proof fn lemma_entry_address(entry: u64)
    ensures
        entry_address(entry) < PHYS_END,
        entry_address(entry) % 4096 == 0,
{
    let a = entry & 0x000F_FFFF_FFFF_F000u64;
    assert(a < 0x0010_0000_0000_0000u64 && a % 4096 == 0) by (bit_vector)
        requires a == entry & 0x000F_FFFF_FFFF_F000u64;
}

/// Number of bits of the offset inside a 4 KiB page.
pub const PAGE_OFFSET_BITS: u32 = 12;

/// Number of entries in one node of the page table.
pub const PAGE_TABLE_ENTRY_COUNT: usize = 512;

/// Number of address bits that index one node of the page table.
pub const PAGE_TABLE_INDEX_BITS: u32 = 9;

/// Mask that extracts an index into one node of the page table.
pub const PAGE_TABLE_INDEX_MASK: usize = 511;

/// Level of the leaf nodes of the page table.
pub const PAGE_TABLE_LEAF_LEVEL: u32 = 0;

/// Level of the root node of the page table.
pub const PAGE_TABLE_ROOT_LEVEL: u32 = 3;

/// Number of levels of the page table.
pub const PAGE_TABLE_LEVEL_COUNT: usize = 4;

} // verus!
