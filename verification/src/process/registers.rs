use vstd::prelude::*;

use crate::error::{Error, Result};
use crate::text::{
    ascii_chars, ascii_string, is_ascii_text, lemma_ascii_concat, push_bytes,
};

verus! {

/// Every flag that the RFLAGS register defines: bits 0, 2, 4, 6 to 14 and 16 to 21.
pub const RFLAGS_ALL: usize = 0x3F_7FD5;

/// The flag that enables interrupts.
pub const RFLAGS_INTERRUPT_FLAG: usize = 0x200;

/// The flag that enables single stepping.
pub const RFLAGS_TRAP_FLAG: usize = 0x100;

/// The value of the RFLAGS register of a process.
#[derive(Clone, Copy, Debug, Default, PartialEq, Eq, Structural)]
pub struct RFlags(pub usize);

impl RFlags {
    /// Every flag that the register defines.
    pub fn all() -> (r: Self)
        ensures
            r.0 == RFLAGS_ALL,
    {
        RFlags(RFLAGS_ALL)
    }

    /// The flag that enables interrupts.
    pub fn interrupt_flag() -> (r: Self)
        ensures
            r.0 == RFLAGS_INTERRUPT_FLAG,
    {
        RFlags(RFLAGS_INTERRUPT_FLAG)
    }

    /// The flag that enables single stepping.
    pub fn trap_flag() -> (r: Self)
        ensures
            r.0 == RFLAGS_TRAP_FLAG,
    {
        RFlags(RFLAGS_TRAP_FLAG)
    }

    /// Whether all of `flags` are set.
    pub fn contains(&self, flags: RFlags) -> (r: bool)
        ensures
            r == (self.0 & flags.0 == flags.0),
    {
        self.0 & flags.0 == flags.0
    }

    /// The I/O privilege level: bits 12 and 13.
    pub fn iopl(&self) -> (r: usize)
        ensures
            r == (self.0 / 0x1000) % 4,
    {
        let v = self.0;
        let r = (v >> 12u32) & 0b11;
        assert(r == (v / 0x1000) % 4) by (bit_vector)
            requires r == (v >> 12u32) & 0b11;
        r
    }

    /// The bits of the register.
    pub fn into_usize(&self) -> (r: usize)
        ensures
            r == self.0,
    {
        self.0
    }

    /// The register value of the bits `rflags`.
    /// Returns `Error::InvalidArgument` where a bit is set that names no flag.
    pub fn try_from_usize(rflags: usize) -> (r: Result<Self>)
        ensures
            rflags & !RFLAGS_ALL == 0 ==> r == Ok::<RFlags, Error>(RFlags(rflags)),
            rflags & !RFLAGS_ALL != 0 ==> r == Err::<RFlags, Error>(Error::InvalidArgument),
    {
        if rflags & !RFLAGS_ALL == 0 {
            Ok(RFlags(rflags))
        } else {
            Err(Error::InvalidArgument)
        }
    }

    /// The bits of both.
    pub fn union(self, other: RFlags) -> (r: Self)
        ensures
            r.0 == self.0 | other.0,
    {
        RFlags(self.0 | other.0)
    }

    /// The bits that both have.
    pub fn intersection(self, other: RFlags) -> (r: Self)
        ensures
            r.0 == self.0 & other.0,
    {
        RFlags(self.0 & other.0)
    }

    /// The bits that exactly one of them has.
    pub fn symmetric_difference(self, other: RFlags) -> (r: Self)
        ensures
            r.0 == self.0 ^ other.0,
    {
        RFlags(self.0 ^ other.0)
    }

    /// The defined flags that are not set.
    pub fn complement(self) -> (r: Self)
        ensures
            r.0 == RFLAGS_ALL & !self.0,
    {
        RFlags(RFLAGS_ALL & !self.0)
    }

    /// The text of the register: see [`rflags_text`]; for example `IF ZF PF IOPL-3`.
    pub fn to_string(&self) -> (r: String)
        ensures
            r@ == ascii_chars(rflags_text(self.0)),
    {
        let mut text: Vec<u8> = Vec::new();
        let mut started = false;
        let mut index: usize = RFLAGS_NAMED_BITS;
        while index > 0
            invariant
                index <= RFLAGS_NAMED_BITS,
                text@ == join_words(rflags_words_from(self.0, index as int)),
                started == (rflags_words_from(self.0, index as int).len() > 0),
                is_ascii_text(text@),
            decreases index,
        {
            let bit = index - 1;
            let name = rflags_flag_name_code(bit);
            let ghost words = rflags_words_from(self.0, index as int);
            if self.0 & (1usize << bit) != 0 && name.len() > 0 {
                if started {
                    text.push(32);
                }
                proof {
                    lemma_rflags_flag_name_ascii(bit as int);
                    lemma_join_push(words, name@);
                }
                let ghost before = text@;
                push_bytes(&mut text, &name);
                proof {
                    if words.len() > 0 {
                        assert(before =~= join_words(words) + seq![32u8]);
                    }
                    lemma_ascii_concat(before, name@);
                }
                started = true;
            }
            index = bit;
        }
        let iopl = self.iopl();
        if iopl != 0 {
            let ghost words = rflags_words_from(self.0, 0);
            let ghost before = text@;
            if started {
                text.push(32);
            }
            let word = iopl_word(iopl);
            proof {
                lemma_join_push(words, word@);
                assert(is_ascii_text(word@));
                if words.len() > 0 {
                    assert(text@ =~= join_words(words) + seq![32u8]);
                }
                lemma_ascii_concat(text@, word@);
            }
            push_bytes(&mut text, &word);
        }
        ascii_string(text)
    }
}

/// Number of low bits of the register that may carry a flag name.
pub const RFLAGS_NAMED_BITS: usize = 22;

/// The usual abbreviation of the flag in bit `bit`, as ASCII codes; empty for a bit that has none.
pub open spec fn rflags_flag_name(bit: int) -> Seq<u8> {
    if bit == 0 {
        seq![67u8, 70u8]
    } else if bit == 2 {
        seq![80u8, 70u8]
    } else if bit == 4 {
        seq![65u8, 70u8]
    } else if bit == 6 {
        seq![90u8, 70u8]
    } else if bit == 7 {
        seq![83u8, 70u8]
    } else if bit == 8 {
        seq![84u8, 70u8]
    } else if bit == 9 {
        seq![73u8, 70u8]
    } else if bit == 10 {
        seq![68u8, 70u8]
    } else if bit == 11 {
        seq![79u8, 70u8]
    } else if bit == 14 {
        seq![78u8, 84u8]
    } else if bit == 16 {
        seq![82u8, 70u8]
    } else if bit == 17 {
        seq![86u8, 77u8]
    } else if bit == 18 {
        seq![65u8, 67u8]
    } else if bit == 19 {
        seq![86u8, 70u8]
    } else if bit == 20 {
        seq![86u8, 80u8]
    } else if bit == 21 {
        seq![73u8, 68u8]
    } else {
        Seq::empty()
    }
}

/// Whether bit `bit` of `bits` is set and names a flag.
pub open spec fn rflags_named_bit_set(bits: usize, bit: int) -> bool {
    bits & (1usize << (bit as usize)) != 0 && rflags_flag_name(bit).len() > 0
}

/// The abbreviations of the named flags set in `bits` among the bits from
/// `RFLAGS_NAMED_BITS - 1` down to `bit`, highest first.
pub open spec fn rflags_words_from(bits: usize, bit: int) -> Seq<Seq<u8>>
    decreases RFLAGS_NAMED_BITS - bit,
{
    if bit >= RFLAGS_NAMED_BITS || bit < 0 {
        Seq::empty()
    } else if rflags_named_bit_set(bits, bit) {
        rflags_words_from(bits, bit + 1).push(rflags_flag_name(bit))
    } else {
        rflags_words_from(bits, bit + 1)
    }
}

/// The word of a nonzero I/O privilege level `iopl`: `IOPL-` and the level.
pub open spec fn iopl_text(iopl: int) -> Seq<u8> {
    seq![73u8, 79u8, 80u8, 76u8, 45u8, (48 + iopl) as u8]
}

/// The words of the text of the register `bits`: the abbreviations of its named flags that
/// are set, highest bit first, then `IOPL-` and the I/O privilege level where it is not zero.
pub open spec fn rflags_words(bits: usize) -> Seq<Seq<u8>> {
    let iopl = (bits / 0x1000) % 4;
    if iopl != 0 {
        rflags_words_from(bits, 0).push(iopl_text(iopl as int))
    } else {
        rflags_words_from(bits, 0)
    }
}

/// The words of `words` separated by single spaces.
pub open spec fn join_words(words: Seq<Seq<u8>>) -> Seq<u8>
    decreases words.len(),
{
    if words.len() == 0 {
        Seq::empty()
    } else if words.len() == 1 {
        words[0]
    } else {
        join_words(words.drop_last()) + seq![32u8] + words.last()
    }
}

/// The text of the register `bits`: its [words](rflags_words) separated by single spaces.
pub open spec fn rflags_text(bits: usize) -> Seq<u8> {
    join_words(rflags_words(bits))
}

/// Joining one more word appends a space, where words were there before, and the word.
proof fn lemma_join_push(words: Seq<Seq<u8>>, word: Seq<u8>)
    ensures
        words.len() == 0 ==> join_words(words.push(word)) == word,
        words.len() > 0 ==> join_words(words.push(word)) == join_words(words) + seq![32u8]
            + word,
{
    assert(words.push(word).drop_last() =~= words);
    if words.len() == 0 {
        assert(words.push(word)[0] == word);
    }
}

/// The abbreviations are ASCII text.
proof fn lemma_rflags_flag_name_ascii(bit: int)
    ensures
        is_ascii_text(rflags_flag_name(bit)),
{
}

/// The abbreviation of the flag in bit `bit`, as ASCII codes.
fn rflags_flag_name_code(bit: usize) -> (r: Vec<u8>)
    ensures
        r@ == rflags_flag_name(bit as int),
{
    let r: Vec<u8> = if bit == 0 {
        vec![67, 70]
    } else if bit == 2 {
        vec![80, 70]
    } else if bit == 4 {
        vec![65, 70]
    } else if bit == 6 {
        vec![90, 70]
    } else if bit == 7 {
        vec![83, 70]
    } else if bit == 8 {
        vec![84, 70]
    } else if bit == 9 {
        vec![73, 70]
    } else if bit == 10 {
        vec![68, 70]
    } else if bit == 11 {
        vec![79, 70]
    } else if bit == 14 {
        vec![78, 84]
    } else if bit == 16 {
        vec![82, 70]
    } else if bit == 17 {
        vec![86, 77]
    } else if bit == 18 {
        vec![65, 67]
    } else if bit == 19 {
        vec![86, 70]
    } else if bit == 20 {
        vec![86, 80]
    } else if bit == 21 {
        vec![73, 68]
    } else {
        Vec::new()
    };
    assert(r@ =~= rflags_flag_name(bit as int));
    r
}

/// The word of a nonzero I/O privilege level.
fn iopl_word(iopl: usize) -> (r: Vec<u8>)
    requires
        1 <= iopl <= 3,
    ensures
        r@ == iopl_text(iopl as int),
{
    let r: Vec<u8> = vec![73, 79, 80, 76, 45, 48 + iopl as u8];
    assert(r@ =~= iopl_text(iopl as int));
    r
}

} // verus!
