use vstd::prelude::*;

use crate::error::{Error, Result};
use crate::text::{
    ascii_chars, ascii_string, decimal_digits, is_ascii_text, lemma_ascii_concat,
    lemma_decimal_digits_ascii, push_decimal_digits,
};

verus! {

/// A process identifier: either the current process, or a slot of the process table
/// with the epoch of its reuse, so that an old identifier of a reused slot is told apart.
#[derive(Clone, Copy, Debug, PartialEq, Eq, Structural, PartialOrd, Ord)]
pub enum Pid {
    /// The current process.
    Current,
    /// The process in slot `slot` of the table, reused `epoch` times.
    Id {
        /// How many times the slot was reused.
        epoch: u32,
        /// The slot in the process table.
        slot: u16,
    },
}

/// The raw value that stands for the current process.
pub open spec fn current_raw() -> int {
    usize::MAX - 1
}

/// The raw value of a process identifier: the epoch above the 16 bits of the slot.
pub open spec fn raw_of(pid: Pid) -> int {
    match pid {
        Pid::Current => current_raw(),
        Pid::Id { epoch, slot } => epoch as int * 65536 + slot as int,
    }
}

/// The identifier that a raw value stands for, where one does.
pub open spec fn pid_of(raw: int) -> Option<Pid> {
    if raw == current_raw() {
        Some(Pid::Current)
    } else if 0 <= raw && raw / 65536 <= u32::MAX {
        Some(Pid::Id { epoch: (raw / 65536) as u32, slot: (raw % 65536) as u16 })
    } else {
        None
    }
}

impl Pid {
    /// The number of process slots: a slot takes the low 16 bits of a raw identifier.
    pub const MAX_COUNT: usize = 65536;

    /// The identifier of slot `slot` in its first epoch.
    pub fn new(slot: usize) -> (r: Self)
        requires
            slot < Pid::MAX_COUNT,
        ensures
            r == (Pid::Id { epoch: 0, slot: slot as u16 }),
    {
        Pid::Id { epoch: 0, slot: slot as u16 }
    }

    /// The identifier that the raw value `pid` stands for.
    /// Returns `Error::InvalidArgument` where the epoch does not fit in 32 bits.
    pub fn from_usize(pid: usize) -> (r: Result<Self>)
        requires
            usize::BITS == 64,
        ensures
            r == match pid_of(pid as int) {
                Some(p) => Ok::<Pid, Error>(p),
                None => Err(Error::InvalidArgument),
            },
    {
        if pid == usize::MAX - 1 {
            Ok(Pid::Current)
        } else {
            let high = pid >> 16u32;
            let low = pid & 0xFFFF;
            proof {
                assert(high == pid / 65536 && low == pid % 65536) by (bit_vector)
                    requires high == pid >> 16u32, low == pid & 0xFFFF;
            }
            if high <= 0xFFFF_FFFF {
                let result = Pid::Id { epoch: high as u32, slot: low as u16 };
                let raw = result.into_usize();
                assert(raw == pid) by {
                    assert(pid == (pid / 65536) * 65536 + pid % 65536);
                }
                Ok(result)
            } else {
                Err(Error::InvalidArgument)
            }
        }
    }

    /// The raw value of the identifier.
    pub fn into_usize(&self) -> (r: usize)
        requires
            usize::BITS == 64,
        ensures
            r == raw_of(*self),
    {
        match self {
            Pid::Current => usize::MAX - 1,
            Pid::Id { epoch, slot } => {
                let e = *epoch as usize;
                let s = *slot as usize;
                let r = e << 16u32 | s;
                proof {
                    assert(r == e * 65536 + s) by (bit_vector)
                        requires r == e << 16u32 | s, e <= 0xFFFF_FFFF, s <= 0xFFFF, usize::BITS == 64;
                }
                r
            },
        }
    }

    /// The slot of the identifier.
    pub fn slot(&self) -> (r: usize)
        requires
            *self is Id,
        ensures
            r == self->slot,
    {
        match self {
            Pid::Id { slot, .. } => *slot as usize,
            Pid::Current => 0,
        }
    }

    /// Moves the identifier to the next epoch of its slot.
    pub fn next_epoch(&mut self)
        requires
            *old(self) is Id,
            old(self)->epoch < u32::MAX,
        ensures
            *final(self) == (Pid::Id { epoch: (old(self)->epoch + 1) as u32, slot: old(self)->slot }),
    {
        if let Pid::Id { epoch, slot } = *self {
            *self = Pid::Id { epoch: epoch + 1, slot };
        }
    }

    /// The text of the identifier: `<current>`, or the slot and the epoch in decimal
    /// separated by a colon, such as `3:1`.
    pub fn to_string(&self) -> (r: String)
        ensures
            r@ == ascii_chars(pid_text(*self)),
    {
        let mut text: Vec<u8> = Vec::new();
        match self {
            Pid::Current => {
                text.push(60);
                text.push(99);
                text.push(117);
                text.push(114);
                text.push(114);
                text.push(101);
                text.push(110);
                text.push(116);
                text.push(62);
                proof {
                    assert(text@ =~= current_text());
                    assert(is_ascii_text(current_text()));
                }
            },
            Pid::Id { epoch, slot } => {
                push_decimal_digits(&mut text, *slot as u64);
                text.push(58);
                push_decimal_digits(&mut text, *epoch as u64);
                proof {
                    let head = decimal_digits(*slot as nat);
                    let tail = decimal_digits(*epoch as nat);
                    assert(text@ =~= head + seq![58u8] + tail);
                    lemma_decimal_digits_ascii(*slot as nat);
                    lemma_decimal_digits_ascii(*epoch as nat);
                    assert(is_ascii_text(seq![58u8]));
                    lemma_ascii_concat(head, seq![58u8]);
                    lemma_ascii_concat(head + seq![58u8], tail);
                }
            },
        }
        ascii_string(text)
    }
}

/// The text `<current>` as ASCII codes.
pub open spec fn current_text() -> Seq<u8> {
    seq![60u8, 99u8, 117u8, 114u8, 114u8, 101u8, 110u8, 116u8, 62u8]
}

/// The text of the identifier `pid`: `<current>`, or the decimal slot, a colon and the
/// decimal epoch.
pub open spec fn pid_text(pid: Pid) -> Seq<u8> {
    match pid {
        Pid::Current => current_text(),
        Pid::Id { epoch, slot } => decimal_digits(slot as nat) + seq![58u8] + decimal_digits(
            epoch as nat,
        ),
    }
}

/// Reading back the raw value of an identifier gives the identifier.
pub proof fn lemma_raw_round_trip(pid: Pid)
    requires
        usize::BITS == 64,
    ensures
        0 <= raw_of(pid) <= usize::MAX,
        pid_of(raw_of(pid)) == Some(pid),
{
    match pid {
        Pid::Current => {},
        Pid::Id { epoch, slot } => {
            let raw = epoch as int * 65536 + slot as int;
            vstd::arithmetic::div_mod::lemma_fundamental_div_mod_converse(raw, 65536, epoch as int, slot as int);
            assert(raw < current_raw());
        },
    }
}

} // verus!
