use vstd::prelude::*;

use crate::error::Result;
use crate::memory::addr::{moved_result, Tag, Virt, VirtTag};
use crate::memory::block::{from_index_result, Block};

verus! {

/// The least context of a process: its instruction pointer and its stack pointer.
#[derive(Clone, Copy, Debug, Default, PartialEq, Eq)]
pub struct MiniContext {
    /// The instruction pointer.
    rip: Virt,
    /// The stack pointer.
    rsp: Virt,
}

impl MiniContext {
    /// The instruction pointer.
    pub closed spec fn spec_rip(&self) -> Virt {
        self.rip
    }

    /// The stack pointer.
    pub closed spec fn spec_rsp(&self) -> Virt {
        self.rsp
    }

    /// The context with the instruction pointer `rip` and the stack pointer `rsp`.
    pub fn new(rip: Virt, rsp: Virt) -> (r: Self)
        ensures
            r.spec_rip() == rip,
            r.spec_rsp() == rsp,
    {
        MiniContext { rip, rsp }
    }

    /// The instruction pointer.
    pub fn rip(&self) -> (r: Virt)
        ensures
            r == self.spec_rip(),
    {
        self.rip
    }

    /// The stack pointer.
    pub fn rsp(&self) -> (r: Virt)
        ensures
            r == self.spec_rsp(),
    {
        self.rsp
    }

    /// Reserves room for a value of type `T` on the stack: moves the stack pointer down by
    /// its size and returns the block of addresses between the new and the old stack pointer.
    /// Where the stack pointer cannot move, returns the error and leaves it unchanged.
    pub fn push<T>(&mut self) -> (r: Result<Block<Virt>>)
        requires
            old(self).spec_rsp().is_valid(),
        ensures
            final(self).spec_rip() == old(self).spec_rip(),
            ({
                let target = old(self).spec_rsp()@ - vstd::layout::size_of::<T>();
                match r {
                    Ok(b) => {
                        &&& moved_result::<VirtTag>(Ok(final(self).spec_rsp()), old(self).spec_rsp()@, target)
                        &&& b@ == (final(self).spec_rsp()@ as int, old(self).spec_rsp()@ as int)
                    },
                    Err(e) => {
                        &&& final(self).spec_rsp() == old(self).spec_rsp()
                        &&& moved_result::<VirtTag>(Err(e), old(self).spec_rsp()@, target)
                    },
                }
            }),
    {
        let old_rsp = self.rsp;
        let size = core::mem::size_of::<T>();
        let new_rsp = match old_rsp - size {
            Ok(a) => a,
            Err(e) => return Err(e),
        };
        self.rsp = new_rsp;
        proof {
            VirtTag::lemma_align();
            VirtTag::lemma_same_half_equivalence(new_rsp@, old_rsp@, old_rsp@);
            if new_rsp@ < old_rsp@ {
                VirtTag::lemma_between(new_rsp@, (old_rsp@ - 1) as usize, old_rsp@);
            }
            assert(new_rsp@ as int * 1 == new_rsp@ as int);
            assert((old_rsp@ - 1) * 1 == old_rsp@ - 1);
            assert(old_rsp@ as int * 1 == old_rsp@ as int);
        }
        let r = Block::new(new_rsp, old_rsp);
        r
    }
}

} // verus!
