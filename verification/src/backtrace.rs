//! Stack traces along the chain of frame pointers: each frame holds the address of the frame
//! of its caller and the return address into it.
//!
//! Reading a frame from memory is the caller's part: the trace says which block of memory
//! holds the next frame, and takes the words read there.

use vstd::prelude::*;

use crate::error::{Error, Result};
use crate::memory::addr::{is_canonical, Tag, Virt, VirtTag};
use crate::memory::block::{valid_index, Block};
use crate::memory::frage::Page;
use crate::process::mini_context::MiniContext;

verus! {

/// The size of a stack frame in memory: the two words of `StackFrame`.
pub const STACK_FRAME_SIZE: usize = 16;

/// How much of the stack above the frame pointer a trace searches for frames.
pub const STACK_SIZE: usize = 32 * 4096;

/// A node of the chain of stack frames: the address of the frame of the caller (zero for
/// the outermost frame) and the return address into the caller.
#[derive(Clone, Copy, Debug)]
pub struct StackFrame {
    outer: usize,
    return_address: usize,
}

impl StackFrame {
    /// The address of the frame of the caller.
    pub closed spec fn spec_outer(&self) -> usize {
        self.outer
    }

    /// The return address into the caller.
    pub closed spec fn spec_return_address(&self) -> usize {
        self.return_address
    }

    /// Both words are canonical virtual addresses.
    pub open spec fn wf(&self) -> bool {
        is_canonical(self.spec_outer() as int) && is_canonical(self.spec_return_address() as int)
    }

    /// The frame of the words `outer` and `return_address` read from memory, where both are
    /// valid virtual addresses; `Error::InvalidArgument` otherwise.
    pub fn validate(outer: usize, return_address: usize) -> (r: Result<Self>)
        requires
            usize::BITS == 64,
        ensures
            is_canonical(outer as int) && is_canonical(return_address as int)
                ==> (r matches Ok(f) && f.spec_outer() == outer && f.spec_return_address() == return_address),
            !(is_canonical(outer as int) && is_canonical(return_address as int))
                ==> r == Err::<StackFrame, Error>(Error::InvalidArgument),
    {
        match Virt::new(outer) {
            Ok(_) => {},
            Err(e) => return Err(e),
        }
        match Virt::new(return_address) {
            Ok(_) => {},
            Err(e) => return Err(e),
        }
        Ok(StackFrame { outer, return_address })
    }

    /// The frame that ends a chain.
    pub fn outermost() -> (r: Self)
        ensures
            r.spec_outer() == 0,
            r.spec_return_address() == 0,
            r.wf(),
    {
        StackFrame { outer: 0, return_address: 0 }
    }

    /// The address of the frame of the caller.
    pub fn outer(&self) -> (r: usize)
        ensures
            r == self.spec_outer(),
    {
        self.outer
    }

    /// The return address into the caller.
    pub fn return_address(&self) -> (r: Virt)
        requires
            usize::BITS == 64,
            self.wf(),
        ensures
            r@ == self.spec_return_address(),
    {
        Virt::new(self.return_address).unwrap()
    }

    /// The block of memory that holds the frame of the caller, where it lies in `stack`, at
    /// or above `lower_limit` and in its half of the address space, past the null address;
    /// `None` otherwise. Moves `lower_limit` past that frame where it has one, since the
    /// stack grows down and frames further out lie higher.
    pub fn outer_block(&self, lower_limit: &mut Virt, stack: Block<Virt>) -> (r: Option<Block<Virt>>)
        requires
            usize::BITS == 64,
            self.wf(),
        ensures
            ({
                let o = self.spec_outer() as int;
                let l = old(lower_limit)@ as int;
                if o == 0 || !VirtTag::spec_is_same_half(o as usize, l as usize) || o < l {
                    r is None && *final(lower_limit) == *old(lower_limit)
                } else if o + STACK_FRAME_SIZE > usize::MAX || !is_canonical(o + STACK_FRAME_SIZE)
                    || !VirtTag::spec_is_same_half(o as usize, (o + STACK_FRAME_SIZE) as usize) {
                    r is None && *final(lower_limit) == *old(lower_limit)
                } else {
                    &&& final(lower_limit)@ == o + STACK_FRAME_SIZE
                    &&& stack@.0 <= o && o + STACK_FRAME_SIZE <= stack@.1
                        ==> (r matches Some(b) && b@ == (o, o + STACK_FRAME_SIZE) && b.wf())
                    &&& !(stack@.0 <= o && o + STACK_FRAME_SIZE <= stack@.1) ==> r is None
                }
            }),
    {
        let outer_start = Virt::new(self.outer).unwrap();
        if outer_start.into_usize() == 0 || !VirtTag::is_same_half(outer_start, *lower_limit)
            || outer_start.into_usize() < lower_limit.into_usize() {
            return None;
        }
        let outer_end = match outer_start + STACK_FRAME_SIZE {
            Ok(end) => end,
            Err(_) => return None,
        };
        proof {
            assert(outer_start@ * 1 == outer_start@) by (nonlinear_arith);
            assert(outer_end@ * 1 == outer_end@) by (nonlinear_arith);
            assert((outer_end@ - 1) * 1 == outer_end@ - 1) by (nonlinear_arith);
            VirtTag::lemma_between(outer_start@, (outer_end@ - 1) as usize, outer_end@);
        }
        let outer = match Block::<Virt>::new(outer_start, outer_end) {
            Ok(b) => b,
            Err(_) => return None,
        };
        *lower_limit = outer_end;
        if stack.contains_block(outer) {
            Some(outer)
        } else {
            None
        }
    }
}

/// A stack trace in progress: the lowest address where a frame further out may lie, the
/// part of the stack where frames are searched, and the current frame.
#[derive(Clone, Copy, Debug)]
pub struct Backtrace {
    lower_limit: Virt,
    stack: Block<Virt>,
    stack_frame: StackFrame,
}

/// The block of addresses that a trace from the frame pointer `rbp` searches: the pages that
/// enclose `STACK_SIZE` bytes from it.
pub open spec fn trace_stack(rbp: int) -> (int, int) {
    ((rbp / 4096) * 4096, ((rbp + STACK_SIZE - 1) / 4096 + 1) * 4096)
}

impl Backtrace {
    /// The lowest address where a frame further out may lie.
    pub closed spec fn spec_lower_limit(&self) -> Virt {
        self.lower_limit
    }

    /// The part of the stack where frames are searched.
    pub closed spec fn spec_stack(&self) -> Block<Virt> {
        self.stack
    }

    /// The current frame.
    pub closed spec fn spec_stack_frame(&self) -> StackFrame {
        self.stack_frame
    }

    /// Whether a trace can start at the frame pointer `rbp`: the pages of the stack it
    /// searches are valid and end at a valid address.
    pub open spec fn spec_can_start(rbp: int) -> bool {
        &&& rbp + STACK_SIZE <= usize::MAX
        &&& is_canonical(rbp) && is_canonical(rbp + STACK_SIZE - 1)
        &&& VirtTag::spec_is_same_half(rbp as usize, (rbp + STACK_SIZE - 1) as usize)
        &&& valid_index::<Page>((rbp + STACK_SIZE - 1) / 4096 + 1)
    }

    /// The trace from the frame pointer `rbp`, the stack pointer `rsp` and the innermost
    /// frame `stack_frame`, which searches the stack from `rsp` up, in the pages that hold
    /// `STACK_SIZE` bytes from `rbp`. Returns `Error::InvalidArgument` where `rsp` is no valid
    /// address.
    pub fn new(rbp: usize, rsp: usize, stack_frame: StackFrame) -> (r: Result<Self>)
        requires
            usize::BITS == 64,
            Self::spec_can_start(rbp as int),
        ensures
            is_canonical(rsp as int) ==> (r matches Ok(b) && {
                &&& b.spec_lower_limit()@ == rsp
                &&& b.spec_stack()@ == trace_stack(rbp as int)
                &&& b.spec_stack().wf()
                &&& b.spec_stack_frame() == stack_frame
            }),
            !is_canonical(rsp as int) ==> r == Err::<Backtrace, Error>(Error::InvalidArgument),
    {
        let lower_limit = match Virt::new(rsp) {
            Ok(a) => a,
            Err(e) => return Err(e),
        };
        proof {
            assert(rbp * 1 == rbp) by (nonlinear_arith);
            assert((rbp + STACK_SIZE - 1) * 1 == rbp + STACK_SIZE - 1) by (nonlinear_arith);
            assert(crate::memory::block::valid_block::<Virt>(rbp as int, rbp + STACK_SIZE));
        }
        let addresses = match Block::<Virt>::from_index(rbp, rbp + STACK_SIZE) {
            Ok(b) => b,
            Err(e) => return Err(e),
        };
        let pages = addresses.enclosing();
        let stack = pages.into_addresses();
        Ok(Backtrace { lower_limit, stack, stack_frame })
    }

    /// The trace of a process whose innermost frame is given by the frame pointer `rbp` and
    /// the context `context`: its return address is where the process runs.
    pub fn with_context(rbp: usize, context: MiniContext) -> (r: Result<Self>)
        requires
            usize::BITS == 64,
            Self::spec_can_start(rbp as int),
        ensures
            is_canonical(context.spec_rsp()@ as int) ==> (r matches Ok(b) && {
                &&& b.spec_lower_limit()@ == context.spec_rsp()@
                &&& b.spec_stack()@ == trace_stack(rbp as int)
                &&& b.spec_stack_frame().spec_outer() == rbp
                &&& b.spec_stack_frame().spec_return_address() == context.spec_rip()@
            }),
    {
        let stack_frame = StackFrame { outer: rbp, return_address: context.rip().into_usize() };
        Self::new(rbp, context.rsp().into_usize(), stack_frame)
    }

    /// The trace `backtrace` searching the stack `stack` for frames.
    pub fn with_stack(backtrace: Backtrace, stack: Block<Virt>) -> (r: Self)
        ensures
            r.spec_stack() == stack,
            r.spec_lower_limit() == backtrace.spec_lower_limit(),
            r.spec_stack_frame() == backtrace.spec_stack_frame(),
    {
        Backtrace { stack, ..backtrace }
    }

    /// The current frame.
    pub fn stack_frame(&self) -> (r: StackFrame)
        ensures
            r == self.spec_stack_frame(),
    {
        self.stack_frame
    }

    /// Whether the trace is over: the current frame has no caller.
    pub fn is_over(&self) -> (r: bool)
        ensures
            r == (self.spec_stack_frame().spec_outer() == 0),
    {
        self.stack_frame.outer == 0
    }

    /// The block of memory to read the frame of the caller of the current frame from, as
    /// `StackFrame::outer_block` finds it, moving the lower limit past it.
    pub fn outer_block(&mut self) -> (r: Option<Block<Virt>>)
        requires
            usize::BITS == 64,
            old(self).spec_stack_frame().wf(),
        ensures
            final(self).spec_stack() == old(self).spec_stack(),
            final(self).spec_stack_frame() == old(self).spec_stack_frame(),
            ({
                let o = old(self).spec_stack_frame().spec_outer() as int;
                let l = old(self).spec_lower_limit()@ as int;
                let stack = old(self).spec_stack()@;
                if o == 0 || !VirtTag::spec_is_same_half(o as usize, l as usize) || o < l {
                    r is None && final(self).spec_lower_limit() == old(self).spec_lower_limit()
                } else if o + STACK_FRAME_SIZE > usize::MAX || !is_canonical(o + STACK_FRAME_SIZE)
                    || !VirtTag::spec_is_same_half(o as usize, (o + STACK_FRAME_SIZE) as usize) {
                    r is None && final(self).spec_lower_limit() == old(self).spec_lower_limit()
                } else {
                    &&& final(self).spec_lower_limit()@ == o + STACK_FRAME_SIZE
                    &&& stack.0 <= o && o + STACK_FRAME_SIZE <= stack.1
                        ==> (r matches Some(b) && b@ == (o, o + STACK_FRAME_SIZE) && b.wf())
                    &&& !(stack.0 <= o && o + STACK_FRAME_SIZE <= stack.1) ==> r is None
                }
            }),
    {
        let stack = self.stack;
        let frame = self.stack_frame;
        frame.outer_block(&mut self.lower_limit, stack)
    }

    /// Steps to the caller: the current frame becomes `outer`, the frame read for the
    /// caller, or the outermost frame where none was found. Returns the frame stepped from.
    pub fn advance(&mut self, outer: Option<StackFrame>) -> (r: StackFrame)
        ensures
            r == old(self).spec_stack_frame(),
            outer matches Some(f) ==> final(self).spec_stack_frame() == f,
            outer is None ==> final(self).spec_stack_frame().spec_outer() == 0
                && final(self).spec_stack_frame().spec_return_address() == 0,
            final(self).spec_stack() == old(self).spec_stack(),
            final(self).spec_lower_limit() == old(self).spec_lower_limit(),
    {
        let current = self.stack_frame;
        self.stack_frame = match outer {
            Some(f) => f,
            None => StackFrame::outermost(),
        };
        current
    }
}

} // verus!
