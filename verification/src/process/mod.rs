//! Processes: identifiers, states, system calls, traps and the registers they save.

use vstd::prelude::*;

pub mod elf;
pub mod mini_context;
pub mod pid;
pub mod registers;
pub mod syscall;
pub mod trap_info;

pub use mini_context::MiniContext;
pub use pid::Pid;
pub use registers::RFlags;
pub use syscall::{ExitCode, ResultCode, Syscall};
pub use trap_info::{Info, Trap, TrapInfo};

verus! {

/// The state of a process.
#[derive(Clone, Copy, Debug, PartialEq, Eq, Structural)]
pub enum State {
    /// Made by `exofork` and not yet ready to run.
    Exofork,
    /// Ready to run.
    Runnable,
    /// Running.
    Running,
}

/// The number of a state.
pub open spec fn state_number(state: State) -> int {
    match state {
        State::Exofork => 0,
        State::Runnable => 1,
        State::Running => 2,
    }
}

impl State {
    /// The number of the state.
    pub fn into_usize(self) -> (r: usize)
        ensures
            r == state_number(self),
    {
        match self {
            State::Exofork => 0,
            State::Runnable => 1,
            State::Running => 2,
        }
    }

    /// The state of number `number`, or `None` where no state has it.
    pub fn try_from_usize(number: usize) -> (r: Option<Self>)
        ensures
            match r {
                Some(s) => state_number(s) == number,
                None => number > 2,
            },
    {
        match number {
            0 => Some(State::Exofork),
            1 => Some(State::Runnable),
            2 => Some(State::Running),
            _ => None,
        }
    }
}

} // verus!
