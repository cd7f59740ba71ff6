use vstd::prelude::*;

use crate::error::{Error, Result};

verus! {

/// The exit code of a process.
#[derive(Clone, Copy, Debug, PartialEq, Eq, Structural)]
pub enum ExitCode {
    /// A normal exit.
    Normal,
    /// The process panicked.
    Panic,
    /// The process called a system call that is not implemented.
    UnimplementedSyscall,
}

/// The number of an exit code.
pub open spec fn exit_code_number(code: ExitCode) -> int {
    match code {
        ExitCode::Normal => 0,
        ExitCode::Panic => 1,
        ExitCode::UnimplementedSyscall => 2,
    }
}

impl ExitCode {
    /// The number of the exit code.
    pub fn into_usize(self) -> (r: usize)
        ensures
            r == exit_code_number(self),
    {
        match self {
            ExitCode::Normal => 0,
            ExitCode::Panic => 1,
            ExitCode::UnimplementedSyscall => 2,
        }
    }

    /// The exit code of number `number`, or `None` where no exit code has it.
    pub fn try_from_usize(number: usize) -> (r: Option<Self>)
        ensures
            match r {
                Some(c) => exit_code_number(c) == number,
                None => number > 2,
            },
    {
        match number {
            0 => Some(ExitCode::Normal),
            1 => Some(ExitCode::Panic),
            2 => Some(ExitCode::UnimplementedSyscall),
            _ => None,
        }
    }
}

/// A system call.
#[derive(Clone, Copy, Debug, PartialEq, Eq, Structural)]
pub enum Syscall {
    /// Ends the current process.
    Exit,
    /// Logs a value.
    LogValue,
    /// Gives the processor up.
    SchedYield,
    /// Makes a copy of the current process with an empty address space.
    Exofork,
    /// Maps a block of pages.
    MapPages,
    /// Unmaps a block of pages.
    Unmap,
    /// Copies a mapping of pages between address spaces.
    CopyMapping,
    /// Sets the state of a process.
    SetState,
    /// Sets the trap handler of a process.
    SetTrapHandler,
}

/// The number of a system call.
pub open spec fn syscall_number(syscall: Syscall) -> int {
    match syscall {
        Syscall::Exit => 0,
        Syscall::LogValue => 1,
        Syscall::SchedYield => 2,
        Syscall::Exofork => 3,
        Syscall::MapPages => 4,
        Syscall::Unmap => 5,
        Syscall::CopyMapping => 6,
        Syscall::SetState => 7,
        Syscall::SetTrapHandler => 8,
    }
}

impl Syscall {
    /// The number of the system call.
    pub fn into_usize(self) -> (r: usize)
        ensures
            r == syscall_number(self),
    {
        match self {
            Syscall::Exit => 0,
            Syscall::LogValue => 1,
            Syscall::SchedYield => 2,
            Syscall::Exofork => 3,
            Syscall::MapPages => 4,
            Syscall::Unmap => 5,
            Syscall::CopyMapping => 6,
            Syscall::SetState => 7,
            Syscall::SetTrapHandler => 8,
        }
    }

    /// The system call of number `number`, or `None` where no system call has it.
    pub fn try_from_usize(number: usize) -> (r: Option<Self>)
        ensures
            match r {
                Some(s) => syscall_number(s) == number,
                None => number > 8,
            },
    {
        match number {
            0 => Some(Syscall::Exit),
            1 => Some(Syscall::LogValue),
            2 => Some(Syscall::SchedYield),
            3 => Some(Syscall::Exofork),
            4 => Some(Syscall::MapPages),
            5 => Some(Syscall::Unmap),
            6 => Some(Syscall::CopyMapping),
            7 => Some(Syscall::SetState),
            8 => Some(Syscall::SetTrapHandler),
            _ => None,
        }
    }
}

/// The result of a system call, as the kernel hands it back in a register.
#[derive(Clone, Copy, Debug, PartialEq, Eq, Structural)]
pub enum ResultCode {
    /// Success.
    Success,
    /// An error that has no code of its own.
    Unexpected,
    /// `Error::InvalidArgument`.
    InvalidArgument,
    /// `Error::NoFrame`.
    NoFrame,
    /// `Error::NoPage`.
    NoPage,
    /// `Error::NoProcess`.
    NoProcess,
    /// `Error::NoProcessSlot`.
    NoProcessSlot,
    /// `Error::Null`.
    Null,
    /// `Error::Overflow`.
    Overflow,
    /// `Error::PermissionDenied`.
    PermissionDenied,
    /// `Error::Unimplemented`.
    Unimplemented,
    /// `Error::InvalidAlignment`.
    InvalidAlignment,
}

/// The number of a result code.
pub open spec fn result_code_number(code: ResultCode) -> int {
    match code {
        ResultCode::Success => 0,
        ResultCode::Unexpected => 1,
        ResultCode::InvalidArgument => 2,
        ResultCode::NoFrame => 3,
        ResultCode::NoPage => 4,
        ResultCode::NoProcess => 5,
        ResultCode::NoProcessSlot => 6,
        ResultCode::Null => 7,
        ResultCode::Overflow => 8,
        ResultCode::PermissionDenied => 9,
        ResultCode::Unimplemented => 10,
        ResultCode::InvalidAlignment => 11,
    }
}

/// The code of an error: its own where it has one, `Unexpected` for the others.
pub open spec fn error_code(error: Error) -> ResultCode {
    match error {
        Error::InvalidArgument => ResultCode::InvalidArgument,
        Error::NoFrame => ResultCode::NoFrame,
        Error::NoPage => ResultCode::NoPage,
        Error::NoProcess => ResultCode::NoProcess,
        Error::NoProcessSlot => ResultCode::NoProcessSlot,
        Error::Null => ResultCode::Null,
        Error::Overflow => ResultCode::Overflow,
        Error::PermissionDenied => ResultCode::PermissionDenied,
        Error::Unimplemented => ResultCode::Unimplemented,
        Error::InvalidAlignment => ResultCode::InvalidAlignment,
        _ => ResultCode::Unexpected,
    }
}

/// The result that a code stands for; none for `Unexpected`.
pub open spec fn code_result(code: ResultCode) -> Option<Result<()>> {
    match code {
        ResultCode::Success => Some(Ok(())),
        ResultCode::Unexpected => None,
        ResultCode::InvalidArgument => Some(Err(Error::InvalidArgument)),
        ResultCode::NoFrame => Some(Err(Error::NoFrame)),
        ResultCode::NoPage => Some(Err(Error::NoPage)),
        ResultCode::NoProcess => Some(Err(Error::NoProcess)),
        ResultCode::NoProcessSlot => Some(Err(Error::NoProcessSlot)),
        ResultCode::Null => Some(Err(Error::Null)),
        ResultCode::Overflow => Some(Err(Error::Overflow)),
        ResultCode::PermissionDenied => Some(Err(Error::PermissionDenied)),
        ResultCode::Unimplemented => Some(Err(Error::Unimplemented)),
        ResultCode::InvalidAlignment => Some(Err(Error::InvalidAlignment)),
    }
}

impl ResultCode {
    /// The number of the result code.
    pub fn into_usize(self) -> (r: usize)
        ensures
            r == result_code_number(self),
    {
        match self {
            ResultCode::Success => 0,
            ResultCode::Unexpected => 1,
            ResultCode::InvalidArgument => 2,
            ResultCode::NoFrame => 3,
            ResultCode::NoPage => 4,
            ResultCode::NoProcess => 5,
            ResultCode::NoProcessSlot => 6,
            ResultCode::Null => 7,
            ResultCode::Overflow => 8,
            ResultCode::PermissionDenied => 9,
            ResultCode::Unimplemented => 10,
            ResultCode::InvalidAlignment => 11,
        }
    }

    /// The result code of number `number`, or `None` where no result code has it.
    pub fn try_from_usize(number: usize) -> (r: Option<Self>)
        ensures
            match r {
                Some(c) => result_code_number(c) == number,
                None => number > 11,
            },
    {
        match number {
            0 => Some(ResultCode::Success),
            1 => Some(ResultCode::Unexpected),
            2 => Some(ResultCode::InvalidArgument),
            3 => Some(ResultCode::NoFrame),
            4 => Some(ResultCode::NoPage),
            5 => Some(ResultCode::NoProcess),
            6 => Some(ResultCode::NoProcessSlot),
            7 => Some(ResultCode::Null),
            8 => Some(ResultCode::Overflow),
            9 => Some(ResultCode::PermissionDenied),
            10 => Some(ResultCode::Unimplemented),
            11 => Some(ResultCode::InvalidAlignment),
            _ => None,
        }
    }

    /// The code of the result of a system call.
    pub fn from_result<T>(result: Result<T>) -> (r: Self)
        ensures
            r == match result {
                Ok(_) => ResultCode::Success,
                Err(e) => error_code(e),
            },
    {
        match result {
            Ok(_) => ResultCode::Success,
            Err(error) => match error {
                Error::InvalidArgument => ResultCode::InvalidArgument,
                Error::NoFrame => ResultCode::NoFrame,
                Error::NoPage => ResultCode::NoPage,
                Error::NoProcess => ResultCode::NoProcess,
                Error::NoProcessSlot => ResultCode::NoProcessSlot,
                Error::Null => ResultCode::Null,
                Error::Overflow => ResultCode::Overflow,
                Error::PermissionDenied => ResultCode::PermissionDenied,
                Error::Unimplemented => ResultCode::Unimplemented,
                Error::InvalidAlignment => ResultCode::InvalidAlignment,
                _ => ResultCode::Unexpected,
            },
        }
    }

    /// The result that the code stands for.
    pub fn into_result(self) -> (r: Result<()>)
        requires
            self != ResultCode::Unexpected,
        ensures
            code_result(self) == Some(r),
    {
        match self {
            ResultCode::InvalidArgument => Err(Error::InvalidArgument),
            ResultCode::NoFrame => Err(Error::NoFrame),
            ResultCode::NoPage => Err(Error::NoPage),
            ResultCode::NoProcess => Err(Error::NoProcess),
            ResultCode::NoProcessSlot => Err(Error::NoProcessSlot),
            ResultCode::Null => Err(Error::Null),
            ResultCode::Overflow => Err(Error::Overflow),
            ResultCode::PermissionDenied => Err(Error::PermissionDenied),
            ResultCode::Unimplemented => Err(Error::Unimplemented),
            ResultCode::InvalidAlignment => Err(Error::InvalidAlignment),
            _ => Ok(()),
        }
    }
}

/// A result that a code stands for is encoded back to that code, and an error with a code
/// of its own comes back from its code unchanged.
pub proof fn lemma_result_code_round_trip(code: ResultCode, error: Error)
    ensures
        code != ResultCode::Unexpected ==> (code_result(code) matches Some(res) && match res {
            Ok(_) => code == ResultCode::Success,
            Err(e) => error_code(e) == code,
        }),
        error_code(error) != ResultCode::Unexpected ==> code_result(error_code(error)) == Some(Err::<(), Error>(error)),
{
}

/// Numbering is one to one: a number read back gives the value it came from.
pub proof fn lemma_numbers_round_trip(exit: ExitCode, syscall: Syscall, code: ResultCode)
    ensures
        0 <= exit_code_number(exit) <= 2,
        0 <= syscall_number(syscall) <= 8,
        0 <= result_code_number(code) <= 11,
        forall|e: ExitCode| exit_code_number(e) == exit_code_number(exit) ==> e == exit,
        forall|s: Syscall| syscall_number(s) == syscall_number(syscall) ==> s == syscall,
        forall|c: ResultCode| result_code_number(c) == result_code_number(code) ==> c == code,
{
}

} // verus!
