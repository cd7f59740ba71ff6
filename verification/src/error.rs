use vstd::prelude::*;

verus! {

/// The errors reported by the library.
#[derive(Clone, Copy, Debug, PartialEq, Eq, Structural)]
pub enum Error {
    /// A malformed ELF file.
    Elf,
    /// The file already exists.
    FileExists,
    /// The file is not found.
    FileNotFound,
    /// A formatting error.
    Fmt,
    /// An integer conversion failed.
    Int,
    /// The address is not aligned as its target type demands.
    InvalidAlignment,
    /// An argument is not valid.
    InvalidArgument,
    /// A storage medium error.
    Medium,
    /// There is no data yet.
    NoData,
    /// There is no disk.
    NoDisk,
    /// There is no free physical frame.
    NoFrame,
    /// The page is not mapped.
    NoPage,
    /// There is no such process.
    NoProcess,
    /// There is no free process slot.
    NoProcessSlot,
    /// The entry is not a directory.
    NotDirectory,
    /// The entry is not a file.
    NotFile,
    /// A null pointer or address.
    Null,
    /// An arithmetic overflow, or an index out of bounds.
    Overflow,
    /// The operation is not permitted.
    PermissionDenied,
    /// A pipe error.
    Pipe,
    /// A serialization error.
    Postcard,
    /// The operation has timed out.
    Timeout,
    /// The operation is not implemented.
    Unimplemented,
}

/// The result type of the library.
pub type Result<T> = core::result::Result<T, Error>;

} // verus!
