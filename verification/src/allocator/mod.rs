//! Bookkeeping of memory allocators.

pub mod big;
pub mod big_pair;
pub mod dispatcher;
pub mod dry;
pub mod fixed_size;
pub mod info;
pub mod quarry;

pub use big::{BigAllocator, BigAllocatorGuard};
pub use big_pair::BigAllocatorPair;
pub use dispatcher::{DetailedInfo, FIXED_SIZE_COUNT};
pub use dry::{DryAllocator, Initialize};
pub use info::{AtomicInfo, Counter, Info};
pub use quarry::Quarry;
