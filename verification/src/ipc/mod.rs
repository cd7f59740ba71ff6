//! Inter-process communication.

pub mod pipe;

pub use pipe::{ReadBuffer, RingBuffer, RingBufferStats, WriteBuffer};
