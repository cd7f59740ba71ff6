//! Collections that the kernel keeps without a general purpose allocator.

pub mod bitmap;
pub mod dynamic_bitmap;
pub mod lru;

pub use bitmap::Bitmap;
pub use dynamic_bitmap::DynamicBitmap;
pub use lru::Lru;
