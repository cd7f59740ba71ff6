//! Addresses, pages, frames and blocks of memory.

pub mod addr;
pub mod block;
pub mod frage;
pub mod grouped_hex;
pub mod mmu;
pub mod page_fault_info;
pub mod port;
pub mod size;

pub use addr::{Addr, Phys, PhysTag, Tag, Virt, VirtTag};
pub use block::{Block, Memory};
pub use grouped_hex::GroupedHex;
pub use frage::{
    ElasticFrame, ElasticPage, Frage, Frame, L0Frame, L0Page, L1Frame, L1Page, L2Frame, L2Page, Page,
    L0_SIZE, L1_SIZE, L2_SIZE,
};
pub use mmu::{PageTableEntry, PageTableFlags};
pub use page_fault_info::PageFaultInfo;
pub use port::{IndexDataPortPair, Port, PortData, PortTag};
pub use size::{GiB, KiB, MiB, Size, SizeOf};
