//! Verified core of a runtime that drives FPGA processing elements: the register protocol of a
//! processing element, the DMA strategies that move buffers between host and device, and the
//! bookkeeping of IOMMU mappings.
//!
//! The library never blocks and never opens a device. Memory windows are handed to it as
//! mappings, and whatever the kernel reports (a fired interrupt, the outcome of an ioctl) is
//! handed to it as a plain value.

pub mod buffer_pool;
pub mod debug;
pub mod device;
pub mod dma;
pub mod dma_user_space;
pub mod interrupt;
pub mod json_to_status;
pub mod mapping;
pub mod pe;
pub mod registers;
pub mod vfio;
