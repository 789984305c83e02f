//! Addresses, parameters and the memories that a device carries.

use std::sync::Arc;
use vstd::prelude::*;

verus! {

/// An address in the address space that the device sees.
pub type DeviceAddress = u64;

/// A length in bytes of device memory.
pub type DeviceSize = u64;

/// A memory on the device board, named by its number.
#[derive(Debug, Clone, PartialEq, Eq)]
pub struct OffchipMemory {
    pub id: usize,
}

/// A host buffer whose device memory was set aside beforehand.
#[derive(Debug, Clone, PartialEq, Eq)]
pub struct DataTransferPrealloc {
    pub data: Vec<u8>,
    pub device_address: DeviceAddress,
    pub free: bool,
    pub from_device: bool,
    pub to_device: bool,
    pub memory: Arc<OffchipMemory>,
}

/// What can be handed to a processing element as an argument.
///
/// Only the two plain values can be written to an argument register. A buffer has to be moved
/// to the device first, and its device address is then passed as a plain value.
#[derive(Debug, Clone, PartialEq, Eq)]
pub enum PEParameter {
    Single32(u32),
    Single64(u64),
    DataTransferPrealloc(DataTransferPrealloc),
}

} // verus!
