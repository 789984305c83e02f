//! The strategies that move bytes between host memory and device memory.

use crate::device::DeviceAddress;
use crate::device::DeviceSize;
use crate::mapping::lemma_stored_then_loaded;
use crate::mapping::loaded;
use crate::mapping::stored;
use crate::mapping::Mapping;
use crate::mapping::Store;
use crate::vfio::dma_map_request;
use crate::vfio::vfio_dma_map;
use crate::vfio::DmaMap;
use crate::vfio::VfioDev;
use crate::vfio::VfioMapping;
use crate::dma_user_space::fill;
use vstd::prelude::*;

verus! {

/// Why a transfer did not take place. An `errno` is the error number that the kernel gave.
#[derive(Debug, Clone, Copy, PartialEq, Eq, Structural)]
pub enum Error {
    /// The driver refused a transfer to the device.
    DMAToDevice { errno: i32 },
    /// The driver refused a transfer from the device.
    DMAFromDevice { errno: i32 },
    /// The driver could not set a DMA buffer aside.
    DMABufferAllocate { errno: i32 },
    /// The bytes from `ptr` up to `end` do not lie within a memory of `size` bytes.
    OutOfRange { ptr: DeviceAddress, end: DeviceAddress, size: DeviceSize },
    /// A lock was poisoned.
    MutexError,
    /// The memory of a direct transfer could not be flushed.
    FailedFlush { errno: i32 },
    /// A DMA buffer could not be mapped.
    FailedMMapDMA { errno: i32 },
    /// An interrupt line could not be waited on.
    ErrorInterrupt { source: crate::interrupt::Error },
    /// An interrupt fired although no chunk was on its way.
    TooManyInterrupts,
}

/// A way to move bytes between host and device. A transfer is complete when the call returns.
pub trait DMAControl {
    /// Whether the strategy is in working order.
    spec fn wf(&self) -> bool;

    /// Whether the device memory is memory that nothing but this strategy changes. Of such a
    /// memory the contracts say what it holds.
    spec fn known(&self) -> bool;

    /// The number of bytes of device memory that the strategy reaches.
    spec fn extent(&self) -> nat;

    /// The device memory that the strategy reaches, from device address 0 on, where it is
    /// known.
    spec fn device(&self) -> Seq<u8>;

    /// Copies `data` to the device memory at `ptr`. After a failure nothing is known of the
    /// bytes at `ptr`.
    fn copy_to(&mut self, data: &[u8], ptr: DeviceAddress) -> (r: Result<(), Error>)
        requires
            old(self).wf(),
        ensures
            final(self).wf(),
            final(self).extent() == old(self).extent(),
            final(self).known() == old(self).known(),
            r is Ok ==> ptr + data@.len() <= old(self).extent(),
            r is Ok && old(self).known() ==> final(self).device() == stored(
                old(self).device(),
                ptr as int,
                data@,
            ),
    ;

    /// Fills `data` with the device memory at `ptr`. After a failure nothing is known of
    /// `data`.
    fn copy_from(&self, ptr: DeviceAddress, data: &mut [u8]) -> (r: Result<(), Error>)
        requires
            self.wf(),
        ensures
            final(data)@.len() == old(data)@.len(),
            r is Ok ==> ptr + old(data)@.len() <= self.extent(),
            r is Ok && self.known() ==> final(data)@ == loaded(
                self.device(),
                ptr as int,
                old(data)@.len() as int,
            ),
    ;
}

/// What is copied to a memory is what is copied back from the same address.
pub proof fn lemma_copy_round_trip(device: Seq<u8>, ptr: int, data: Seq<u8>)
    requires
        0 <= ptr,
        ptr + data.len() <= device.len(),
    ensures
        loaded(stored(device, ptr, data), ptr, data.len() as int) == data,
{
    lemma_stored_then_loaded(device, ptr, data);
}

/// The end of a transfer of `len` bytes at `ptr`, kept within 64 bits.
pub open spec fn transfer_end(ptr: DeviceAddress, len: int) -> DeviceAddress {
    if ptr + len <= u64::MAX {
        (ptr + len) as u64
    } else {
        u64::MAX
    }
}

/// Whether a transfer of `len` bytes at `ptr` lies within a memory of `size` bytes.
pub open spec fn in_range(ptr: DeviceAddress, len: int, size: DeviceSize) -> bool {
    ptr + len <= size
}

/// Transfers by the host's own loads and stores, into and out of device memory that is
/// mapped into the host: `size` bytes of the mapping, from `offset` on.
pub struct DirectDMA {
    offset: DeviceAddress,
    size: DeviceSize,
    memory: Mapping,
}

impl DirectDMA {
    /// The bytes of the whole mapping, of which the device memory is a part, where the
    /// mapping is memory.
    pub closed spec fn bytes(&self) -> Seq<u8> {
        self.memory@
    }

    /// What has been stored into the mapping, oldest first.
    pub closed spec fn stores(&self) -> Seq<Store> {
        self.memory.stores()
    }

    pub closed spec fn spec_offset(&self) -> DeviceAddress {
        self.offset
    }

    pub closed spec fn spec_size(&self) -> DeviceSize {
        self.size
    }

    /// The device memory of `size` bytes at `offset` in `memory`.
    pub fn new(offset: DeviceAddress, size: DeviceSize, memory: Mapping) -> (r: DirectDMA)
        requires
            offset + size <= memory.size(),
        ensures
            r.wf(),
            r.spec_offset() == offset,
            r.spec_size() == size,
            r.known() == memory.memory(),
            r.bytes() == memory@,
            r.stores() == memory.stores(),
    {
        let len: usize = memory.len();
        DirectDMA { offset, size, memory }
    }

    #[verifier::when_used_as_spec(spec_offset)]
    pub fn offset(&self) -> (r: DeviceAddress)
        ensures
            r == self.spec_offset(),
    {
        self.offset
    }

    #[verifier::when_used_as_spec(spec_size)]
    pub fn size(&self) -> (r: DeviceSize)
        ensures
            r == self.spec_size(),
    {
        self.size
    }

    /// Whether `len` bytes at `ptr` lie within the device memory, and where they end.
    fn check(&self, ptr: DeviceAddress, len: usize) -> (r: Result<(), Error>)
        ensures
            r == if in_range(ptr, len as int, self.size) {
                Ok::<(), Error>(())
            } else {
                Err::<(), Error>(
                    Error::OutOfRange { ptr, end: transfer_end(ptr, len as int), size: self.size },
                )
            },
    {
        match ptr.checked_add(len as u64) {
            Some(end) => {
                if end > self.size {
                    Err(Error::OutOfRange { ptr, end, size: self.size })
                } else {
                    Ok(())
                }
            },
            None => Err(Error::OutOfRange { ptr, end: u64::MAX, size: self.size }),
        }
    }
}

impl DMAControl for DirectDMA {
    closed spec fn wf(&self) -> bool {
        &&& self.offset + self.size <= self.memory.size()
        &&& self.memory.memory() ==> self.memory@.len() == self.memory.size()
    }

    closed spec fn known(&self) -> bool {
        self.memory.memory()
    }

    open spec fn extent(&self) -> nat {
        self.spec_size() as nat
    }

    open spec fn device(&self) -> Seq<u8> {
        loaded(self.bytes(), self.spec_offset() as int, self.spec_size() as int)
    }

    /// Stores `data` at `ptr` in the device memory. A transfer that does not lie within the
    /// device memory is refused before a byte is written.
    fn copy_to(&mut self, data: &[u8], ptr: DeviceAddress) -> (r: Result<(), Error>)
        ensures
            final(self).spec_offset() == old(self).spec_offset(),
            final(self).spec_size() == old(self).spec_size(),
            in_range(ptr, data@.len() as int, old(self).spec_size()) ==> {
                &&& r == Ok::<(), Error>(())
                &&& final(self).stores() == old(self).stores().push(
                    Store { at: old(self).spec_offset() + ptr, data: data@ },
                )
                &&& old(self).known() ==> final(self).bytes() == stored(
                    old(self).bytes(),
                    old(self).spec_offset() + ptr,
                    data@,
                )
            },
            !in_range(ptr, data@.len() as int, old(self).spec_size()) ==> r == Err::<(), Error>(
                Error::OutOfRange {
                    ptr,
                    end: transfer_end(ptr, data@.len() as int),
                    size: old(self).spec_size(),
                },
            ) && *final(self) == *old(self),
    {
        match self.check(ptr, data.len()) {
            Err(e) => {
                return Err(e);
            },
            Ok(()) => {},
        }
        let total: usize = self.memory.len();
        self.memory.store((self.offset + ptr) as usize, data);
        proof {
            if self.memory.memory() {
                assert(loaded(self.memory@, self.offset as int, self.size as int) =~= stored(
                    loaded(old(self).memory@, self.offset as int, self.size as int),
                    ptr as int,
                    data@,
                ));
            }
        }
        Ok(())
    }

    /// Loads `data` from `ptr` in the device memory: `data` becomes what the load finds. A
    /// transfer that does not lie within the device memory is refused, and `data` is left as
    /// it was.
    fn copy_from(&self, ptr: DeviceAddress, data: &mut [u8]) -> (r: Result<(), Error>)
        ensures
            in_range(ptr, old(data)@.len() as int, self.spec_size()) ==> {
                &&& r == Ok::<(), Error>(())
                &&& self.known() ==> final(data)@ == loaded(
                    self.bytes(),
                    self.spec_offset() + ptr,
                    old(data)@.len() as int,
                )
            },
            !in_range(ptr, old(data)@.len() as int, self.spec_size()) ==> r == Err::<(), Error>(
                Error::OutOfRange {
                    ptr,
                    end: transfer_end(ptr, old(data)@.len() as int),
                    size: self.spec_size(),
                },
            ) && final(data)@ == old(data)@,
    {
        match self.check(ptr, data.len()) {
            Err(e) => {
                return Err(e);
            },
            Ok(()) => {},
        }
        let total: usize = self.memory.len();
        let bytes = self.memory.load((self.offset + ptr) as usize, data.len());
        fill(data, 0, bytes.as_slice());
        assert(data@ =~= bytes@);
        proof {
            if self.memory.memory() {
                assert(bytes@ =~= loaded(
                    loaded(self.memory@, self.offset as int, self.size as int),
                    ptr as int,
                    old(data)@.len() as int,
                ));
            }
        }
        Ok(())
    }
}

/// What the driver is asked to copy: `length` bytes at the device address `dev_addr`. The
/// host's side of the copy is the buffer of the call, which the caller adds.
#[derive(Debug, Clone, Copy, PartialEq, Eq, Structural)]
pub struct CopyCommand {
    pub dev_addr: DeviceAddress,
    pub length: usize,
}

/// What the kernel answered to a request: the value that the request returned, or the error
/// number with which it failed.
pub type Outcome = Result<i32, i32>;

/// Transfers that the driver makes on request.
#[derive(Debug, Clone, Copy, PartialEq, Eq, Structural)]
pub struct DriverDMA {}

impl DriverDMA {
    pub fn new() -> (r: DriverDMA) {
        DriverDMA {  }
    }

    /// The request that copies `data` to the device address `ptr`.
    pub fn copy_to(&self, data: &[u8], ptr: DeviceAddress) -> (r: CopyCommand)
        ensures
            r == (CopyCommand { dev_addr: ptr, length: data@.len() as usize }),
    {
        CopyCommand { dev_addr: ptr, length: data.len() }
    }

    /// What a copy to the device has come to, where the driver answered `outcome`.
    pub fn copied_to(&self, outcome: Outcome) -> (r: Result<(), Error>)
        ensures
            r == match outcome {
                Ok(_) => Ok::<(), Error>(()),
                Err(errno) => Err::<(), Error>(Error::DMAToDevice { errno }),
            },
    {
        match outcome {
            Ok(_) => Ok(()),
            Err(errno) => Err(Error::DMAToDevice { errno }),
        }
    }

    /// The request that fills `data` from the device address `ptr`.
    pub fn copy_from(&self, ptr: DeviceAddress, data: &[u8]) -> (r: CopyCommand)
        ensures
            r == (CopyCommand { dev_addr: ptr, length: data@.len() as usize }),
    {
        CopyCommand { dev_addr: ptr, length: data.len() }
    }

    /// What a copy from the device has come to, where the driver answered `outcome`.
    pub fn copied_from(&self, outcome: Outcome) -> (r: Result<(), Error>)
        ensures
            r == match outcome {
                Ok(_) => Ok::<(), Error>(()),
                Err(errno) => Err::<(), Error>(Error::DMAFromDevice { errno }),
            },
    {
        match outcome {
            Ok(_) => Ok(()),
            Err(errno) => Err(Error::DMAFromDevice { errno }),
        }
    }
}

/// The size of the pages in which host memory is mapped for the device.
pub const VFIO_PAGE_SIZE: usize = 4096;

/// The size of the staging area for `len` bytes: the least number of whole pages that hold
/// them, and one page for no bytes.
pub open spec fn staging_len(len: int) -> int {
    if len == 0 {
        4096
    } else {
        (len + 4095) / 4096 * 4096
    }
}

/// The staging area holds the bytes, in whole pages, and no page could be spared.
pub proof fn lemma_staging_len(len: int)
    requires
        0 <= len,
    ensures
        staging_len(len) % 4096 == 0,
        len <= staging_len(len),
        len > 0 ==> staging_len(len) - 4096 < len,
        staging_len(len) > 0,
{
}

/// Transfers for which the IOMMU lets the device see host memory: what goes to the device is
/// staged in pages of its own, which are then mapped for the device at the device address.
pub struct VfioDMA {
    staged: Vec<Mapping>,
}

impl VfioDMA {
    /// The staging areas are memory of the library's own.
    pub closed spec fn wf(&self) -> bool {
        forall|i: int|
            0 <= i < self.staged@.len() ==> (#[trigger] self.staged@[i]).memory()
                && self.staged@[i]@.len() == self.staged@[i].size()
    }

    /// The staging areas that are kept for the device, oldest first.
    pub closed spec fn staged(&self) -> Seq<Seq<u8>> {
        Seq::new(self.staged@.len(), |i: int| self.staged@[i]@)
    }

    pub fn new() -> (r: VfioDMA)
        ensures
            r.wf(),
            r.staged() == Seq::<Seq<u8>>::empty(),
    {
        let r = VfioDMA { staged: Vec::new() };
        assert(r.staged() =~= Seq::<Seq<u8>>::empty());
        r
    }

    /// The number of staging areas that are kept for the device.
    pub fn staged_areas(&self) -> (r: usize)
        ensures
            r == self.staged().len(),
    {
        self.staged.len()
    }

    /// Copies `len` bytes out of the staging area `area`, starting at `at`.
    pub fn staged_bytes(&self, area: usize, at: usize, len: usize) -> (r: Vec<u8>)
        requires
            self.wf(),
            area < self.staged().len(),
            at + len <= self.staged()[area as int].len(),
        ensures
            r@ == loaded(self.staged()[area as int], at as int, len as int),
    {
        self.staged[area].load(at, len)
    }

    /// Stages `data` in fresh pages and gives the request that maps them for the device at
    /// `ptr`. The pages are kept for as long as this value lives.
    ///
    /// A transfer for whose pages the address space of the device has no room at `ptr`, by
    /// the mappings of `dev`, is out of range, and no pages are asked for. Otherwise the
    /// system's answer to the wish for pages decides; [`VfioDMA::stage`] says what follows
    /// from it.
    pub fn copy_to(&mut self, dev: &VfioDev, data: &[u8], ptr: DeviceAddress) -> (r: Result<
        DmaMap,
        Error,
    >)
        requires
            old(self).wf(),
            data@.len() + VFIO_PAGE_SIZE <= usize::MAX,
        ensures
            final(self).wf(),
            r is Err ==> final(self).staged() == old(self).staged(),
            !fits(dev, ptr, data@.len() as int) ==> r == Err::<DmaMap, Error>(
                Error::OutOfRange {
                    ptr,
                    end: transfer_end(ptr, staging_len(data@.len() as int)),
                    size: u64::MAX,
                },
            ),
            fits(dev, ptr, data@.len() as int) ==> match r {
                Err(e) => e is FailedMMapDMA,
                Ok(request) => {
                    &&& request == (DmaMap {
                        flags: 3,
                        vaddr: request.vaddr,
                        iova: ptr,
                        size: staging_len(data@.len() as int) as u64,
                    })
                    &&& final(self).staged().len() == old(self).staged().len() + 1
                    &&& final(self).staged().drop_last() == old(self).staged()
                    &&& final(self).staged().last().len() == request.size
                    &&& loaded(final(self).staged().last(), 0, data@.len() as int) == data@
                },
            },
    {
        let pages: usize = if data.len() == 0 {
            1
        } else {
            (data.len() + (VFIO_PAGE_SIZE - 1)) / VFIO_PAGE_SIZE
        };
        let map_len: usize = pages * VFIO_PAGE_SIZE;
        match vfio_dma_map(dev, map_len as u64, ptr, 0) {
            Err(_) => {
                return Err(
                    Error::OutOfRange {
                        ptr,
                        end: match ptr.checked_add(map_len as u64) {
                            Some(end) => end,
                            None => u64::MAX,
                        },
                        size: u64::MAX,
                    },
                );
            },
            Ok(_) => {},
        }
        let area = Mapping::anonymous(map_len);
        let ghost fresh = area->Ok_0@;
        proof {
            if area is Ok {
                lemma_stored_then_loaded(fresh, 0, data@);
            }
        }
        let r = self.stage(area, data, ptr);
        proof {
            if r is Ok {
                assert(final(self).staged().drop_last() =~= old(self).staged());
            }
        }
        r
    }

    /// Stages `data` in `area`, the answer to the wish for pages, and gives the request that
    /// maps the pages for the device at `ptr`. Where the system gave no pages, the transfer
    /// fails with its error number.
    pub fn stage(&mut self, area: Result<Mapping, i32>, data: &[u8], ptr: DeviceAddress) -> (r:
        Result<DmaMap, Error>)
        requires
            old(self).wf(),
            area matches Ok(pages) ==> pages.memory() && pages@.len() == pages.size() && data@.len()
                <= pages.size(),
        ensures
            final(self).wf(),
            match area {
                Err(errno) => {
                    &&& r == Err::<DmaMap, Error>(Error::FailedMMapDMA { errno })
                    &&& final(self).staged() == old(self).staged()
                },
                Ok(pages) => {
                    &&& r matches Ok(request)
                    &&& request.iova == ptr
                    &&& request.size == pages.size()
                    &&& request.flags == 3
                    &&& final(self).staged() == old(self).staged().push(stored(pages@, 0, data@))
                },
            },
    {
        match area {
            Err(errno) => Err(Error::FailedMMapDMA { errno }),
            Ok(pages) => {
                let mut pages = pages;
                let total: usize = pages.len();
                pages.store(0, data);
                let request = dma_map_request(total as u64, ptr, pages.address());
                let ghost now = pages@;
                self.staged.push(pages);
                assert(self.staged() =~= old(self).staged().push(now));
                Ok(request)
            },
        }
    }

    /// The request that fills `data` from the device address `ptr`: the driver makes the copy.
    pub fn copy_from(&self, ptr: DeviceAddress, data: &[u8]) -> (r: CopyCommand)
        ensures
            r == (CopyCommand { dev_addr: ptr, length: data@.len() as usize }),
    {
        CopyCommand { dev_addr: ptr, length: data.len() }
    }

    /// What a copy from the device has come to, where the driver answered `outcome`.
    pub fn copied_from(&self, outcome: Outcome) -> (r: Result<(), Error>)
        ensures
            r == match outcome {
                Ok(_) => Ok::<(), Error>(()),
                Err(errno) => Err::<(), Error>(Error::DMAFromDevice { errno }),
            },
    {
        match outcome {
            Ok(_) => Ok(()),
            Err(errno) => Err(Error::DMAFromDevice { errno }),
        }
    }
}

/// The device memory after the driver has carried out `command` for a copy of `data` to the
/// device: `data` stands at the command's device address.
pub open spec fn driver_sent(device: Seq<u8>, command: CopyCommand, data: Seq<u8>) -> Seq<u8> {
    stored(device, command.dev_addr as int, data)
}

/// What the driver hands to the host where it carries out `command` for a copy from the
/// device: the bytes of the command's length at its device address.
pub open spec fn driver_fetched(device: Seq<u8>, command: CopyCommand) -> Seq<u8> {
    loaded(device, command.dev_addr as int, command.length as int)
}

/// With a driver that copies as asked, what is copied to the device is what is copied back
/// from the same address: the request of a copy back fetches the bytes that the request of
/// the copy has sent.
pub proof fn lemma_driver_round_trip(device: Seq<u8>, data: Seq<u8>, ptr: DeviceAddress)
    requires
        data.len() <= usize::MAX,
        ptr + data.len() <= device.len(),
    ensures
        driver_fetched(
            driver_sent(device, CopyCommand { dev_addr: ptr, length: data.len() as usize }, data),
            CopyCommand { dev_addr: ptr, length: data.len() as usize },
        ) == data,
{
    lemma_stored_then_loaded(device, ptr as int, data);
}

/// The device memory as the device sees it after the pages `pages` have been mapped for it
/// by `request`: the pages stand at the request's device address.
pub open spec fn mapped_for_device(device: Seq<u8>, request: DmaMap, pages: Seq<u8>) -> Seq<u8> {
    stored(device, request.iova as int, pages)
}

/// With an IOMMU that maps as asked and a driver that copies as asked, what is staged for the
/// device at an address is what is copied back from it: the pages begin with the data, and
/// the request of a copy back fetches the first bytes of the pages.
pub proof fn lemma_vfio_round_trip(
    device: Seq<u8>,
    data: Seq<u8>,
    request: DmaMap,
    pages: Seq<u8>,
)
    requires
        data.len() <= usize::MAX,
        data.len() <= pages.len(),
        request.iova + pages.len() <= device.len(),
        loaded(pages, 0, data.len() as int) == data,
    ensures
        driver_fetched(
            mapped_for_device(device, request, pages),
            CopyCommand { dev_addr: request.iova, length: data.len() as usize },
        ) == data,
{
    let after = mapped_for_device(device, request, pages);
    assert(loaded(after, request.iova as int, data.len() as int) =~= loaded(
        pages,
        0,
        data.len() as int,
    ));
}

/// Whether the pages that stage `len` bytes can be mapped at `ptr` beside the mappings of
/// `dev`.
pub open spec fn fits(dev: &VfioDev, ptr: DeviceAddress, len: int) -> bool {
    crate::vfio::fits(dev.mappings(), VfioMapping { iova: ptr, size: staging_len(len) as u64 })
}

} // verus!
