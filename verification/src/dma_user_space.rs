//! The DMA engine that is driven from user space.
//!
//! A transfer is staged through a pinned buffer, one chunk of at most the buffer's size at a
//! time. For each chunk the engine programs the DMA controller and then has to wait for the
//! interrupt of the transfer's direction. The engine does not block: [`UserSpaceDMA::copy_to`]
//! and [`UserSpaceDMA::copy_from`] take a transfer as far as it can go and say what the caller
//! has to do before it calls again.

use crate::buffer_pool::BufferPool;
use crate::buffer_pool::DMABuffer;
use crate::buffer_pool::Slot;
use crate::device::DeviceAddress;
use crate::device::DeviceSize;
use crate::dma::Error;
use crate::interrupt::Interrupt;
use crate::interrupt::Line;
use crate::mapping::lemma_stored_then_loaded;
use crate::mapping::loaded;
use crate::mapping::stored;
use crate::mapping::Store;
use crate::registers::RegisterWindow;
use crate::registers::Registers;
use vstd::prelude::*;
use vstd::slice::slice_subrange;

verus! {

/// The size of the buffers that the engine asks the driver for.
pub const BUFFER_SIZE: usize = 256 * 1024;

/// The size of the pages by which the driver's file is mapped.
pub const PAGE_SIZE: u64 = 4096;

/// The number of pages of the driver's file that come before the first buffer.
pub const BUFFER_PAGES_BASE: u64 = 4;

/// The command that starts a transfer from host to device.
pub const COMMAND_TO_DEVICE: u64 = 0x1000_0001;

/// The command that starts a transfer from device to host.
pub const COMMAND_FROM_DEVICE: u64 = 0x1000_1000;

/// The bytes that the controller's registers take up, from the engine's offset on.
pub const ENGINE_REGISTERS: usize = 0x28;

/// The command word for the given direction.
pub open spec fn command(from_device: bool) -> u64 {
    if from_device {
        COMMAND_FROM_DEVICE
    } else {
        COMMAND_TO_DEVICE
    }
}

/// The register window after the controller at `base` has been told to move `size` bytes
/// between `addr_host` and `addr_device`: the command word is written last, and starts the
/// controller.
pub open spec fn programmed(
    window: Registers,
    base: int,
    addr_host: u64,
    addr_device: u64,
    size: u64,
    from_device: bool,
) -> Registers {
    window.written64(base, addr_host).written64(base + 0x08, addr_device).written64(
        base + 0x10,
        size,
    ).written64(base + 0x20, command(from_device))
}

/// The length of the chunk that follows `done` bytes of a transfer of `len` bytes through a
/// buffer of `size` bytes.
pub open spec fn chunk_len(len: int, done: int, size: int) -> int {
    if len - done < size {
        len - done
    } else {
        size
    }
}

/// The number of chunks that a transfer of `len` bytes through a buffer of `size` bytes takes:
/// `len / size`, rounded up.
pub open spec fn chunks(len: int, size: int) -> int {
    (len + size - 1) / size
}

/// What the driver is asked for when a buffer is set aside.
#[derive(Debug, Clone, Copy, PartialEq, Eq, Structural)]
pub struct BufferRequest {
    pub size: usize,
    pub from_device: bool,
}

/// Where a transfer stands.
#[derive(Debug, Clone, Copy, PartialEq, Eq, Structural)]
pub enum Phase {
    /// No buffer has been taken yet.
    Fresh,
    /// A chunk is on its way, and the transfer holds the buffer that stages it.
    Running,
    /// Every byte has been moved, and the buffer is back in its pool.
    Finished,
    /// The interrupt line has failed while a chunk was on its way. The transfer is closed,
    /// and the buffer is back in its pool.
    Failed,
}

/// What the caller has to do next for a transfer.
#[derive(Debug, Clone, Copy, PartialEq, Eq, Structural)]
pub enum Progress {
    /// Nothing: the transfer is complete.
    Finished,
    /// Block on the interrupt line of the transfer's direction, report what fired, and call
    /// again.
    AwaitInterrupt,
    /// No buffer could be had: call again later.
    RetryLater,
}

/// A transfer as contracts see it.
pub struct TransferState {
    pub from_device: bool,
    /// The device address of the transfer's first byte.
    pub device: DeviceAddress,
    /// The number of bytes to move.
    pub len: usize,
    /// The number of bytes whose chunks are complete.
    pub done: usize,
    /// The length of the chunk that is on its way.
    pub flying: usize,
    /// The number of interrupts that the transfer has consumed.
    pub waits: usize,
    /// The size of the buffer that stages, or staged, the transfer.
    pub chunk: usize,
    pub phase: Phase,
    /// The buffer that the transfer holds.
    pub buffer: Option<DMABuffer>,
    /// The error with which the transfer has failed.
    pub error: Option<crate::interrupt::Error>,
}

impl TransferState {
    pub open spec fn wf(self) -> bool {
        &&& self.device + self.len <= u64::MAX
        &&& self.error is Some <==> self.phase is Failed
        &&& match self.phase {
            Phase::Fresh => self.buffer is None && self.done == 0 && self.flying == 0 && self.waits
                == 0,
            Phase::Running => {
                &&& self.buffer matches Some(buffer)
                &&& buffer.wf()
                &&& buffer.spec_size() == self.chunk
                &&& self.done == self.waits * self.chunk
                &&& self.done < self.len
                &&& self.flying == chunk_len(self.len as int, self.done as int, self.chunk as int)
            },
            Phase::Finished => {
                &&& self.buffer is None
                &&& self.done == self.len
                &&& self.flying == 0
                &&& self.chunk > 0
                &&& self.waits == chunks(self.len as int, self.chunk as int)
            },
            Phase::Failed => self.buffer is None && self.flying == 0,
        }
    }

    /// The transfer after the line has failed with `error` while its chunk was on its way:
    /// it is closed, and holds no buffer.
    pub open spec fn failed(self, error: crate::interrupt::Error) -> TransferState {
        TransferState { phase: Phase::Failed, flying: 0, buffer: None, error: Some(error), ..self }
    }
}

/// One transfer through the engine.
pub struct Transfer {
    from_device: bool,
    device: DeviceAddress,
    len: usize,
    done: usize,
    flying: usize,
    waits: usize,
    chunk: usize,
    finished: bool,
    buffer: Option<DMABuffer>,
    error: Option<crate::interrupt::Error>,
}

impl View for Transfer {
    type V = TransferState;

    closed spec fn view(&self) -> TransferState {
        TransferState {
            from_device: self.from_device,
            device: self.device,
            len: self.len,
            done: self.done,
            flying: self.flying,
            waits: self.waits,
            chunk: self.chunk,
            phase: if self.error is Some {
                Phase::Failed
            } else if self.finished {
                Phase::Finished
            } else if self.buffer is Some {
                Phase::Running
            } else {
                Phase::Fresh
            },
            buffer: self.buffer,
            error: self.error,
        }
    }
}

/// A transfer of `len` bytes at the device address `ptr` of which nothing has been done.
pub open spec fn fresh(from_device: bool, ptr: DeviceAddress, len: usize) -> TransferState {
    TransferState {
        from_device,
        device: ptr,
        len,
        done: 0,
        flying: 0,
        waits: 0,
        chunk: 0,
        phase: Phase::Fresh,
        buffer: None,
        error: None,
    }
}

impl Transfer {
    /// A transfer of `len` bytes to the device address `ptr`, of which nothing has been done.
    pub fn to_device(ptr: DeviceAddress, len: usize) -> (r: Transfer)
        requires
            ptr + len <= u64::MAX,
        ensures
            r@.wf(),
            r@ == fresh(false, ptr, len),
    {
        Transfer {
            from_device: false,
            device: ptr,
            len,
            done: 0,
            flying: 0,
            waits: 0,
            chunk: 0,
            finished: false,
            buffer: None,
            error: None,
        }
    }

    /// A transfer of `len` bytes from the device address `ptr`, of which nothing has been
    /// done.
    pub fn from_device(ptr: DeviceAddress, len: usize) -> (r: Transfer)
        requires
            ptr + len <= u64::MAX,
        ensures
            r@.wf(),
            r@ == fresh(true, ptr, len),
    {
        Transfer {
            from_device: true,
            device: ptr,
            len,
            done: 0,
            flying: 0,
            waits: 0,
            chunk: 0,
            finished: false,
            buffer: None,
            error: None,
        }
    }

    pub fn phase(&self) -> (r: Phase)
        ensures
            r == self@.phase,
    {
        if self.error.is_some() {
            Phase::Failed
        } else if self.finished {
            Phase::Finished
        } else if self.buffer.is_some() {
            Phase::Running
        } else {
            Phase::Fresh
        }
    }

    /// The number of bytes whose chunks are complete.
    pub fn done(&self) -> (r: usize)
        ensures
            r == self@.done,
    {
        self.done
    }

    /// The length of the chunk that is on its way.
    pub fn flying(&self) -> (r: usize)
        ensures
            r == self@.flying,
    {
        self.flying
    }

    /// The number of interrupts that the transfer has consumed.
    pub fn waits(&self) -> (r: usize)
        ensures
            r == self@.waits,
    {
        self.waits
    }

    /// What a load finds in the transfer's buffer in the place of the chunk on its way;
    /// nothing where the transfer holds no buffer.
    pub fn staged(&self) -> (r: Vec<u8>)
        requires
            self@.wf(),
        ensures
            match self@.buffer {
                Some(buffer) => r@.len() == self@.flying && (buffer.memory() ==> r@ == loaded(
                    buffer.bytes(),
                    0,
                    self@.flying as int,
                )),
                None => r@ == Seq::<u8>::empty(),
            },
    {
        match &self.buffer {
            Some(buffer) => {
                let size: usize = buffer.size();
                buffer.load(0, self.flying)
            },
            None => Vec::new(),
        }
    }
}

/// The engine as contracts see it.
pub struct EngineState {
    /// The offset of the controller's registers in the register window.
    pub offset: usize,
    /// The idle buffers for transfers to the device, the next to be lent first.
    pub idle_to: Seq<Slot>,
    /// The idle buffers for transfers from the device, the next to be lent first.
    pub idle_from: Seq<Slot>,
    /// The line that fires when a chunk has reached the device.
    pub write: Line,
    /// The line that fires when a chunk has come from the device.
    pub read: Line,
    /// The chunks on their way to the device whose interrupt has not been consumed.
    pub flying_to: usize,
    /// The chunks on their way from the device whose interrupt has not been consumed.
    pub flying_from: usize,
}

impl EngineState {
    /// No line has more notifications pending than chunks are on their way.
    pub open spec fn wf(self) -> bool {
        self.write.pending <= self.flying_to && self.read.pending <= self.flying_from
    }

    pub open spec fn line(self, from_device: bool) -> Line {
        if from_device {
            self.read
        } else {
            self.write
        }
    }

    pub open spec fn idle(self, from_device: bool) -> Seq<Slot> {
        if from_device {
            self.idle_from
        } else {
            self.idle_to
        }
    }

    pub open spec fn flying(self, from_device: bool) -> usize {
        if from_device {
            self.flying_from
        } else {
            self.flying_to
        }
    }

    /// The engine with `idle` as the idle buffers of one direction.
    pub open spec fn with_idle(self, from_device: bool, idle: Seq<Slot>) -> EngineState {
        if from_device {
            EngineState { idle_from: idle, ..self }
        } else {
            EngineState { idle_to: idle, ..self }
        }
    }

    /// The engine after the line of one direction has fired.
    pub open spec fn fired(self, from_device: bool) -> EngineState {
        if from_device {
            EngineState { read: self.read.fired(), ..self }
        } else {
            EngineState { write: self.write.fired(), ..self }
        }
    }

    /// The engine after a chunk of one direction has completed and its interrupt has been
    /// consumed.
    pub open spec fn consumed(self, from_device: bool) -> EngineState {
        if from_device {
            EngineState {
                read: self.read.consumed(),
                flying_from: (self.flying_from - 1) as usize,
                ..self
            }
        } else {
            EngineState {
                write: self.write.consumed(),
                flying_to: (self.flying_to - 1) as usize,
                ..self
            }
        }
    }

    /// The engine after a transfer of one direction has been closed while its chunk was on
    /// its way: the chunk is counted no longer, and the buffer `slot` is the last of the idle
    /// buffers again.
    pub open spec fn abandoned(self, from_device: bool, slot: Slot) -> EngineState {
        if from_device {
            EngineState {
                flying_from: if self.flying_from > 0 {
                    (self.flying_from - 1) as usize
                } else {
                    0
                },
                idle_from: self.idle_from.push(slot),
                ..self
            }
        } else {
            EngineState {
                flying_to: if self.flying_to > 0 {
                    (self.flying_to - 1) as usize
                } else {
                    0
                },
                idle_to: self.idle_to.push(slot),
                ..self
            }
        }
    }

    /// The engine after a chunk of one direction has been sent on its way.
    pub open spec fn launched(self, from_device: bool) -> EngineState {
        if from_device {
            EngineState {
                flying_from: if self.flying_from < usize::MAX {
                    (self.flying_from + 1) as usize
                } else {
                    self.flying_from
                },
                ..self
            }
        } else {
            EngineState {
                flying_to: if self.flying_to < usize::MAX {
                    (self.flying_to + 1) as usize
                } else {
                    self.flying_to
                },
                ..self
            }
        }
    }
}

/// How a transfer that holds the buffer `slot`, and of which `done` bytes are complete after
/// `waits` interrupts, goes on from the engine `engine` and the window `window`.
///
/// Where every byte is done, the buffer goes back to the end of its pool and the transfer
/// is finished. Otherwise the controller is programmed for the next chunk: the window's trace
/// says so, and its bytes where the window is memory (`memory`).
pub open spec fn continued(
    engine: EngineState,
    before: TransferState,
    done: int,
    waits: int,
    slot: Slot,
    window: Registers,
    memory: bool,
    engine_after: EngineState,
    after: TransferState,
    window_after: Registers,
    r: Result<Progress, Error>,
) -> bool {
    let from_device = before.from_device;
    if done == before.len {
        &&& r == Ok::<Progress, Error>(Progress::Finished)
        &&& after == (TransferState {
            done: before.len,
            flying: 0,
            waits: waits as usize,
            chunk: slot.size,
            phase: Phase::Finished,
            buffer: None,
            ..before
        })
        &&& engine_after == engine.with_idle(from_device, engine.idle(from_device).push(slot))
        &&& window_after == window
    } else {
        let n = chunk_len(before.len as int, done, slot.size as int);
        &&& r == Ok::<Progress, Error>(Progress::AwaitInterrupt)
        &&& after.from_device == from_device
        &&& after.device == before.device
        &&& after.len == before.len
        &&& after.done == done
        &&& after.flying == n
        &&& after.waits == waits
        &&& after.chunk == slot.size
        &&& after.phase == Phase::Running
        &&& after.error is None
        &&& after.buffer matches Some(buffer)
        &&& buffer.slot() == slot
        &&& engine_after == engine.launched(from_device)
        &&& window_after.same(
            programmed(
                window,
                engine.offset as int,
                slot.addr,
                (before.device + done) as u64,
                n as u64,
                from_device,
            ),
            memory,
        )
    }
}

/// What a call for a transfer comes to where no chunk can be sent or completed: a transfer
/// that is finished stays so, one that has failed gives its error again, and a fresh one is
/// refused where its line has failed, so that no buffer is lent on a line that has failed.
/// Nothing where the call goes on.
pub open spec fn settled(engine: EngineState, before: TransferState) -> Option<
    Result<Progress, Error>,
> {
    match before.phase {
        Phase::Finished => Some(Ok(Progress::Finished)),
        Phase::Failed => Some(Err(Error::ErrorInterrupt { source: before.error->Some_0 })),
        Phase::Fresh => match engine.line(before.from_device).failure {
            Some(errno) => Some(
                Err(
                    Error::ErrorInterrupt {
                        source: crate::interrupt::Error::Channel {
                            index: engine.line(before.from_device).index,
                            errno,
                        },
                    },
                ),
            ),
            None => None,
        },
        Phase::Running => match engine.line(before.from_device).wait_outcome() {
            Err(crate::interrupt::Error::WouldBlock { .. }) => Some(Ok(Progress::AwaitInterrupt)),
            _ => None,
        },
    }
}

/// What one call of [`UserSpaceDMA::copy_to`] does to a transfer to the device.
///
/// Where the line fails while a chunk is on its way, the transfer is closed and its buffer
/// is the last of its pool again. The chunk may still be moving: the buffer is not lent
/// again, because a fresh transfer is refused on a line that has failed.
pub open spec fn to_device_step(
    engine: EngineState,
    before: TransferState,
    window: Registers,
    memory: bool,
    data: Seq<u8>,
    engine_after: EngineState,
    after: TransferState,
    window_after: Registers,
    r: Result<Progress, Error>,
) -> bool {
    let unchanged = engine_after == engine && after == before && window_after == window;
    match settled(engine, before) {
        Some(answer) => r == answer && unchanged,
        None => match before.phase {
            Phase::Fresh => {
                ||| r == Ok::<Progress, Error>(Progress::RetryLater) && unchanged
                ||| {
                    &&& engine.idle_to.len() > 0
                    &&& continued(
                        engine.with_idle(false, engine.idle_to.drop_first()),
                        before,
                        0,
                        0,
                        engine.idle_to[0],
                        window,
                        memory,
                        engine_after,
                        after,
                        window_after,
                        r,
                    )
                    &&& staged(after, data)
                }
            },
            _ => match engine.write.wait_outcome() {
                Err(source) => {
                    &&& r == Err::<Progress, Error>(Error::ErrorInterrupt { source })
                    &&& after == before.failed(source)
                    &&& engine_after == engine.abandoned(false, before.buffer->Some_0.slot())
                    &&& window_after == window
                },
                Ok(_) => {
                    &&& continued(
                        engine.consumed(false),
                        before,
                        before.done + before.flying,
                        before.waits + 1,
                        before.buffer->Some_0.slot(),
                        window,
                        memory,
                        engine_after,
                        after,
                        window_after,
                        r,
                    )
                    &&& staged(after, data)
                },
            },
        },
    }
}

/// The last store into the buffer of a running transfer was the chunk of `data` that is on
/// its way, at the buffer's first byte; where the buffer is memory, it holds the chunk there.
pub open spec fn staged(transfer: TransferState, data: Seq<u8>) -> bool {
    transfer.buffer matches Some(buffer) ==> {
        let chunk = data.subrange(transfer.done as int, transfer.done + transfer.flying);
        &&& buffer.stores().len() > 0
        &&& buffer.stores().last() == (Store { at: 0, data: chunk })
        &&& buffer.memory() ==> loaded(buffer.bytes(), 0, transfer.flying as int) == chunk
    }
}

/// Whether `after` is `data` with `len` bytes from `at` on replaced, and no other byte
/// changed.
pub open spec fn received(data: Seq<u8>, after: Seq<u8>, at: int, len: int) -> bool {
    &&& after.len() == data.len()
    &&& forall|i: int| 0 <= i < data.len() && !(at <= i < at + len) ==> after[i] == data[i]
}

/// What one call of [`UserSpaceDMA::copy_from`] does to a transfer from the device, and to
/// the bytes `data` that receive it. The chunk that has arrived is what a load finds in the
/// buffer; where the buffer is memory, that is what the buffer holds.
pub open spec fn from_device_step(
    engine: EngineState,
    before: TransferState,
    window: Registers,
    memory: bool,
    data: Seq<u8>,
    engine_after: EngineState,
    after: TransferState,
    window_after: Registers,
    data_after: Seq<u8>,
    r: Result<Progress, Error>,
) -> bool {
    let unchanged = engine_after == engine && after == before && window_after == window
        && data_after == data;
    match settled(engine, before) {
        Some(answer) => r == answer && unchanged,
        None => match before.phase {
            Phase::Fresh => {
                &&& data_after == data
                &&& {
                    ||| r == Ok::<Progress, Error>(Progress::RetryLater) && unchanged
                    ||| {
                        &&& engine.idle_from.len() > 0
                        &&& continued(
                            engine.with_idle(true, engine.idle_from.drop_first()),
                            before,
                            0,
                            0,
                            engine.idle_from[0],
                            window,
                            memory,
                            engine_after,
                            after,
                            window_after,
                            r,
                        )
                    }
                }
            },
            _ => match engine.read.wait_outcome() {
                Err(source) => {
                    &&& r == Err::<Progress, Error>(Error::ErrorInterrupt { source })
                    &&& after == before.failed(source)
                    &&& engine_after == engine.abandoned(true, before.buffer->Some_0.slot())
                    &&& window_after == window
                    &&& data_after == data
                },
                Ok(_) => {
                    &&& received(data, data_after, before.done as int, before.flying as int)
                    &&& before.buffer->Some_0.memory() ==> data_after == stored(
                        data,
                        before.done as int,
                        loaded(before.buffer->Some_0.bytes(), 0, before.flying as int),
                    )
                    &&& continued(
                        engine.consumed(true),
                        before,
                        before.done + before.flying,
                        before.waits + 1,
                        before.buffer->Some_0.slot(),
                        window,
                        memory,
                        engine_after,
                        after,
                        window_after,
                        r,
                    )
                },
            },
        },
    }
}

/// The DMA engine that is driven from user space.
pub struct UserSpaceDMA {
    engine_offset: usize,
    to_dev_buffer: BufferPool,
    from_dev_buffer: BufferPool,
    read_int: Interrupt,
    write_int: Interrupt,
    to_dev_flying: usize,
    from_dev_flying: usize,
}

impl View for UserSpaceDMA {
    type V = EngineState;

    closed spec fn view(&self) -> EngineState {
        EngineState {
            offset: self.engine_offset,
            idle_to: self.to_dev_buffer.idle(),
            idle_from: self.from_dev_buffer.idle(),
            write: self.write_int@,
            read: self.read_int@,
            flying_to: self.to_dev_flying,
            flying_from: self.from_dev_flying,
        }
    }
}

impl UserSpaceDMA {
    pub closed spec fn wf(&self) -> bool {
        self.to_dev_buffer.wf() && self.from_dev_buffer.wf() && self@.wf()
    }

    /// What to ask the driver for to get a buffer of one direction.
    pub fn buffer_request(from_device: bool) -> (r: BufferRequest)
        ensures
            r == (BufferRequest { size: BUFFER_SIZE, from_device }),
    {
        BufferRequest { size: BUFFER_SIZE, from_device }
    }

    /// The offset in the driver's file at which the buffer `buffer_id` is mapped: the buffers
    /// follow the first four pages, one page of offset apart. Nothing where the offset does
    /// not fit in 64 bits.
    pub fn buffer_offset(buffer_id: usize) -> (r: Option<u64>)
        ensures
            r == if (BUFFER_PAGES_BASE + buffer_id) * PAGE_SIZE <= u64::MAX {
                Some(((BUFFER_PAGES_BASE + buffer_id) * PAGE_SIZE) as u64)
            } else {
                None
            },
    {
        if buffer_id as u64 <= u64::MAX / PAGE_SIZE - BUFFER_PAGES_BASE {
            Some((BUFFER_PAGES_BASE + buffer_id as u64) * PAGE_SIZE)
        } else {
            None
        }
    }

    /// The engine whose controller lies at `offset` in the register window, with one buffer
    /// for each direction and the lines `read_interrupt` and `write_interrupt`, on which
    /// nothing has fired.
    pub fn new(
        offset: usize,
        read_interrupt: usize,
        write_interrupt: usize,
        to_dev_buffer: DMABuffer,
        from_dev_buffer: DMABuffer,
    ) -> (r: UserSpaceDMA)
        requires
            to_dev_buffer.wf(),
            from_dev_buffer.wf(),
        ensures
            r.wf(),
            r@ == (EngineState {
                offset,
                idle_to: seq![to_dev_buffer.slot()],
                idle_from: seq![from_dev_buffer.slot()],
                write: Line { index: write_interrupt, pending: 0, failure: None },
                read: Line { index: read_interrupt, pending: 0, failure: None },
                flying_to: 0,
                flying_from: 0,
            }),
    {
        let mut read_map = BufferPool::new();
        read_map.push(from_dev_buffer);
        let mut write_map = BufferPool::new();
        write_map.push(to_dev_buffer);
        let r = UserSpaceDMA {
            engine_offset: offset,
            to_dev_buffer: write_map,
            from_dev_buffer: read_map,
            read_int: Interrupt::new(read_interrupt),
            write_int: Interrupt::new(write_interrupt),
            to_dev_flying: 0,
            from_dev_flying: 0,
        };
        assert(r@.idle_to =~= seq![to_dev_buffer.slot()]);
        assert(r@.idle_from =~= seq![from_dev_buffer.slot()]);
        r
    }

    /// The offset of the controller's registers in the register window.
    pub fn engine_offset(&self) -> (r: usize)
        ensures
            r == self@.offset,
    {
        self.engine_offset
    }

    /// The line that fires when a chunk has come from the device.
    pub fn read_int(&self) -> (r: &Interrupt)
        ensures
            r@ == self@.read,
    {
        &self.read_int
    }

    /// The line that fires when a chunk has reached the device.
    pub fn write_int(&self) -> (r: &Interrupt)
        ensures
            r@ == self@.write,
    {
        &self.write_int
    }

    /// Reports that the line of one direction has fired. An interrupt for which no chunk is
    /// on its way is refused, and the engine is left as it was.
    pub fn interrupt_fired(&mut self, from_device: bool) -> (r: Result<(), Error>)
        requires
            old(self).wf(),
        ensures
            final(self).wf(),
            old(self)@.line(from_device).pending < old(self)@.flying(from_device) ==> r == Ok::<
                (),
                Error,
            >(()) && final(self)@ == old(self)@.fired(from_device),
            old(self)@.line(from_device).pending >= old(self)@.flying(from_device) ==> r == Err::<
                (),
                Error,
            >(Error::TooManyInterrupts) && final(self)@ == old(self)@,
    {
        if from_device {
            if self.read_int.pending() as u128 >= self.from_dev_flying as u128 {
                return Err(Error::TooManyInterrupts);
            }
            self.read_int.notify();
        } else {
            if self.write_int.pending() as u128 >= self.to_dev_flying as u128 {
                return Err(Error::TooManyInterrupts);
            }
            self.write_int.notify();
        }
        Ok(())
    }

    /// Reports that the channel of one direction's line has failed with `errno`.
    pub fn interrupt_failed(&mut self, from_device: bool, errno: i32)
        requires
            old(self).wf(),
        ensures
            final(self).wf(),
            final(self)@ == if from_device {
                EngineState { read: Line { failure: Some(errno), ..old(self)@.read }, ..old(self)@ }
            } else {
                EngineState {
                    write: Line { failure: Some(errno), ..old(self)@.write },
                    ..old(self)@
                }
            },
    {
        if from_device {
            self.read_int.fail(errno);
        } else {
            self.write_int.fail(errno);
        }
    }

    /// Programs the controller to move `size` bytes between the bus address `addr_host` and
    /// the device address `addr_device`. The command word is written last.
    pub fn schedule_dma_transfer(
        &self,
        window: &mut RegisterWindow,
        addr_host: u64,
        addr_device: DeviceAddress,
        size: DeviceSize,
        from_device: bool,
    )
        requires
            self@.offset + ENGINE_REGISTERS <= old(window).size(),
        ensures
            final(window).follows(
                *old(window),
                programmed(
                    old(window)@,
                    self@.offset as int,
                    addr_host,
                    addr_device,
                    size,
                    from_device,
                ),
            ),
    {
        let total: usize = window.len();
        window.write64(self.engine_offset, addr_host);
        window.write64(self.engine_offset + 0x08, addr_device);
        window.write64(self.engine_offset + 0x10, size);
        window.write64(
            self.engine_offset + 0x20,
            if from_device {
                COMMAND_FROM_DEVICE
            } else {
                COMMAND_TO_DEVICE
            },
        );
    }

    /// Sends the next chunk of a transfer on its way or, where every byte is done, puts the
    /// buffer back and closes the transfer. To the device, the chunk is staged first.
    fn go_on(
        &mut self,
        window: &mut RegisterWindow,
        transfer: &mut Transfer,
        buffer: DMABuffer,
        staging: Option<&[u8]>,
    ) -> (r: Result<Progress, Error>)
        requires
            old(self).wf(),
            buffer.wf(),
            !old(transfer).finished,
            old(transfer).error is None,
            old(transfer).buffer is None,
            old(transfer).flying == 0,
            old(transfer).done <= old(transfer).len,
            old(transfer).device + old(transfer).len <= u64::MAX,
            old(transfer).done < old(transfer).len ==> old(transfer).done == old(transfer).waits
                * buffer.spec_size(),
            old(transfer).done == old(transfer).len ==> old(transfer).waits == chunks(
                old(transfer).len as int,
                buffer.spec_size() as int,
            ),
            old(self)@.offset + ENGINE_REGISTERS <= old(window).size(),
            staging matches Some(data) ==> data@.len() == old(transfer).len,
        ensures
            final(self).wf(),
            final(transfer)@.wf(),
            final(window).size() == old(window).size(),
            final(window).memory() == old(window).memory(),
            continued(
                old(self)@,
                TransferState { from_device: old(transfer).from_device, ..old(transfer)@ },
                old(transfer).done as int,
                old(transfer).waits as int,
                buffer.slot(),
                old(window)@,
                old(window).memory(),
                final(self)@,
                final(transfer)@,
                final(window)@,
                r,
            ),
            match staging {
                Some(data) => staged(final(transfer)@, data@),
                None => final(transfer)@.buffer matches Some(held) ==> held == buffer,
            },
    {
        let size: usize = buffer.size();
        transfer.chunk = size;
        if transfer.done == transfer.len {
            if transfer.from_device {
                self.from_dev_buffer.push(buffer);
            } else {
                self.to_dev_buffer.push(buffer);
            }
            transfer.finished = true;
            Ok(Progress::Finished)
        } else {
            let rest: usize = transfer.len - transfer.done;
            let n: usize = if rest < size {
                rest
            } else {
                size
            };
            let mut buffer = buffer;
            match staging {
                Some(data) => {
                    let chunk = slice_subrange(data, transfer.done, transfer.done + n);
                    let ghost held = buffer.bytes();
                    proof {
                        buffer.lemma_size();
                    }
                    buffer.store(0, chunk);
                    proof {
                        if buffer.memory() {
                            lemma_stored_then_loaded(held, 0, chunk@);
                        }
                    }
                },
                None => {},
            }
            self.schedule_dma_transfer(
                window,
                buffer.addr(),
                transfer.device + transfer.done as u64,
                n as u64,
                transfer.from_device,
            );
            transfer.flying = n;
            transfer.buffer = Some(buffer);
            if transfer.from_device {
                if self.from_dev_flying < usize::MAX {
                    self.from_dev_flying = self.from_dev_flying + 1;
                }
            } else {
                if self.to_dev_flying < usize::MAX {
                    self.to_dev_flying = self.to_dev_flying + 1;
                }
            }
            Ok(Progress::AwaitInterrupt)
        }
    }

    /// Closes a transfer whose line has failed with `source` while its chunk was on its way:
    /// the buffer goes back to the end of its pool, and the chunk is counted no longer.
    fn abandon(
        &mut self,
        transfer: &mut Transfer,
        buffer: DMABuffer,
        source: crate::interrupt::Error,
    ) -> (r: Result<Progress, Error>)
        requires
            old(self).wf(),
            buffer.wf(),
            old(self)@.line(old(transfer).from_device).pending == 0,
            !old(transfer).finished,
            old(transfer).error is None,
            old(transfer).buffer is None,
            old(transfer).device + old(transfer).len <= u64::MAX,
        ensures
            final(self).wf(),
            final(transfer)@.wf(),
            r == Err::<Progress, Error>(Error::ErrorInterrupt { source }),
            final(transfer)@ == (TransferState {
                phase: Phase::Failed,
                flying: 0,
                buffer: None,
                error: Some(source),
                from_device: old(transfer).from_device,
                device: old(transfer).device,
                len: old(transfer).len,
                done: old(transfer).done,
                waits: old(transfer).waits,
                chunk: old(transfer).chunk,
            }),
            final(self)@ == old(self)@.abandoned(old(transfer).from_device, buffer.slot()),
    {
        if transfer.from_device {
            self.from_dev_buffer.push(buffer);
            if self.from_dev_flying > 0 {
                self.from_dev_flying = self.from_dev_flying - 1;
            }
        } else {
            self.to_dev_buffer.push(buffer);
            if self.to_dev_flying > 0 {
                self.to_dev_flying = self.to_dev_flying - 1;
            }
        }
        transfer.flying = 0;
        transfer.error = Some(source);
        Err(Error::ErrorInterrupt { source })
    }

    /// Takes a transfer to the device as far as it can go without waiting.
    ///
    /// A fresh transfer takes a buffer, stages its first chunk and programs the controller. A
    /// running transfer consumes the write interrupt of the chunk on its way, and then either
    /// stages and programs the next chunk or, after the last, puts the buffer back. Where the
    /// interrupt has not fired yet, or no buffer is idle, nothing is changed and the answer
    /// says what to wait for. Where the line has failed, a running transfer is closed and
    /// puts its buffer back, and a fresh one is refused. `data` holds the bytes of the whole
    /// transfer, at every call.
    pub fn copy_to(
        &mut self,
        window: &mut RegisterWindow,
        transfer: &mut Transfer,
        data: &[u8],
    ) -> (r: Result<Progress, Error>)
        requires
            old(self).wf(),
            old(transfer)@.wf(),
            !old(transfer)@.from_device,
            data@.len() == old(transfer)@.len,
            old(self)@.offset + ENGINE_REGISTERS <= old(window).size(),
        ensures
            final(self).wf(),
            final(transfer)@.wf(),
            final(window).size() == old(window).size(),
            final(window).memory() == old(window).memory(),
            final(self)@.read == old(self)@.read,
            final(self)@.idle_from == old(self)@.idle_from,
            final(self)@.flying_from == old(self)@.flying_from,
            final(transfer)@.phase is Finished ==> final(transfer)@.waits == chunks(
                final(transfer)@.len as int,
                final(transfer)@.chunk as int,
            ),
            to_device_step(
                old(self)@,
                old(transfer)@,
                old(window)@,
                old(window).memory(),
                data@,
                final(self)@,
                final(transfer)@,
                final(window)@,
                r,
            ),
    {
        match transfer.error {
            Some(source) => {
                return Err(Error::ErrorInterrupt { source });
            },
            None => {},
        }
        if transfer.finished {
            return Ok(Progress::Finished);
        }
        let buffer = match transfer.buffer.take() {
            None => {
                match self.write_int.failure() {
                    Some(errno) => {
                        return Err(
                            Error::ErrorInterrupt {
                                source: crate::interrupt::Error::Channel {
                                    index: self.write_int.index(),
                                    errno,
                                },
                            },
                        );
                    },
                    None => {},
                }
                match self.to_dev_buffer.steal() {
                    None => {
                        return Ok(Progress::RetryLater);
                    },
                    Some(buffer) => {
                        let size: usize = buffer.size();
                        proof {
                            lemma_chunk_accounting(transfer.len as int, 0, 0, 0, size as int);
                        }
                        buffer
                    },
                }
            },
            Some(buffer) => match self.write_int.wait_for_interrupt() {
                Err(crate::interrupt::Error::WouldBlock { index }) => {
                    transfer.buffer = Some(buffer);
                    return Ok(Progress::AwaitInterrupt);
                },
                Err(source) => {
                    return self.abandon(transfer, buffer, source);
                },
                Ok(()) => {
                    let size: usize = buffer.size();
                    proof {
                        lemma_chunk_accounting(
                            transfer.len as int,
                            transfer.done as int,
                            transfer.flying as int,
                            transfer.waits as int,
                            size as int,
                        );
                    }
                    self.to_dev_flying = self.to_dev_flying - 1;
                    transfer.done = transfer.done + transfer.flying;
                    transfer.flying = 0;
                    transfer.waits = transfer.waits + 1;
                    buffer
                },
            },
        };
        self.go_on(window, transfer, buffer, Some(data))
    }

    /// Takes a transfer from the device as far as it can go without waiting.
    ///
    /// A fresh transfer takes a buffer and programs the controller for its first chunk. A
    /// running transfer consumes the read interrupt of the chunk on its way, copies the chunk
    /// out of the buffer to its place in `data`, and then either programs the next chunk or,
    /// after the last, puts the buffer back. Where the interrupt has not fired yet, or no
    /// buffer is idle, nothing is changed and the answer says what to wait for. Where the line
    /// has failed, a running transfer is closed and puts its buffer back, and a fresh one is
    /// refused. `data` receives the bytes of the whole transfer, and is the same at every
    /// call.
    pub fn copy_from(
        &mut self,
        window: &mut RegisterWindow,
        transfer: &mut Transfer,
        data: &mut [u8],
    ) -> (r: Result<Progress, Error>)
        requires
            old(self).wf(),
            old(transfer)@.wf(),
            old(transfer)@.from_device,
            old(data)@.len() == old(transfer)@.len,
            old(self)@.offset + ENGINE_REGISTERS <= old(window).size(),
        ensures
            final(self).wf(),
            final(transfer)@.wf(),
            final(data)@.len() == old(data)@.len(),
            final(window).size() == old(window).size(),
            final(window).memory() == old(window).memory(),
            final(self)@.write == old(self)@.write,
            final(self)@.idle_to == old(self)@.idle_to,
            final(self)@.flying_to == old(self)@.flying_to,
            final(transfer)@.phase is Finished ==> final(transfer)@.waits == chunks(
                final(transfer)@.len as int,
                final(transfer)@.chunk as int,
            ),
            from_device_step(
                old(self)@,
                old(transfer)@,
                old(window)@,
                old(window).memory(),
                old(data)@,
                final(self)@,
                final(transfer)@,
                final(window)@,
                final(data)@,
                r,
            ),
    {
        match transfer.error {
            Some(source) => {
                return Err(Error::ErrorInterrupt { source });
            },
            None => {},
        }
        if transfer.finished {
            return Ok(Progress::Finished);
        }
        let buffer = match transfer.buffer.take() {
            None => {
                match self.read_int.failure() {
                    Some(errno) => {
                        return Err(
                            Error::ErrorInterrupt {
                                source: crate::interrupt::Error::Channel {
                                    index: self.read_int.index(),
                                    errno,
                                },
                            },
                        );
                    },
                    None => {},
                }
                match self.from_dev_buffer.steal() {
                    None => {
                        return Ok(Progress::RetryLater);
                    },
                    Some(buffer) => {
                        let size: usize = buffer.size();
                        proof {
                            lemma_chunk_accounting(transfer.len as int, 0, 0, 0, size as int);
                        }
                        buffer
                    },
                }
            },
            Some(buffer) => match self.read_int.wait_for_interrupt() {
                Err(crate::interrupt::Error::WouldBlock { index }) => {
                    transfer.buffer = Some(buffer);
                    return Ok(Progress::AwaitInterrupt);
                },
                Err(source) => {
                    return self.abandon(transfer, buffer, source);
                },
                Ok(()) => {
                    let size: usize = buffer.size();
                    proof {
                        lemma_chunk_accounting(
                            transfer.len as int,
                            transfer.done as int,
                            transfer.flying as int,
                            transfer.waits as int,
                            size as int,
                        );
                    }
                    let chunk = buffer.load(0, transfer.flying);
                    fill(data, transfer.done, chunk.as_slice());
                    self.from_dev_flying = self.from_dev_flying - 1;
                    transfer.done = transfer.done + transfer.flying;
                    transfer.flying = 0;
                    transfer.waits = transfer.waits + 1;
                    buffer
                },
            },
        };
        self.go_on(window, transfer, buffer, None)
    }
}

/// Copies `source` into `target`, starting at `at`.
pub fn fill(target: &mut [u8], at: usize, source: &[u8])
    requires
        at + source@.len() <= old(target)@.len(),
    ensures
        final(target)@ == stored(old(target)@, at as int, source@),
{
    let n: usize = source.len();
    let total: usize = target.len();
    let mut k: usize = 0;
    while k < n
        invariant
            n == source@.len(),
            at + n <= total,
            total == target@.len(),
            target@.len() == old(target)@.len(),
            k <= n,
            forall|i: int| 0 <= i < k ==> target@[at + i] == source@[i],
            forall|i: int|
                0 <= i < at || at + k <= i < target@.len() ==> target@[i] == old(target)@[i],
        decreases n - k,
    {
        target[at + k] = source[k];
        k = k + 1;
    }
    assert(target@ =~= stored(old(target)@, at as int, source@));
}

/// The arithmetic of chunks: after `waits` full chunks, `done` bytes are complete and a chunk
/// of `flying` bytes is on its way.
pub proof fn lemma_chunk_accounting(len: int, done: int, flying: int, waits: int, size: int)
    requires
        size > 0,
        0 <= waits,
        0 <= done,
        done == waits * size,
        flying == 0 && done == 0 || done < len && flying == chunk_len(len, done, size),
    ensures
        done + flying <= len || len < 0,
        waits < len || flying == 0,
        done + flying < len ==> done + flying == (waits + if flying == 0 {
            0int
        } else {
            1int
        }) * size,
        done + flying == len ==> chunks(len, size) == waits + if flying == 0 {
            0int
        } else {
            1int
        },
{
    assert((waits + 1) * size == waits * size + size) by (nonlinear_arith);
    if flying == 0 {
        assert(waits == 0) by (nonlinear_arith)
            requires
                waits * size == 0,
                size > 0,
                waits >= 0,
        ;
        if len == 0 {
            assert((len + size - 1) / size == 0) by (nonlinear_arith)
                requires
                    size > 0,
                    len == 0,
            ;
        }
    } else {
        assert(waits < len) by (nonlinear_arith)
            requires
                waits * size < len,
                size > 0,
                waits >= 0,
        ;
        if done + flying == len {
            assert((len + size - 1) / size == waits + 1) by (nonlinear_arith)
                requires
                    waits * size < len,
                    len <= waits * size + size,
                    size > 0,
            ;
        }
    }
}

/// The number of chunks is the length divided by the buffer's size, rounded up: that many
/// chunks cover the length, and one fewer does not.
pub proof fn lemma_chunks_is_ceiling(len: int, size: int)
    requires
        0 <= len,
        0 < size,
    ensures
        0 <= chunks(len, size),
        len <= chunks(len, size) * size,
        len > 0 ==> (chunks(len, size) - 1) * size < len,
        len == 0 ==> chunks(len, size) == 0,
{
    assert(0 <= (len + size - 1) / size && len <= ((len + size - 1) / size) * size && (len > 0
        ==> (((len + size - 1) / size) - 1) * size < len) && (len == 0 ==> (len + size - 1) / size
        == 0)) by (nonlinear_arith)
        requires
            0 <= len,
            0 < size,
    ;
}

/// A buffer that is lent out and comes back leaves its pool with the buffers it had: the
/// same buffers, each as often as before, and in the same order where the pool has one.
pub proof fn lemma_buffers_conserved(idle: Seq<Slot>)
    requires
        idle.len() > 0,
    ensures
        idle.drop_first().push(idle[0]).to_multiset() == idle.to_multiset(),
        idle.len() == 1 ==> idle.drop_first().push(idle[0]) == idle,
{
    let first = seq![idle[0]];
    let rest = idle.drop_first();
    assert(rest.push(idle[0]) =~= rest + first);
    assert(idle =~= first + rest);
    vstd::seq_lib::lemma_seq_union_to_multiset_commutative(first, rest);
    if idle.len() == 1 {
        assert(rest.push(idle[0]) =~= idle);
    }
}

/// The chunks of a transfer from the device arrive in their places: where `data` holds the
/// first `done` bytes of `sent`, and the chunk that follows them is received, `data` holds
/// the bytes of `sent` up to the end of that chunk.
pub proof fn lemma_chunk_received(sent: Seq<u8>, data: Seq<u8>, done: int, n: int)
    requires
        0 <= done,
        0 <= n,
        done + n <= sent.len(),
        data.len() == sent.len(),
        data.subrange(0, done) == sent.subrange(0, done),
    ensures
        stored(data, done, sent.subrange(done, done + n)).subrange(0, done + n) == sent.subrange(
            0,
            done + n,
        ),
        done + n == sent.len() ==> stored(data, done, sent.subrange(done, done + n)) == sent,
{
    let after = stored(data, done, sent.subrange(done, done + n));
    assert forall|i: int| 0 <= i < done + n implies after[i] == sent[i] by {
        if i < done {
            assert(data.subrange(0, done)[i] == data[i]);
            assert(sent.subrange(0, done)[i] == sent[i]);
            assert(after[i] == data[i]);
        } else {
            assert(after[i] == sent.subrange(done, done + n)[i - done]);
            assert(sent.subrange(done, done + n)[i - done] == sent[i]);
        }
    }
    assert(after.subrange(0, done + n) =~= sent.subrange(0, done + n));
    if done + n == sent.len() {
        assert(after =~= sent);
    }
}

/// The device memory after the controller has carried out the first `count` chunks of a
/// transfer of `data` to the device address `ptr` through a buffer of `size` bytes: each chunk
/// stands at its place behind `ptr`.
pub open spec fn device_after(device: Seq<u8>, data: Seq<u8>, ptr: int, size: int, count: int) -> Seq<
    u8,
>
    decreases count,
{
    if count <= 0 {
        device
    } else {
        let done = (count - 1) * size;
        let n = chunk_len(data.len() as int, done, size);
        stored(
            device_after(device, data, ptr, size, count - 1),
            ptr + done,
            data.subrange(done, done + n),
        )
    }
}

/// What a transfer from the device address `ptr` has put into `data` after its first `count`
/// chunks have been received through a buffer of `size` bytes, where the controller hands
/// over what the device holds.
pub open spec fn host_after(device: Seq<u8>, data: Seq<u8>, ptr: int, size: int, count: int) -> Seq<
    u8,
>
    decreases count,
{
    if count <= 0 {
        data
    } else {
        let done = (count - 1) * size;
        let n = chunk_len(data.len() as int, done, size);
        stored(
            host_after(device, data, ptr, size, count - 1),
            done,
            loaded(device, ptr + done, n),
        )
    }
}

/// The number of bytes that the first `count` chunks of a transfer of `len` bytes cover.
pub open spec fn covered(len: int, size: int, count: int) -> int {
    if count * size < len {
        count * size
    } else {
        len
    }
}

/// After the first `count` chunks of a transfer to the device, the device holds the bytes
/// that these chunks cover, and has kept its size.
pub proof fn lemma_chunks_sent(device: Seq<u8>, data: Seq<u8>, ptr: int, size: int, count: int)
    requires
        0 < size,
        0 <= ptr,
        ptr + data.len() <= device.len(),
        0 <= count <= chunks(data.len() as int, size),
    ensures
        device_after(device, data, ptr, size, count).len() == device.len(),
        0 <= covered(data.len() as int, size, count) <= data.len(),
        loaded(
            device_after(device, data, ptr, size, count),
            ptr,
            covered(data.len() as int, size, count),
        ) == data.subrange(0, covered(data.len() as int, size, count)),
    decreases count,
{
    let len = data.len() as int;
    lemma_chunks_is_ceiling(len, size);
    assert(0 <= count * size) by (nonlinear_arith)
        requires
            0 <= count,
            0 < size,
    ;
    if count == 0 {
        assert(count * size == 0) by (nonlinear_arith)
            requires
                count == 0,
        ;
        assert(loaded(device, ptr, 0) =~= data.subrange(0, 0));
    } else {
        lemma_chunks_sent(device, data, ptr, size, count - 1);
        let done = (count - 1) * size;
        assert(count * size == done + size) by (nonlinear_arith)
            requires
                done == (count - 1) * size,
        ;
        assert(done < len) by (nonlinear_arith)
            requires
                done == (count - 1) * size,
                count <= chunks(len, size),
                (chunks(len, size) - 1) * size < len,
                0 < size,
        ;
        let n = chunk_len(len, done, size);
        let before = device_after(device, data, ptr, size, count - 1);
        let after = device_after(device, data, ptr, size, count);
        let now = covered(len, size, count);
        assert(covered(len, size, count - 1) == done);
        assert(now == done + n);
        assert forall|i: int| 0 <= i < now implies after[ptr + i] == data[i] by {
            if i < done {
                assert(after[ptr + i] == before[ptr + i]);
                assert(loaded(before, ptr, done)[i] == before[ptr + i]);
                assert(data.subrange(0, done)[i] == data[i]);
            } else {
                assert(after[ptr + i] == data.subrange(done, done + n)[i - done]);
            }
        }
        assert(loaded(after, ptr, now) =~= data.subrange(0, now));
    }
}

/// After the first `count` chunks of a transfer from the device, the host holds the bytes of
/// the device that these chunks cover.
pub proof fn lemma_chunks_received(device: Seq<u8>, data: Seq<u8>, ptr: int, size: int, count: int)
    requires
        0 < size,
        0 <= ptr,
        ptr + data.len() <= device.len(),
        0 <= count <= chunks(data.len() as int, size),
    ensures
        host_after(device, data, ptr, size, count).len() == data.len(),
        0 <= covered(data.len() as int, size, count) <= data.len(),
        host_after(device, data, ptr, size, count).subrange(
            0,
            covered(data.len() as int, size, count),
        ) == loaded(device, ptr, covered(data.len() as int, size, count)),
    decreases count,
{
    let len = data.len() as int;
    lemma_chunks_is_ceiling(len, size);
    assert(0 <= count * size) by (nonlinear_arith)
        requires
            0 <= count,
            0 < size,
    ;
    if count == 0 {
        assert(count * size == 0) by (nonlinear_arith)
            requires
                count == 0,
        ;
        assert(data.subrange(0, 0) =~= loaded(device, ptr, 0));
    } else {
        lemma_chunks_received(device, data, ptr, size, count - 1);
        let done = (count - 1) * size;
        assert(count * size == done + size) by (nonlinear_arith)
            requires
                done == (count - 1) * size,
        ;
        assert(done < len) by (nonlinear_arith)
            requires
                done == (count - 1) * size,
                count <= chunks(len, size),
                (chunks(len, size) - 1) * size < len,
                0 < size,
        ;
        let n = chunk_len(len, done, size);
        let before = host_after(device, data, ptr, size, count - 1);
        let after = host_after(device, data, ptr, size, count);
        let now = covered(len, size, count);
        assert(covered(len, size, count - 1) == done);
        assert(now == done + n);
        assert forall|i: int| 0 <= i < now implies after[i] == device[ptr + i] by {
            if i < done {
                assert(after[i] == before[i]);
                assert(before.subrange(0, done)[i] == before[i]);
                assert(loaded(device, ptr, done)[i] == device[ptr + i]);
            } else {
                assert(after[i] == loaded(device, ptr + done, n)[i - done]);
            }
        }
        assert(after.subrange(0, now) =~= loaded(device, ptr, now));
    }
}

/// With a controller that moves each chunk as it is programmed, what the engine copies to
/// the device is what it copies back from the same address: after all chunks of the one
/// transfer and all chunks of the other, through buffers of any sizes, the host holds the
/// bytes that it sent.
pub proof fn lemma_engine_round_trip(
    device: Seq<u8>,
    sent: Seq<u8>,
    data: Seq<u8>,
    ptr: int,
    size_to: int,
    size_from: int,
)
    requires
        0 < size_to,
        0 < size_from,
        0 <= ptr,
        ptr + sent.len() <= device.len(),
        data.len() == sent.len(),
    ensures
        host_after(
            device_after(device, sent, ptr, size_to, chunks(sent.len() as int, size_to)),
            data,
            ptr,
            size_from,
            chunks(data.len() as int, size_from),
        ) == sent,
{
    let len = sent.len() as int;
    let count_to = chunks(len, size_to);
    let count_from = chunks(len, size_from);
    lemma_chunks_is_ceiling(len, size_to);
    lemma_chunks_is_ceiling(len, size_from);
    let filled = device_after(device, sent, ptr, size_to, count_to);
    lemma_chunks_sent(device, sent, ptr, size_to, count_to);
    lemma_chunks_received(filled, data, ptr, size_from, count_from);
    assert(covered(len, size_to, count_to) == len);
    assert(covered(len, size_from, count_from) == len);
    let back = host_after(filled, data, ptr, size_from, count_from);
    assert(back.subrange(0, len) =~= back);
    assert(sent.subrange(0, len) =~= sent);
}

} // verus!
