//! A processing element: its registers, its life cycle, and the work deferred to its release.

use crate::debug::DebugControl;
use crate::device::DataTransferPrealloc;
use crate::device::DeviceAddress;
use crate::device::DeviceSize;
use crate::device::OffchipMemory;
use crate::device::PEParameter;
use crate::interrupt::Interrupt;
use crate::interrupt::Line;
use crate::registers::lemma_write_elsewhere;
use crate::registers::RegisterWindow;
use crate::registers::Registers;
use std::sync::Arc;
use vstd::prelude::*;

verus! {

#[allow(inconsistent_fields)]
#[derive(Debug, Clone, PartialEq, Eq)]
pub enum Error {
    /// Only 32 and 64 bit values can be written to a register.
    UnsupportedParameter { param: PEParameter },
    /// Registers are read and written in 4 or 8 bytes, not in `param` bytes.
    UnsupportedRegisterSize { param: usize },
    /// The processing element is already running.
    PEAlreadyActive { id: usize },
    /// The completion file could not be read.
    ReadCompletionError { errno: i32 },
    /// The processing element could not be entered into the set of active ones.
    CouldNotInsertPE { pe_id: usize },
    /// The interrupt of the processing element could not be waited on.
    ErrorInterrupt { source: crate::interrupt::Error },
    /// No eventfd could be made for the interrupt.
    ErrorEventFD { errno: i32 },
    /// The eventfd of the interrupt could not be read.
    ErrorEventFDRead { errno: i32 },
    /// The eventfd of the interrupt could not be registered with the driver.
    ErrorEventFDRegister { errno: i32 },
    /// Debugging could not be switched on for the processing element `id`.
    DebugError { source: crate::debug::Error, id: usize },
}

/// Work that is due when a processing element has completed.
#[derive(Debug, Clone, PartialEq, Eq)]
pub enum CopyBack {
    /// Move the buffer from the device back to the host.
    Transfer(DataTransferPrealloc),
    /// Give the device memory at the address back to the memory it was taken from.
    Free(DeviceAddress, Arc<OffchipMemory>),
}

pub type PEId = usize;

/// The control register: writing 1 starts the processing element.
pub const CONTROL: usize = 0x00;

/// The global interrupt enable register.
pub const GLOBAL_INTERRUPT_ENABLE: usize = 0x04;

/// The local interrupt enable register.
pub const LOCAL_INTERRUPT_ENABLE: usize = 0x08;

/// The interrupt status register: bit 0 is set while an interrupt is raised, and writing 1
/// acknowledges it.
pub const INTERRUPT_STATUS: usize = 0x0c;

/// The 64-bit register that holds the return value.
pub const RETURN_VALUE: usize = 0x10;

/// The register of the first argument.
pub const ARGUMENTS: usize = 0x20;

/// The distance from one argument register to the next.
pub const ARGUMENT_STRIDE: usize = 0x10;

/// The bytes that the registers before the first argument take up.
pub const FIXED_REGISTERS: usize = 0x18;

/// A processing element as contracts see it.
pub struct PEState {
    pub id: usize,
    pub type_id: PEId,
    /// Where the registers of the processing element start in the register window.
    pub offset: DeviceAddress,
    pub size: DeviceSize,
    pub name: Seq<char>,
    pub active: bool,
    /// The work deferred to the release, in the order in which it was added; `None` where
    /// none was added since the last release.
    pub copy_back: Option<Seq<CopyBack>>,
    pub local_memory: Option<Arc<OffchipMemory>>,
    /// The completion line.
    pub interrupt: Line,
}

impl PEState {
    /// The offset in the register window of the register `register` of this processing
    /// element.
    pub open spec fn register(self, register: int) -> int {
        self.offset + register
    }

    /// The offset in the register window of the register of the argument `argn`.
    pub open spec fn argument(self, argn: int) -> int {
        self.offset + ARGUMENTS + argn * ARGUMENT_STRIDE
    }

    /// Whether the registers before the first argument lie within a window of `size` bytes.
    pub open spec fn within(self, size: nat) -> bool {
        self.offset + FIXED_REGISTERS <= size
    }
}

/// The work of a list of copy-backs as contracts see it.
pub open spec fn copy_backs(list: Option<Vec<CopyBack>>) -> Option<Seq<CopyBack>> {
    match list {
        Some(list) => Some(list@),
        None => None,
    }
}

/// A processing element of the device.
///
/// It can be started and released, and its registers can be read and written, through the
/// register window that holds them. Work that is due after its run is kept until the release.
pub struct PE {
    id: usize,
    type_id: PEId,
    offset: DeviceAddress,
    size: DeviceSize,
    name: String,
    active: bool,
    copy_back: Option<Vec<CopyBack>>,
    local_memory: Option<Arc<OffchipMemory>>,
    interrupt: Interrupt,
    debug: Box<dyn DebugControl>,
}

impl View for PE {
    type V = PEState;

    closed spec fn view(&self) -> PEState {
        PEState {
            id: self.id,
            type_id: self.type_id,
            offset: self.offset,
            size: self.size,
            name: self.name@,
            active: self.active,
            copy_back: copy_backs(self.copy_back),
            local_memory: self.local_memory,
            interrupt: self.interrupt@,
        }
    }
}

impl PE {
    /// An idle processing element without deferred work, with `interrupt` as its completion
    /// line: what making the line has come to. Where the line could not be made, there is no
    /// processing element, and the error is the line's.
    pub fn new(
        id: usize,
        type_id: PEId,
        offset: DeviceAddress,
        size: DeviceSize,
        name: String,
        interrupt: Result<Interrupt, crate::interrupt::Error>,
        debug: Box<dyn DebugControl>,
    ) -> (r: Result<PE, Error>)
        ensures
            match interrupt {
                Ok(line) => r matches Ok(pe) && pe@ == (PEState {
                    id,
                    type_id,
                    offset,
                    size,
                    name: name@,
                    active: false,
                    copy_back: None,
                    local_memory: None,
                    interrupt: line@,
                }),
                Err(source) => r matches Err(e) && e == (Error::ErrorInterrupt { source }),
            },
    {
        match interrupt {
            Err(source) => Err(Error::ErrorInterrupt { source }),
            Ok(interrupt) => Ok(
                PE {
                    id,
                    type_id,
                    offset,
                    size,
                    name,
                    active: false,
                    copy_back: None,
                    local_memory: None,
                    interrupt,
                    debug,
                },
            ),
        }
    }

    /// The offset in `window` of the register `register` of this processing element.
    fn register(&self, window: &RegisterWindow, register: usize) -> (r: usize)
        requires
            self@.register(register as int) <= window.size(),
        ensures
            r == self@.register(register as int),
    {
        let len: usize = window.len();
        self.offset as usize + register
    }

    /// The offset in `window` of the register of the argument `argn`, which is `width` bytes
    /// wide.
    fn argument(&self, window: &RegisterWindow, argn: usize, width: usize) -> (r: usize)
        requires
            self@.argument(argn as int) + width <= window.size(),
        ensures
            r == self@.argument(argn as int),
    {
        let len: usize = window.len();
        self.offset as usize + ARGUMENTS + argn * ARGUMENT_STRIDE
    }

    /// Starts the processing element: writes 1 to the control register. A processing element
    /// that is running is not started again, and no register is touched.
    pub fn start(&mut self, window: &mut RegisterWindow) -> (r: Result<(), Error>)
        requires
            old(self)@.within(old(window).size()),
        ensures
            r is Ok <==> accepted(old(self)@.active, Operation::Start),
            r is Ok ==> final(self)@.active == after(old(self)@.active, Operation::Start),
            old(self)@.active ==> r == Err::<(), Error>(
                Error::PEAlreadyActive { id: old(self)@.id },
            ) && final(self)@ == old(self)@ && *final(window) == *old(window),
            !old(self)@.active ==> r == Ok::<(), Error>(()) && final(self)@ == (PEState {
                active: true,
                ..old(self)@
            }) && final(window).follows(
                *old(window),
                old(window)@.written32(old(self)@.register(CONTROL as int), 1),
            ),
    {
        if self.active {
            return Err(Error::PEAlreadyActive { id: self.id });
        }
        window.write32(self.register(window, CONTROL), 1);
        self.active = true;
        Ok(())
    }

    /// Completes a run: consumes the completion interrupt, marks the processing element as
    /// idle, acknowledges the interrupt by writing 1 to the interrupt status register, and
    /// reads the return value if `return_value` asks for it. The deferred work is handed out
    /// and forgotten.
    ///
    /// Where the processing element is idle there is nothing to complete: the value is 0 and
    /// no register is touched. Where it is running and its interrupt has not fired, the
    /// answer is the interrupt's, and nothing is changed: the caller blocks on the line,
    /// reports it with [`PE::interrupt_fired`], and releases again.
    pub fn release(&mut self, window: &mut RegisterWindow, return_value: bool) -> (r: Result<
        (u64, Option<Vec<CopyBack>>),
        Error,
    >)
        requires
            old(self)@.within(old(window).size()),
        ensures
            !old(self)@.active ==> {
                &&& r matches Ok((value, list))
                &&& value == 0
                &&& copy_backs(list) == old(self)@.copy_back
                &&& final(self)@ == (PEState { copy_back: None, ..old(self)@ })
                &&& *final(window) == *old(window)
            },
            old(self)@.active ==> match old(self)@.interrupt.wait_outcome() {
                Err(source) => r == Err::<(u64, Option<Vec<CopyBack>>), Error>(
                    Error::ErrorInterrupt { source },
                ) && final(self)@ == old(self)@ && *final(window) == *old(window),
                Ok(_) => {
                    let acknowledged = old(window)@.written32(
                        old(self)@.register(INTERRUPT_STATUS as int),
                        1,
                    );
                    &&& r matches Ok((value, list))
                    &&& copy_backs(list) == old(self)@.copy_back
                    &&& final(self)@ == (PEState {
                        active: false,
                        copy_back: None,
                        interrupt: old(self)@.interrupt.consumed(),
                        ..old(self)@
                    })
                    &&& if return_value {
                        &&& final(window).follows(
                            *old(window),
                            acknowledged.read(
                                old(self)@.register(RETURN_VALUE as int),
                                8,
                                value as int,
                            ),
                        )
                        &&& old(window).memory() ==> value == old(window)@.value64(
                            old(self)@.register(RETURN_VALUE as int),
                        )
                    } else {
                        value == 0 && final(window).follows(*old(window), acknowledged)
                    }
                },
            },
    {
        let was_active = self.active;
        match self.wait_for_completion(window) {
            Err(e) => {
                return Err(e);
            },
            Ok(()) => {},
        }
        let rv: u64 = if return_value && was_active {
            let len: usize = window.len();
            proof {
                if window.memory() {
                    lemma_register_kept(
                        old(window)@,
                        old(self)@.register(INTERRUPT_STATUS as int),
                        old(self)@.register(RETURN_VALUE as int),
                    );
                }
            }
            self.return_value(window)
        } else {
            0
        };
        Ok((rv, self.get_copyback()))
    }

    /// Waits for the completion interrupt of a running processing element, marks it as idle
    /// and acknowledges the interrupt. An idle one is left alone.
    fn wait_for_completion(&mut self, window: &mut RegisterWindow) -> (r: Result<(), Error>)
        requires
            old(self)@.within(old(window).size()),
        ensures
            !old(self)@.active ==> r == Ok::<(), Error>(()) && final(self)@ == old(self)@
                && *final(window) == *old(window),
            old(self)@.active ==> match old(self)@.interrupt.wait_outcome() {
                Err(source) => r == Err::<(), Error>(Error::ErrorInterrupt { source })
                    && final(self)@ == old(self)@ && *final(window) == *old(window),
                Ok(_) => r == Ok::<(), Error>(()) && final(self)@ == (PEState {
                    active: false,
                    interrupt: old(self)@.interrupt.consumed(),
                    ..old(self)@
                }) && final(window).follows(
                    *old(window),
                    old(window)@.written32(old(self)@.register(INTERRUPT_STATUS as int), 1),
                ),
            },
    {
        if self.active {
            match self.interrupt.wait_for_interrupt() {
                Err(source) => {
                    return Err(Error::ErrorInterrupt { source });
                },
                Ok(()) => {},
            }
            self.active = false;
            match self.reset_interrupt(window, true) {
                Err(e) => {
                    return Err(e);
                },
                Ok(()) => {},
            }
        }
        Ok(())
    }

    /// Whether the processing element has raised its interrupt: bit 0 of what a read of the
    /// interrupt status register finds.
    pub fn interrupt_set(&self, window: &mut RegisterWindow) -> (r: Result<bool, Error>)
        requires
            self@.within(old(window).size()),
        ensures
            final(window).follows(
                *old(window),
                old(window)@.read(
                    self@.register(INTERRUPT_STATUS as int),
                    4,
                    final(window)@.last_value(),
                ),
            ),
            0 <= final(window)@.last_value() <= u32::MAX,
            r == Ok::<bool, Error>(lowest_bit(final(window)@.last_value() as u32)),
            old(window).memory() ==> final(window)@.last_value() == old(window)@.value32(
                self@.register(INTERRUPT_STATUS as int),
            ),
    {
        let status = window.read32(self.register(window, INTERRUPT_STATUS));
        Ok(interrupt_bit(status))
    }

    /// Writes 1 to the interrupt status register if `v` is set, and 0 if not.
    pub fn reset_interrupt(&self, window: &mut RegisterWindow, v: bool) -> (r: Result<(), Error>)
        requires
            self@.within(old(window).size()),
        ensures
            r == Ok::<(), Error>(()),
            final(window).follows(
                *old(window),
                old(window)@.written32(
                    self@.register(INTERRUPT_STATUS as int),
                    if v {
                        1u32
                    } else {
                        0u32
                    },
                ),
            ),
    {
        window.write32(
            self.register(window, INTERRUPT_STATUS),
            if v {
                1
            } else {
                0
            },
        );
        Ok(())
    }

    /// Whether interrupts are enabled, globally and locally: bit 0 of what a read of each of
    /// the two interrupt enable registers finds, the global one read first.
    pub fn interrupt_status(&self, window: &mut RegisterWindow) -> (r: Result<(bool, bool), Error>)
        requires
            self@.within(old(window).size()),
        ensures
            ({
                let first = old(window)@.trace.len() as int;
                let global = final(window)@.value_at(first);
                let local = final(window)@.value_at(first + 1);
                &&& final(window).follows(
                    *old(window),
                    old(window)@.read(
                        self@.register(GLOBAL_INTERRUPT_ENABLE as int),
                        4,
                        global,
                    ).read(self@.register(LOCAL_INTERRUPT_ENABLE as int), 4, local),
                )
                &&& 0 <= global <= u32::MAX
                &&& 0 <= local <= u32::MAX
                &&& r == Ok::<(bool, bool), Error>(
                    (lowest_bit(global as u32), lowest_bit(local as u32)),
                )
                &&& old(window).memory() ==> global == old(window)@.value32(
                    self@.register(GLOBAL_INTERRUPT_ENABLE as int),
                ) && local == old(window)@.value32(self@.register(LOCAL_INTERRUPT_ENABLE as int))
            }),
    {
        let g = interrupt_bit(window.read32(self.register(window, GLOBAL_INTERRUPT_ENABLE)));
        let l = interrupt_bit(window.read32(self.register(window, LOCAL_INTERRUPT_ENABLE)));
        Ok((g, l))
    }

    /// Enables the interrupts of an idle processing element: writes 1 to the global and then
    /// to the local interrupt enable register. A running one is refused, and no register is
    /// touched.
    pub fn enable_interrupt(&self, window: &mut RegisterWindow) -> (r: Result<(), Error>)
        requires
            self@.within(old(window).size()),
        ensures
            r is Ok <==> accepted(self@.active, Operation::EnableInterrupt),
            self@.active ==> r == Err::<(), Error>(Error::PEAlreadyActive { id: self@.id })
                && *final(window) == *old(window),
            !self@.active ==> r == Ok::<(), Error>(()) && final(window).follows(
                *old(window),
                old(window)@.written32(self@.register(GLOBAL_INTERRUPT_ENABLE as int), 1).written32(
                    self@.register(LOCAL_INTERRUPT_ENABLE as int),
                    1,
                ),
            ),
    {
        if self.active {
            return Err(Error::PEAlreadyActive { id: self.id });
        }
        window.write32(self.register(window, GLOBAL_INTERRUPT_ENABLE), 1);
        window.write32(self.register(window, LOCAL_INTERRUPT_ENABLE), 1);
        Ok(())
    }

    /// Writes `arg` to the register of the argument `argn`, in the width of the value. A
    /// parameter that is no plain value is refused, and no register is touched.
    pub fn set_arg(&self, window: &mut RegisterWindow, argn: usize, arg: PEParameter) -> (r:
        Result<(), Error>)
        requires
            arg is Single32 ==> self@.argument(argn as int) + 4 <= old(window).size(),
            arg is Single64 ==> self@.argument(argn as int) + 8 <= old(window).size(),
        ensures
            match arg {
                PEParameter::Single32(x) => r == Ok::<(), Error>(()) && final(window).follows(
                    *old(window),
                    old(window)@.written32(self@.argument(argn as int), x),
                ),
                PEParameter::Single64(x) => r == Ok::<(), Error>(()) && final(window).follows(
                    *old(window),
                    old(window)@.written64(self@.argument(argn as int), x),
                ),
                _ => r == Err::<(), Error>(Error::UnsupportedParameter { param: arg })
                    && *final(window) == *old(window),
            },
    {
        match arg {
            PEParameter::Single32(x) => {
                let slot = self.argument(window, argn, 4);
                window.write32(slot, x);
                Ok(())
            },
            PEParameter::Single64(x) => {
                let slot = self.argument(window, argn, 8);
                window.write64(slot, x);
                Ok(())
            },
            _ => Err(Error::UnsupportedParameter { param: arg }),
        }
    }

    /// Reads the register of the argument `argn` in a width of `bytes` bytes: the parameter
    /// holds what the read finds. A width other than 4 or 8 is refused, and no register is
    /// touched.
    pub fn read_arg(&self, window: &mut RegisterWindow, argn: usize, bytes: usize) -> (r: Result<
        PEParameter,
        Error,
    >)
        requires
            bytes == 4 || bytes == 8 ==> self@.argument(argn as int) + bytes <= old(
                window,
            ).size(),
        ensures
            bytes == 4 ==> {
                &&& r matches Ok(PEParameter::Single32(value))
                &&& final(window).follows(
                    *old(window),
                    old(window)@.read(self@.argument(argn as int), 4, value as int),
                )
                &&& old(window).memory() ==> value == old(window)@.value32(
                    self@.argument(argn as int),
                )
            },
            bytes == 8 ==> {
                &&& r matches Ok(PEParameter::Single64(value))
                &&& final(window).follows(
                    *old(window),
                    old(window)@.read(self@.argument(argn as int), 8, value as int),
                )
                &&& old(window).memory() ==> value == old(window)@.value64(
                    self@.argument(argn as int),
                )
            },
            bytes != 4 && bytes != 8 ==> r == Err::<PEParameter, Error>(
                Error::UnsupportedRegisterSize { param: bytes },
            ) && *final(window) == *old(window),
    {
        if bytes == 4 {
            let slot = self.argument(window, argn, 4);
            Ok(PEParameter::Single32(window.read32(slot)))
        } else if bytes == 8 {
            let slot = self.argument(window, argn, 8);
            Ok(PEParameter::Single64(window.read64(slot)))
        } else {
            Err(Error::UnsupportedRegisterSize { param: bytes })
        }
    }

    /// Reads the return value register: the value is what the read finds.
    pub fn return_value(&self, window: &mut RegisterWindow) -> (r: u64)
        requires
            self@.within(old(window).size()),
        ensures
            final(window).follows(
                *old(window),
                old(window)@.read(self@.register(RETURN_VALUE as int), 8, r as int),
            ),
            old(window).memory() ==> r == old(window)@.value64(
                self@.register(RETURN_VALUE as int),
            ),
    {
        window.read64(self.register(window, RETURN_VALUE))
    }

    /// Adds `param` to the end of the work that is due at the release.
    pub fn add_copyback(&mut self, param: CopyBack)
        ensures
            final(self)@ == (PEState {
                copy_back: deferred(old(self)@.copy_back, param),
                ..old(self)@
            }),
    {
        match self.copy_back.take() {
            Some(list) => {
                let mut list = list;
                list.push(param);
                self.copy_back = Some(list);
            },
            None => {
                let mut list = Vec::new();
                list.push(param);
                assert(list@ =~= seq![param]);
                self.copy_back = Some(list);
            },
        }
    }

    /// Hands out the deferred work and forgets it.
    fn get_copyback(&mut self) -> (r: Option<Vec<CopyBack>>)
        ensures
            copy_backs(r) == old(self)@.copy_back,
            final(self)@ == (PEState { copy_back: None, ..old(self)@ }),
    {
        self.copy_back.take()
    }

    /// Switches debugging on through the debug core of the processing element. What the
    /// core answers is passed on by [`debug_outcome`].
    pub fn enable_debug(&mut self) -> (r: Result<(), Error>)
        ensures
            final(self)@ == old(self)@,
            r matches Err(e) ==> e matches Error::DebugError { id, .. } && id == old(self)@.id,
    {
        let outcome = self.debug.enable_debug();
        debug_outcome(self.id, outcome)
    }

    pub fn id(&self) -> (r: usize)
        ensures
            r == self@.id,
    {
        self.id
    }

    pub fn type_id(&self) -> (r: PEId)
        ensures
            r == self@.type_id,
    {
        self.type_id
    }

    /// Where the registers of the processing element start in the register window.
    pub fn offset(&self) -> (r: DeviceAddress)
        ensures
            r == self@.offset,
    {
        self.offset
    }

    /// Moves the registers of the processing element to `offset` in the register window.
    pub fn set_offset(&mut self, offset: DeviceAddress)
        ensures
            final(self)@ == (PEState { offset, ..old(self)@ }),
    {
        self.offset = offset;
    }

    pub fn size(&self) -> (r: DeviceSize)
        ensures
            r == self@.size,
    {
        self.size
    }

    pub fn name(&self) -> (r: &String)
        ensures
            r@ == self@.name,
    {
        &self.name
    }

    /// Whether the processing element is running.
    pub fn active(&self) -> (r: bool)
        ensures
            r == self@.active,
    {
        self.active
    }

    pub fn local_memory(&self) -> (r: &Option<Arc<OffchipMemory>>)
        ensures
            *r == self@.local_memory,
    {
        &self.local_memory
    }

    pub fn set_local_memory(&mut self, local_memory: Option<Arc<OffchipMemory>>)
        ensures
            final(self)@ == (PEState { local_memory, ..old(self)@ }),
    {
        self.local_memory = local_memory;
    }

    /// The completion line.
    pub fn interrupt(&self) -> (r: &Interrupt)
        ensures
            r@ == self@.interrupt,
    {
        &self.interrupt
    }

    /// Reports that the completion line has fired.
    pub fn interrupt_fired(&mut self)
        ensures
            final(self)@ == (PEState { interrupt: old(self)@.interrupt.fired(), ..old(self)@ }),
    {
        self.interrupt.notify();
    }

    /// Reports that the channel of the completion line has failed with `errno`.
    pub fn interrupt_failed(&mut self, errno: i32)
        ensures
            final(self)@ == (PEState {
                interrupt: Line { failure: Some(errno), ..old(self)@.interrupt },
                ..old(self)@
            }),
    {
        self.interrupt.fail(errno);
    }
}

/// Bit 0 of `register`.
pub open spec fn lowest_bit(register: u32) -> bool {
    register & 1 == 1
}

/// Whether bit 0 of `register`, the value that a read of an interrupt register has found, is
/// set.
pub fn interrupt_bit(register: u32) -> (r: bool)
    ensures
        r == lowest_bit(register),
{
    (register & 1) == 1
}

/// What switching debugging on gives for the processing element `id`, where its debug core
/// answered `outcome`.
pub fn debug_outcome(id: usize, outcome: Result<(), crate::debug::Error>) -> (r: Result<
    (),
    Error,
>)
    ensures
        r == match outcome {
            Ok(_) => Ok::<(), Error>(()),
            Err(source) => Err::<(), Error>(Error::DebugError { source, id }),
        },
{
    match outcome {
        Ok(()) => Ok(()),
        Err(source) => Err(Error::DebugError { source, id }),
    }
}

/// Acknowledging an interrupt leaves the return value as it is.
proof fn lemma_register_kept(window: Registers, status: int, value: int)
    requires
        0 <= status,
        value == status + 4,
        value + 8 <= window.bytes.len(),
    ensures
        window.written32(status, 1).value64(value) == window.value64(value),
{
    lemma_write_elsewhere(window, status, 4, 1, value, 8);
    assert((1u64 & 0xffff_ffff) as u32 == 1u32) by (bit_vector);
}

/// The operations that change or depend on whether a processing element is running.
pub enum Operation {
    EnableInterrupt,
    Start,
    Release,
    SetArg,
}

/// Whether `op` is accepted by a processing element that is running (`active`) or idle. A
/// release is taken to find its interrupt fired, and an argument to be a plain value.
pub open spec fn accepted(active: bool, op: Operation) -> bool {
    match op {
        Operation::EnableInterrupt | Operation::Start => !active,
        Operation::Release | Operation::SetArg => true,
    }
}

/// Whether a processing element is running after it has accepted `op`.
pub open spec fn after(active: bool, op: Operation) -> bool {
    match op {
        Operation::Start => true,
        Operation::Release => false,
        Operation::EnableInterrupt | Operation::SetArg => active,
    }
}

/// Whether a processing element that was idle is running after the operations `ops`.
pub open spec fn active_after(ops: Seq<Operation>) -> bool
    decreases ops.len(),
{
    if ops.len() == 0 {
        false
    } else {
        after(active_after(ops.drop_last()), ops.last())
    }
}

/// Whether a processing element that was idle accepts the operations `ops`, one after the
/// other.
pub open spec fn permitted(ops: Seq<Operation>) -> bool
    decreases ops.len(),
{
    ops.len() == 0 || (permitted(ops.drop_last()) && accepted(
        active_after(ops.drop_last()),
        ops.last(),
    ))
}

/// Whether `ops[at]` is a start that no later operation of `ops` releases.
pub open spec fn started_at(ops: Seq<Operation>, at: int) -> bool {
    &&& 0 <= at < ops.len()
    &&& ops[at] is Start
    &&& forall|k: int| at < k < ops.len() ==> !(#[trigger] ops[k] is Release)
}

/// A processing element is running exactly after a start that no release has followed.
pub proof fn lemma_active_after(ops: Seq<Operation>)
    ensures
        active_after(ops) <==> exists|at: int| started_at(ops, at),
    decreases ops.len(),
{
    if ops.len() == 0 {
    } else {
        let before = ops.drop_last();
        lemma_active_after(before);
        let last = ops.len() - 1;
        if active_after(ops) {
            if ops.last() is Start {
                assert(started_at(ops, last));
            } else {
                let at = choose|at: int| started_at(before, at);
                assert forall|k: int| at < k < ops.len() implies !(#[trigger] ops[k] is Release) by {
                    if k < last {
                        assert(before[k] == ops[k]);
                    }
                }
                assert(ops[at] == before[at]);
                assert(started_at(ops, at));
            }
        }
        if exists|at: int| started_at(ops, at) {
            let at = choose|at: int| started_at(ops, at);
            if at == last {
            } else {
                assert(!(ops[last] is Release));
                assert forall|k: int| at < k < before.len() implies !(#[trigger] before[k]
                    is Release) by {
                    assert(before[k] == ops[k]);
                }
                assert(before[at] == ops[at]);
                assert(started_at(before, at));
            }
        }
    }
}

/// The sequences of operations that a processing element accepts are those in which no
/// start and no enabling of interrupts comes while it is running.
pub proof fn lemma_permitted(ops: Seq<Operation>)
    ensures
        permitted(ops) <==> forall|i: int|
            0 <= i < ops.len() && (ops[i] is Start || ops[i] is EnableInterrupt) ==> !active_after(
                #[trigger] ops.take(i),
            ),
    decreases ops.len(),
{
    if ops.len() == 0 {
    } else {
        let before = ops.drop_last();
        let last = ops.len() - 1;
        lemma_permitted(before);
        assert(ops.take(last) =~= before);
        assert forall|i: int| 0 <= i < last implies #[trigger] ops.take(i) == before.take(i) by {
            assert(ops.take(i) =~= before.take(i));
        }
        assert forall|i: int| 0 <= i < last implies ops[i] == before[i] by {}
        if permitted(ops) {
            assert forall|i: int|
                0 <= i < ops.len() && (ops[i] is Start || ops[i] is EnableInterrupt)
                    implies !active_after(#[trigger] ops.take(i)) by {
                if i < last {
                    assert(before[i] == ops[i]);
                    assert(!active_after(before.take(i)));
                }
            }
        }
        if forall|i: int|
            0 <= i < ops.len() && (ops[i] is Start || ops[i] is EnableInterrupt) ==> !active_after(
                #[trigger] ops.take(i),
            ) {
            assert forall|i: int|
                0 <= i < before.len() && (before[i] is Start || before[i] is EnableInterrupt)
                    implies !active_after(#[trigger] before.take(i)) by {
                assert(before[i] == ops[i]);
                assert(ops.take(i) == before.take(i));
            }
            assert(permitted(before));
            if ops[last] is Start || ops[last] is EnableInterrupt {
                assert(!active_after(ops.take(last)));
            }
        }
    }
}

/// The deferred work `list` with `param` added.
pub open spec fn deferred(list: Option<Seq<CopyBack>>, param: CopyBack) -> Option<Seq<CopyBack>> {
    Some(
        match list {
            Some(list) => list.push(param),
            None => seq![param],
        },
    )
}

/// The deferred work after `params` have been added to none, one after the other.
pub open spec fn deferred_all(params: Seq<CopyBack>) -> Option<Seq<CopyBack>>
    decreases params.len(),
{
    if params.len() == 0 {
        None
    } else {
        deferred(deferred_all(params.drop_last()), params.last())
    }
}

/// Deferred work is kept in the order in which it was added: a release after `params` have
/// been added hands out `params`, and nothing where nothing was added.
pub proof fn lemma_copy_backs_keep_order(params: Seq<CopyBack>)
    ensures
        deferred_all(params) == if params.len() == 0 {
            None
        } else {
            Some(params)
        },
    decreases params.len(),
{
    if params.len() > 0 {
        lemma_copy_backs_keep_order(params.drop_last());
        if params.len() == 1 {
            assert(seq![params.last()] =~= params);
        } else {
            assert(params.drop_last().push(params.last()) =~= params);
        }
    }
}

/// An argument register holds what was last written to it.
pub proof fn lemma_argument_round_trip(pe: PEState, window: Registers, argn: int, x32: u32, x64: u64)
    requires
        0 <= argn,
        pe.argument(argn) + 8 <= window.bytes.len(),
    ensures
        window.written32(pe.argument(argn), x32).value32(pe.argument(argn)) == x32,
        window.written64(pe.argument(argn), x64).value64(pe.argument(argn)) == x64,
{
    crate::registers::lemma_read_back32(window, pe.argument(argn), x32);
    crate::registers::lemma_read_back64(window, pe.argument(argn), x64);
}

} // verus!
