//! The register window of a device: a mapped region that is read and written one register at
//! a time, in registers of 32 or 64 bits, least significant byte first.
//!
//! A window keeps, as ghost state, the trace of the accesses made through it. Contracts can so
//! say which registers a function touches and in which order, and that it touches no other.

use crate::mapping::lemma_stored_elsewhere;
use crate::mapping::lemma_stored_then_loaded;
use crate::mapping::loaded;
use crate::mapping::stored;
use crate::mapping::Mapping;
use crate::pe::Error;
use vstd::bytes::lemma_auto_spec_u32_to_from_le_bytes;
use vstd::bytes::lemma_auto_spec_u64_to_from_le_bytes;
use vstd::bytes::spec_u32_from_le_bytes;
use vstd::bytes::spec_u32_to_le_bytes;
use vstd::bytes::spec_u64_from_le_bytes;
use vstd::bytes::spec_u64_to_le_bytes;
use vstd::bytes::u32_from_le_bytes;
use vstd::bytes::u32_to_le_bytes;
use vstd::bytes::u64_from_le_bytes;
use vstd::bytes::u64_to_le_bytes;
use vstd::prelude::*;

verus! {

/// One access to a register window.
pub enum Access {
    /// A read of `width` bytes at `offset`, which found `value`.
    Read { offset: int, width: int, value: int },
    /// A write of `value` in `width` bytes at `offset`.
    Write { offset: int, width: int, value: int },
}

/// What a register window holds, and what has been done to it.
pub struct Registers {
    /// The bytes of a window that is memory.
    pub bytes: Seq<u8>,
    /// The accesses made so far, oldest first.
    pub trace: Seq<Access>,
}

impl Registers {
    /// The 32-bit value of the register at `offset`.
    pub open spec fn value32(self, offset: int) -> u32 {
        spec_u32_from_le_bytes(loaded(self.bytes, offset, 4))
    }

    /// The 64-bit value of the register at `offset`.
    pub open spec fn value64(self, offset: int) -> u64 {
        spec_u64_from_le_bytes(loaded(self.bytes, offset, 8))
    }

    /// The window after a read of `width` bytes at `offset` that found `value`.
    pub open spec fn read(self, offset: int, width: int, value: int) -> Registers {
        Registers {
            bytes: self.bytes,
            trace: self.trace.push(Access::Read { offset, width, value }),
        }
    }

    /// The value of the access at `at` in the trace: what it found, or what it wrote.
    pub open spec fn value_at(self, at: int) -> int {
        match self.trace[at] {
            Access::Read { value, .. } => value,
            Access::Write { value, .. } => value,
        }
    }

    /// The value of the last access.
    pub open spec fn last_value(self) -> int {
        self.value_at(self.trace.len() - 1)
    }

    /// Whether this window is `other` as far as it is known: in what was done to it and,
    /// where the window is memory, in its bytes.
    pub open spec fn same(self, other: Registers, memory: bool) -> bool {
        self.trace == other.trace && (memory ==> self.bytes == other.bytes)
    }

    /// The window after `value` has been written to the 32-bit register at `offset`.
    pub open spec fn written32(self, offset: int, value: u32) -> Registers {
        Registers {
            bytes: stored(self.bytes, offset, spec_u32_to_le_bytes(value)),
            trace: self.trace.push(Access::Write { offset, width: 4, value: value as int }),
        }
    }

    /// The window after `value` has been written to the 64-bit register at `offset`.
    pub open spec fn written64(self, offset: int, value: u64) -> Registers {
        Registers {
            bytes: stored(self.bytes, offset, spec_u64_to_le_bytes(value)),
            trace: self.trace.push(Access::Write { offset, width: 8, value: value as int }),
        }
    }

    /// The window after the low `width` bytes of `value` have been written at `offset`.
    pub open spec fn written(self, offset: int, width: int, value: u64) -> Registers {
        if width == 4 {
            self.written32(offset, (value & 0xffff_ffff) as u32)
        } else {
            self.written64(offset, value)
        }
    }

    /// The value of the register of `width` bytes at `offset`.
    pub open spec fn value(self, offset: int, width: int) -> u64 {
        if width == 4 {
            self.value32(offset) as u64
        } else {
            self.value64(offset)
        }
    }
}

/// Whether registers of `width` bytes exist.
pub open spec fn supported_width(width: int) -> bool {
    width == 4 || width == 8
}

/// A register holds what was last written to it: a 32-bit value comes back as it was written.
pub proof fn lemma_read_back32(registers: Registers, offset: int, value: u32)
    requires
        0 <= offset,
        offset + 4 <= registers.bytes.len(),
    ensures
        registers.written32(offset, value).value32(offset) == value,
        registers.written(offset, 4, value as u64).value(offset, 4) == value,
{
    lemma_auto_spec_u32_to_from_le_bytes();
    lemma_stored_then_loaded(registers.bytes, offset, spec_u32_to_le_bytes(value));
    assert((value as u64 & 0xffff_ffff) as u32 == value) by (bit_vector);
}

/// A register holds what was last written to it: a 64-bit value comes back as it was written.
pub proof fn lemma_read_back64(registers: Registers, offset: int, value: u64)
    requires
        0 <= offset,
        offset + 8 <= registers.bytes.len(),
    ensures
        registers.written64(offset, value).value64(offset) == value,
        registers.written(offset, 8, value).value(offset, 8) == value,
{
    lemma_auto_spec_u64_to_from_le_bytes();
    lemma_stored_then_loaded(registers.bytes, offset, spec_u64_to_le_bytes(value));
}

/// A write changes no register that lies apart from the one written.
pub proof fn lemma_write_elsewhere(
    registers: Registers,
    offset: int,
    width: int,
    value: u64,
    other: int,
    other_width: int,
)
    requires
        supported_width(width),
        supported_width(other_width),
        0 <= other,
        other + other_width <= registers.bytes.len(),
        other + other_width <= offset || offset + width <= other,
    ensures
        registers.written(offset, width, value).value(other, other_width) == registers.value(
            other,
            other_width,
        ),
{
    lemma_auto_spec_u32_to_from_le_bytes();
    lemma_auto_spec_u64_to_from_le_bytes();
    let data = if width == 4 {
        spec_u32_to_le_bytes((value & 0xffff_ffff) as u32)
    } else {
        spec_u64_to_le_bytes(value)
    };
    lemma_stored_elsewhere(registers.bytes, offset, data, other, other_width);
}

/// A mapped register window.
///
/// The window of a device is shared with it: what a read finds there is the device's to
/// decide, and the contracts state it through the trace alone. A window that is memory holds
/// what was last written to it.
pub struct RegisterWindow {
    memory: Mapping,
    trace: Ghost<Seq<Access>>,
}

impl View for RegisterWindow {
    type V = Registers;

    closed spec fn view(&self) -> Registers {
        Registers { bytes: self.memory@, trace: self.trace@ }
    }
}

impl RegisterWindow {
    /// The number of bytes in the window.
    pub closed spec fn size(&self) -> nat {
        self.memory.size()
    }

    /// Whether the window is memory.
    pub closed spec fn memory(&self) -> bool {
        self.memory.memory()
    }

    /// Whether this window is the window `before` after it has become `expected`: in what was
    /// done to it and, where the window is memory, in its bytes.
    pub open spec fn follows(&self, before: RegisterWindow, expected: Registers) -> bool {
        &&& self.size() == before.size()
        &&& self.memory() == before.memory()
        &&& self@.same(expected, self.memory())
    }

    /// The window over `memory`, through which nothing has been accessed yet.
    pub fn new(memory: Mapping) -> (r: RegisterWindow)
        ensures
            r@.bytes == memory@,
            r@.trace == Seq::<Access>::empty(),
            r.size() == memory.size(),
            r.memory() == memory.memory(),
    {
        RegisterWindow { memory, trace: Ghost(Seq::empty()) }
    }

    /// The number of bytes in the window.
    pub fn len(&self) -> (n: usize)
        ensures
            n == self.size(),
            self.memory() ==> self@.bytes.len() == n,
    {
        self.memory.len()
    }

    /// Reads the 32-bit register at `offset`. In a window that is memory the value is what
    /// the register holds.
    pub fn read32(&mut self, offset: usize) -> (value: u32)
        requires
            offset + 4 <= old(self).size(),
        ensures
            final(self).follows(*old(self), old(self)@.read(offset as int, 4, value as int)),
            old(self).memory() ==> value == old(self)@.value32(offset as int),
    {
        let bytes = self.memory.load(offset, 4);
        let value = u32_from_le_bytes(bytes.as_slice());
        self.trace = Ghost(
            self.trace@.push(
                Access::Read { offset: offset as int, width: 4, value: value as int },
            ),
        );
        value
    }

    /// Reads the 64-bit register at `offset`. In a window that is memory the value is what
    /// the register holds.
    pub fn read64(&mut self, offset: usize) -> (value: u64)
        requires
            offset + 8 <= old(self).size(),
        ensures
            final(self).follows(*old(self), old(self)@.read(offset as int, 8, value as int)),
            old(self).memory() ==> value == old(self)@.value64(offset as int),
    {
        let bytes = self.memory.load(offset, 8);
        let value = u64_from_le_bytes(bytes.as_slice());
        self.trace = Ghost(
            self.trace@.push(
                Access::Read { offset: offset as int, width: 8, value: value as int },
            ),
        );
        value
    }

    /// Writes `value` to the 32-bit register at `offset`.
    pub fn write32(&mut self, offset: usize, value: u32)
        requires
            offset + 4 <= old(self).size(),
        ensures
            final(self).follows(*old(self), old(self)@.written32(offset as int, value)),
    {
        let bytes = u32_to_le_bytes(value);
        self.memory.store(offset, bytes.as_slice());
        self.trace = Ghost(
            self.trace@.push(
                Access::Write { offset: offset as int, width: 4, value: value as int },
            ),
        );
    }

    /// Writes `value` to the 64-bit register at `offset`.
    pub fn write64(&mut self, offset: usize, value: u64)
        requires
            offset + 8 <= old(self).size(),
        ensures
            final(self).follows(*old(self), old(self)@.written64(offset as int, value)),
    {
        let bytes = u64_to_le_bytes(value);
        self.memory.store(offset, bytes.as_slice());
        self.trace = Ghost(
            self.trace@.push(
                Access::Write { offset: offset as int, width: 8, value: value as int },
            ),
        );
    }

    /// Reads the register of `width` bytes at `offset`. A width other than 4 or 8 is refused
    /// before the window is touched.
    pub fn read(&mut self, offset: usize, width: usize) -> (r: Result<u64, Error>)
        requires
            supported_width(width as int) ==> offset + width <= old(self).size(),
        ensures
            supported_width(width as int) ==> {
                &&& r matches Ok(value)
                &&& final(self).follows(
                    *old(self),
                    old(self)@.read(offset as int, width as int, value as int),
                )
                &&& width == 4 ==> value <= u32::MAX
                &&& old(self).memory() ==> value == old(self)@.value(offset as int, width as int)
            },
            !supported_width(width as int) ==> r == Err::<u64, Error>(
                Error::UnsupportedRegisterSize { param: width },
            ) && *final(self) == *old(self),
    {
        if width == 4 {
            let value = self.read32(offset);
            Ok(value as u64)
        } else if width == 8 {
            Ok(self.read64(offset))
        } else {
            Err(Error::UnsupportedRegisterSize { param: width })
        }
    }

    /// Writes the low `width` bytes of `value` to the register at `offset`. A width other than
    /// 4 or 8 is refused before the window is touched.
    pub fn write(&mut self, offset: usize, width: usize, value: u64) -> (r: Result<(), Error>)
        requires
            supported_width(width as int) ==> offset + width <= old(self).size(),
        ensures
            supported_width(width as int) ==> r == Ok::<(), Error>(()) && final(self).follows(
                *old(self),
                old(self)@.written(offset as int, width as int, value),
            ),
            !supported_width(width as int) ==> r == Err::<(), Error>(
                Error::UnsupportedRegisterSize { param: width },
            ) && *final(self) == *old(self),
    {
        if width == 4 {
            let low: u32 = (value & 0xffff_ffff) as u32;
            self.write32(offset, low);
            Ok(())
        } else if width == 8 {
            self.write64(offset, value);
            Ok(())
        } else {
            Err(Error::UnsupportedRegisterSize { param: width })
        }
    }
}

} // verus!
