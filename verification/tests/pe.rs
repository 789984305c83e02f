use std::sync::Arc;
use tapasco::debug::DebugControl;
use tapasco::debug::NonDebug;
use tapasco::device::DataTransferPrealloc;
use tapasco::device::OffchipMemory;
use tapasco::device::PEParameter;
use tapasco::interrupt::Interrupt;
use tapasco::mapping::Mapping;
use tapasco::pe::debug_outcome;
use tapasco::pe::interrupt_bit;
use tapasco::pe::CopyBack;
use tapasco::pe::Error;
use tapasco::pe::PE;
use tapasco::registers::RegisterWindow;

fn window(len: usize) -> RegisterWindow {
    RegisterWindow::new(Mapping::anonymous(len).unwrap())
}

fn pe_at(offset: u64) -> PE {
    PE::new(
        7,
        14,
        offset,
        0x1000,
        String::from("counter"),
        Ok(Interrupt::new(3)),
        Box::new(NonDebug {}),
    )
    .unwrap()
}

fn free(address: u64) -> CopyBack {
    CopyBack::Free(address, Arc::new(OffchipMemory { id: 0 }))
}

struct BrokenDebug {}

impl DebugControl for BrokenDebug {
    fn enable_debug(&mut self) -> Result<(), tapasco::debug::Error> {
        Err(tapasco::debug::Error::Failed { errno: 5 })
    }
}

#[test]
fn new_pe_is_idle_without_copy_backs() {
    let mut w = window(0x2000);
    let mut pe = pe_at(0x1000);
    assert_eq!(pe.id(), 7);
    assert_eq!(pe.type_id(), 14);
    assert_eq!(pe.offset(), 0x1000);
    assert_eq!(pe.size(), 0x1000);
    assert_eq!(pe.name().as_str(), "counter");
    assert!(!pe.active());
    assert!(pe.local_memory().is_none());
    assert_eq!(pe.interrupt().index(), 3);
    assert_eq!(pe.interrupt().pending(), 0);
    assert_eq!(pe.release(&mut w, false), Ok((0, None)));
}

#[test]
fn pe_is_not_made_without_its_interrupt_line() {
    let failure = tapasco::interrupt::Error::Channel { index: 3, errno: 24 };
    let made = PE::new(
        7,
        14,
        0x1000,
        0x1000,
        String::from("counter"),
        Err(failure),
        Box::new(NonDebug {}),
    );
    assert_eq!(made.err(), Some(Error::ErrorInterrupt { source: failure }));
}

#[test]
fn pe_takes_the_line_as_it_was_made() {
    let mut line = Interrupt::new(9);
    line.notify();
    let mut w = window(0x100);
    let mut pe =
        PE::new(1, 2, 0, 0x100, String::from("adder"), Ok(line), Box::new(NonDebug {})).unwrap();
    assert_eq!(pe.interrupt().index(), 9);
    assert_eq!(pe.start(&mut w), Ok(()));
    assert_eq!(pe.release(&mut w, false), Ok((0, None)));
}

#[test]
fn interrupt_bit_is_the_lowest_bit() {
    assert!(!interrupt_bit(0));
    assert!(interrupt_bit(1));
    assert!(!interrupt_bit(2));
    assert!(interrupt_bit(0xFFFF_FFFF));
}

#[test]
fn single_word_invocation() {
    let mut w = window(0x2000);
    w.write64(0x1010, 0x1234_5678_9ABC_DEF0);
    let mut pe = pe_at(0x1000);

    assert_eq!(pe.enable_interrupt(&mut w), Ok(()));
    assert_eq!(w.read32(0x1004), 1);
    assert_eq!(w.read32(0x1008), 1);

    assert_eq!(pe.set_arg(&mut w, 0, PEParameter::Single32(0xDEAD_BEEF)), Ok(()));
    assert_eq!(w.read32(0x1020), 0xDEAD_BEEF);

    assert_eq!(w.read32(0x1000), 0);
    assert_eq!(pe.start(&mut w), Ok(()));
    assert_eq!(w.read32(0x1000), 1);
    assert!(pe.active());

    pe.interrupt_fired();
    assert_eq!(w.read32(0x100c), 0);
    assert_eq!(pe.release(&mut w, true), Ok((0x1234_5678_9ABC_DEF0, None)));
    assert_eq!(w.read32(0x100c), 1);
    assert!(!pe.active());
    assert_eq!(pe.interrupt().pending(), 0);
}

#[test]
fn double_start_fails_and_leaves_the_control_register() {
    let mut w = window(0x2000);
    let mut pe = pe_at(0x1000);
    assert_eq!(pe.start(&mut w), Ok(()));
    w.write32(0x1000, 0);
    assert_eq!(pe.start(&mut w), Err(Error::PEAlreadyActive { id: 7 }));
    assert_eq!(w.read32(0x1000), 0);
    assert!(pe.active());
}

#[test]
fn enable_interrupt_is_refused_while_running() {
    let mut w = window(0x2000);
    let mut pe = pe_at(0x1000);
    assert_eq!(pe.start(&mut w), Ok(()));
    assert_eq!(pe.enable_interrupt(&mut w), Err(Error::PEAlreadyActive { id: 7 }));
    assert_eq!(w.read32(0x1004), 0);
    assert_eq!(w.read32(0x1008), 0);
}

#[test]
fn copy_back_on_release() {
    let mut w = window(0x2000);
    let mut pe = pe_at(0x1000);
    let cb1 = free(0x100);
    let cb2 = CopyBack::Transfer(DataTransferPrealloc {
        data: vec![1, 2, 3],
        device_address: 0x200,
        free: true,
        from_device: true,
        to_device: false,
        memory: Arc::new(OffchipMemory { id: 1 }),
    });
    pe.add_copyback(cb1.clone());
    pe.add_copyback(cb2.clone());
    assert_eq!(pe.start(&mut w), Ok(()));
    pe.interrupt_fired();
    w.write64(0x1010, 99);
    assert_eq!(pe.release(&mut w, false), Ok((0, Some(vec![cb1, cb2]))));
    assert_eq!(pe.release(&mut w, false), Ok((0, None)));
}

#[test]
fn copy_backs_come_back_in_the_order_of_their_adding() {
    let mut w = window(0x2000);
    let mut pe = pe_at(0);
    let (a, b, c) = (free(1), free(2), free(3));
    pe.add_copyback(a.clone());
    pe.add_copyback(b.clone());
    assert_eq!(pe.start(&mut w), Ok(()));
    pe.add_copyback(c.clone());
    pe.interrupt_fired();
    assert_eq!(pe.release(&mut w, false), Ok((0, Some(vec![a, b, c]))));
    assert_eq!(pe.release(&mut w, true), Ok((0, None)));
}

#[test]
fn release_of_an_idle_pe_touches_no_register() {
    let mut w = window(0x2000);
    w.write64(0x1010, 77);
    let mut pe = pe_at(0x1000);
    assert_eq!(pe.release(&mut w, true), Ok((0, None)));
    assert_eq!(w.read32(0x100c), 0);
}

#[test]
fn release_without_interrupt_would_block() {
    let mut w = window(0x2000);
    let mut pe = pe_at(0x1000);
    pe.add_copyback(free(5));
    assert_eq!(pe.start(&mut w), Ok(()));
    assert_eq!(
        pe.release(&mut w, true),
        Err(Error::ErrorInterrupt { source: tapasco::interrupt::Error::WouldBlock { index: 3 } })
    );
    assert!(pe.active());
    assert_eq!(w.read32(0x100c), 0);
    pe.interrupt_fired();
    assert_eq!(pe.release(&mut w, false), Ok((0, Some(vec![free(5)]))));
}

#[test]
fn release_reports_a_failed_channel() {
    let mut w = window(0x2000);
    let mut pe = pe_at(0x1000);
    assert_eq!(pe.start(&mut w), Ok(()));
    pe.interrupt_failed(9);
    assert_eq!(
        pe.release(&mut w, true),
        Err(Error::ErrorInterrupt {
            source: tapasco::interrupt::Error::Channel { index: 3, errno: 9 }
        })
    );
    assert!(pe.active());
}

#[test]
fn start_after_release_is_accepted() {
    let mut w = window(0x2000);
    let mut pe = pe_at(0x1000);
    assert_eq!(pe.start(&mut w), Ok(()));
    pe.interrupt_fired();
    assert_eq!(pe.release(&mut w, false), Ok((0, None)));
    assert_eq!(pe.enable_interrupt(&mut w), Ok(()));
    assert_eq!(pe.start(&mut w), Ok(()));
    assert!(pe.active());
}

#[test]
fn arguments_round_trip() {
    let mut w = window(0x2000);
    let pe = pe_at(0x1000);
    assert_eq!(pe.set_arg(&mut w, 2, PEParameter::Single64(0x0102_0304_0506_0708)), Ok(()));
    assert_eq!(pe.read_arg(&mut w, 2, 8), Ok(PEParameter::Single64(0x0102_0304_0506_0708)));
    assert_eq!(w.read64(0x1040), 0x0102_0304_0506_0708);
    assert_eq!(pe.read_arg(&mut w, 2, 4), Ok(PEParameter::Single32(0x0506_0708)));

    assert_eq!(pe.set_arg(&mut w, 3, PEParameter::Single32(0xCAFE_F00D)), Ok(()));
    assert_eq!(pe.read_arg(&mut w, 3, 4), Ok(PEParameter::Single32(0xCAFE_F00D)));
    assert_eq!(w.read32(0x1050), 0xCAFE_F00D);
    assert_eq!(pe.read_arg(&mut w, 2, 8), Ok(PEParameter::Single64(0x0102_0304_0506_0708)));
}

#[test]
fn argument_slots_are_sixteen_bytes_apart() {
    let mut w = window(0x200);
    let pe = pe_at(0);
    for n in 0..4usize {
        assert_eq!(pe.set_arg(&mut w, n, PEParameter::Single32(n as u32 + 1)), Ok(()));
    }
    assert_eq!(w.read32(0x20), 1);
    assert_eq!(w.read32(0x30), 2);
    assert_eq!(w.read32(0x40), 3);
    assert_eq!(w.read32(0x50), 4);
    assert_eq!(w.read32(0x24), 0);
}

#[test]
fn read_arg_refuses_other_widths() {
    let mut w = window(0x2000);
    let pe = pe_at(0x1000);
    assert_eq!(pe.read_arg(&mut w, 0, 2), Err(Error::UnsupportedRegisterSize { param: 2 }));
    assert_eq!(pe.read_arg(&mut w, 0, 0), Err(Error::UnsupportedRegisterSize { param: 0 }));
    assert_eq!(pe.read_arg(&mut w, 0, 16), Err(Error::UnsupportedRegisterSize { param: 16 }));
}

#[test]
fn set_arg_refuses_a_buffer() {
    let mut w = window(0x2000);
    let pe = pe_at(0x1000);
    let buffer = PEParameter::DataTransferPrealloc(DataTransferPrealloc {
        data: vec![9; 4],
        device_address: 0,
        free: false,
        from_device: false,
        to_device: true,
        memory: Arc::new(OffchipMemory { id: 2 }),
    });
    assert_eq!(
        pe.set_arg(&mut w, 0, buffer.clone()),
        Err(Error::UnsupportedParameter { param: buffer })
    );
    assert_eq!(w.read64(0x1020), 0);
}

#[test]
fn interrupt_registers_are_read_by_their_lowest_bit() {
    let mut w = window(0x2000);
    let pe = pe_at(0x1000);
    assert_eq!(pe.interrupt_set(&mut w), Ok(false));
    assert_eq!(pe.interrupt_status(&mut w), Ok((false, false)));
    w.write32(0x100c, 3);
    assert_eq!(pe.interrupt_set(&mut w), Ok(true));
    w.write32(0x100c, 2);
    assert_eq!(pe.interrupt_set(&mut w), Ok(false));
    w.write32(0x1004, 1);
    assert_eq!(pe.interrupt_status(&mut w), Ok((true, false)));
    w.write32(0x1004, 0);
    w.write32(0x1008, 5);
    assert_eq!(pe.interrupt_status(&mut w), Ok((false, true)));
    assert_eq!(pe.enable_interrupt(&mut w), Ok(()));
    assert_eq!(pe.interrupt_status(&mut w), Ok((true, true)));
}

#[test]
fn reset_interrupt_writes_one_or_zero() {
    let mut w = window(0x2000);
    let pe = pe_at(0x1000);
    assert_eq!(pe.reset_interrupt(&mut w, true), Ok(()));
    assert_eq!(w.read32(0x100c), 1);
    assert_eq!(pe.reset_interrupt(&mut w, false), Ok(()));
    assert_eq!(w.read32(0x100c), 0);
}

#[test]
fn return_value_is_the_register_at_sixteen() {
    let mut w = window(0x2000);
    let pe = pe_at(0x1000);
    w.write64(0x1010, 0xFFFF_0000_1111_2222);
    assert_eq!(pe.return_value(&mut w), 0xFFFF_0000_1111_2222);
}

#[test]
fn offset_can_be_moved() {
    let mut w = window(0x2000);
    let mut pe = pe_at(0x1000);
    pe.set_offset(0x800);
    assert_eq!(pe.start(&mut w), Ok(()));
    assert_eq!(w.read32(0x800), 1);
    assert_eq!(w.read32(0x1000), 0);
}

#[test]
fn local_memory_can_be_set() {
    let mut pe = pe_at(0);
    pe.set_local_memory(Some(Arc::new(OffchipMemory { id: 4 })));
    assert_eq!(pe.local_memory().as_ref().map(|m| m.id), Some(4));
}

#[test]
fn debug_errors_carry_the_id() {
    let mut pe = pe_at(0);
    assert_eq!(pe.enable_debug(), Ok(()));
    let mut broken = PE::new(
        11,
        1,
        0,
        0x100,
        String::from("broken"),
        Ok(Interrupt::new(0)),
        Box::new(BrokenDebug {}),
    )
    .unwrap();
    assert_eq!(
        broken.enable_debug(),
        Err(Error::DebugError { source: tapasco::debug::Error::Failed { errno: 5 }, id: 11 })
    );
    assert_eq!(debug_outcome(2, Ok(())), Ok(()));
    assert_eq!(
        debug_outcome(2, Err(tapasco::debug::Error::Unsupported)),
        Err(Error::DebugError { source: tapasco::debug::Error::Unsupported, id: 2 })
    );
}
