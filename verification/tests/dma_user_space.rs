use tapasco::buffer_pool::BufferPool;
use tapasco::buffer_pool::DMABuffer;
use tapasco::buffer_pool::Stolen;
use tapasco::dma::Error;
use tapasco::dma_user_space::fill;
use tapasco::dma_user_space::BufferRequest;
use tapasco::dma_user_space::Phase;
use tapasco::dma_user_space::Progress;
use tapasco::dma_user_space::Transfer;
use tapasco::dma_user_space::UserSpaceDMA;
use tapasco::dma_user_space::BUFFER_SIZE;
use tapasco::mapping::Mapping;
use tapasco::registers::RegisterWindow;

const ENGINE: usize = 0x100;

fn buffer(id: usize, size: usize, addr: u64) -> DMABuffer {
    DMABuffer::new(id, size, addr, Mapping::anonymous(size).unwrap())
}

fn patterned(id: usize, size: usize, addr: u64) -> DMABuffer {
    let mut mapped = Mapping::anonymous(size).unwrap();
    let pattern: Vec<u8> = (0..size).map(|i| (i % 251) as u8).collect();
    mapped.store(0, &pattern);
    DMABuffer::new(id, size, addr, mapped)
}

fn engine(size: usize) -> UserSpaceDMA {
    UserSpaceDMA::new(ENGINE, 1, 2, buffer(10, size, 0xA000_0000), patterned(11, size, 0xB000_0000))
}

fn window() -> RegisterWindow {
    RegisterWindow::new(Mapping::anonymous(0x1000).unwrap())
}

fn programmed(w: &mut RegisterWindow) -> (u64, u64, u64, u64) {
    (w.read64(ENGINE), w.read64(ENGINE + 0x08), w.read64(ENGINE + 0x10), w.read64(ENGINE + 0x20))
}

#[test]
fn buffers_are_asked_for_in_256_kib() {
    assert_eq!(BUFFER_SIZE, 262144);
    assert_eq!(
        UserSpaceDMA::buffer_request(false),
        BufferRequest { size: 262144, from_device: false }
    );
    assert_eq!(
        UserSpaceDMA::buffer_request(true),
        BufferRequest { size: 262144, from_device: true }
    );
}

#[test]
fn buffers_are_mapped_behind_four_pages() {
    assert_eq!(UserSpaceDMA::buffer_offset(0), Some(16384));
    assert_eq!(UserSpaceDMA::buffer_offset(1), Some(20480));
    assert_eq!(UserSpaceDMA::buffer_offset(42), Some(46 * 4096));
    assert_eq!(
        UserSpaceDMA::buffer_offset((u64::MAX / 4096 - 4) as usize),
        Some((u64::MAX / 4096) * 4096)
    );
    assert_eq!(UserSpaceDMA::buffer_offset((u64::MAX / 4096 - 3) as usize), None);
    assert_eq!(UserSpaceDMA::buffer_offset(usize::MAX), None);
}

#[test]
fn new_engine_has_quiet_lines() {
    let e = engine(64);
    assert_eq!(e.engine_offset(), ENGINE);
    assert_eq!(e.read_int().index(), 1);
    assert_eq!(e.write_int().index(), 2);
    assert_eq!(e.read_int().pending(), 0);
    assert_eq!(e.write_int().pending(), 0);
}

#[test]
fn chunked_transfer_to_the_device() {
    let mut e = engine(256 * 1024);
    let mut w = window();
    let data: Vec<u8> = (0..640 * 1024usize).map(|i| (i % 241) as u8).collect();
    let mut t = Transfer::to_device(0x4000_0000, data.len());
    assert_eq!(t.phase(), Phase::Fresh);

    assert_eq!(e.copy_to(&mut w, &mut t, &data), Ok(Progress::AwaitInterrupt));
    assert_eq!(programmed(&mut w), (0xA000_0000, 0x4000_0000, 262144, 0x1000_0001));
    assert_eq!(t.phase(), Phase::Running);
    assert_eq!((t.done(), t.flying(), t.waits()), (0, 262144, 0));
    assert_eq!(t.staged(), data[0..262144].to_vec());

    assert_eq!(e.interrupt_fired(false), Ok(()));
    assert_eq!(e.copy_to(&mut w, &mut t, &data), Ok(Progress::AwaitInterrupt));
    assert_eq!(programmed(&mut w), (0xA000_0000, 0x4004_0000, 262144, 0x1000_0001));
    assert_eq!((t.done(), t.flying(), t.waits()), (262144, 262144, 1));
    assert_eq!(t.staged(), data[262144..524288].to_vec());

    assert_eq!(e.interrupt_fired(false), Ok(()));
    assert_eq!(e.copy_to(&mut w, &mut t, &data), Ok(Progress::AwaitInterrupt));
    assert_eq!(programmed(&mut w), (0xA000_0000, 0x4008_0000, 131072, 0x1000_0001));
    assert_eq!((t.done(), t.flying(), t.waits()), (524288, 131072, 2));
    assert_eq!(t.staged(), data[524288..].to_vec());

    assert_eq!(e.interrupt_fired(false), Ok(()));
    assert_eq!(e.copy_to(&mut w, &mut t, &data), Ok(Progress::Finished));
    assert_eq!(t.phase(), Phase::Finished);
    assert_eq!((t.done(), t.flying(), t.waits()), (655360, 0, 3));
    assert_eq!(e.write_int().pending(), 0);
    assert_eq!(e.read_int().pending(), 0);
    assert_eq!(t.staged(), Vec::<u8>::new());
    assert_eq!(e.copy_to(&mut w, &mut t, &data), Ok(Progress::Finished));
}

#[test]
fn transfer_waits_for_its_interrupt() {
    let mut e = engine(16);
    let mut w = window();
    let data = [5u8; 20];
    let mut t = Transfer::to_device(0, 20);
    assert_eq!(e.copy_to(&mut w, &mut t, &data), Ok(Progress::AwaitInterrupt));
    w.write64(ENGINE + 0x20, 0);
    assert_eq!(e.copy_to(&mut w, &mut t, &data), Ok(Progress::AwaitInterrupt));
    assert_eq!(w.read64(ENGINE + 0x20), 0);
    assert_eq!((t.done(), t.flying(), t.waits()), (0, 16, 0));
    assert_eq!(e.interrupt_fired(true), Err(Error::TooManyInterrupts));
    assert_eq!(e.copy_to(&mut w, &mut t, &data), Ok(Progress::AwaitInterrupt));
    assert_eq!(t.waits(), 0);
    assert_eq!(e.interrupt_fired(false), Ok(()));
    assert_eq!(e.copy_to(&mut w, &mut t, &data), Ok(Progress::AwaitInterrupt));
    assert_eq!(programmed(&mut w), (0xA000_0000, 16, 4, 0x1000_0001));
}

#[test]
fn interrupt_without_a_chunk_is_one_too_many() {
    let mut e = engine(16);
    let mut w = window();
    assert_eq!(e.interrupt_fired(false), Err(Error::TooManyInterrupts));
    assert_eq!(e.interrupt_fired(true), Err(Error::TooManyInterrupts));
    let data = [1u8; 8];
    let mut t = Transfer::to_device(0, 8);
    assert_eq!(e.copy_to(&mut w, &mut t, &data), Ok(Progress::AwaitInterrupt));
    assert_eq!(e.interrupt_fired(false), Ok(()));
    assert_eq!(e.interrupt_fired(false), Err(Error::TooManyInterrupts));
    assert_eq!(e.write_int().pending(), 1);
    assert_eq!(e.copy_to(&mut w, &mut t, &data), Ok(Progress::Finished));
    assert_eq!(e.interrupt_fired(false), Err(Error::TooManyInterrupts));
}

#[test]
fn failed_channel_closes_the_transfer_and_returns_the_buffer() {
    let mut e = engine(16);
    let mut w = window();
    let data = [1u8; 40];
    let failure =
        Error::ErrorInterrupt { source: tapasco::interrupt::Error::Channel { index: 2, errno: 11 } };
    let mut t = Transfer::to_device(0, 40);
    assert_eq!(e.copy_to(&mut w, &mut t, &data), Ok(Progress::AwaitInterrupt));
    assert_eq!(e.interrupt_fired(false), Ok(()));
    assert_eq!(e.copy_to(&mut w, &mut t, &data), Ok(Progress::AwaitInterrupt));
    e.interrupt_failed(false, 11);
    w.write64(ENGINE + 0x20, 0);
    assert_eq!(e.copy_to(&mut w, &mut t, &data), Err(failure));
    assert_eq!(t.phase(), Phase::Failed);
    assert_eq!((t.done(), t.flying(), t.waits()), (16, 0, 1));
    assert_eq!(w.read64(ENGINE + 0x20), 0);
    assert_eq!(e.copy_to(&mut w, &mut t, &data), Err(failure));
    assert_eq!(e.interrupt_fired(false), Err(Error::TooManyInterrupts));

    let mut next = Transfer::to_device(0x100, 8);
    assert_eq!(e.copy_to(&mut w, &mut next, &data[..8]), Err(failure));
    assert_eq!(next.phase(), Phase::Fresh);
    assert_eq!(w.read64(ENGINE + 0x20), 0);

    let mut back = [0u8; 8];
    let mut other = Transfer::from_device(0x100, 8);
    assert_eq!(e.copy_from(&mut w, &mut other, &mut back), Ok(Progress::AwaitInterrupt));
}

#[test]
fn failed_channel_closes_a_transfer_from_the_device() {
    let mut e = engine(16);
    let mut w = window();
    let mut back = [7u8; 8];
    let mut t = Transfer::from_device(0x40, 8);
    assert_eq!(e.copy_from(&mut w, &mut t, &mut back), Ok(Progress::AwaitInterrupt));
    e.interrupt_failed(true, 5);
    let failure =
        Error::ErrorInterrupt { source: tapasco::interrupt::Error::Channel { index: 1, errno: 5 } };
    assert_eq!(e.copy_from(&mut w, &mut t, &mut back), Err(failure));
    assert_eq!(t.phase(), Phase::Failed);
    assert_eq!(back, [7u8; 8]);
    let mut next = Transfer::from_device(0x40, 8);
    assert_eq!(e.copy_from(&mut w, &mut next, &mut back), Err(failure));
}

#[test]
fn pending_interrupt_is_consumed_before_a_failure_counts() {
    let mut e = engine(16);
    let mut w = window();
    let data = [1u8; 8];
    let mut t = Transfer::to_device(0, 8);
    assert_eq!(e.copy_to(&mut w, &mut t, &data), Ok(Progress::AwaitInterrupt));
    assert_eq!(e.interrupt_fired(false), Ok(()));
    e.interrupt_failed(false, 11);
    assert_eq!(e.copy_to(&mut w, &mut t, &data), Ok(Progress::Finished));
}

#[test]
fn one_buffer_serves_one_transfer_at_a_time() {
    let mut e = engine(16);
    let mut w = window();
    let data = [1u8; 8];
    let mut first = Transfer::to_device(0, 8);
    let mut second = Transfer::to_device(0x100, 8);
    assert_eq!(e.copy_to(&mut w, &mut first, &data), Ok(Progress::AwaitInterrupt));
    assert_eq!(e.copy_to(&mut w, &mut second, &data), Ok(Progress::RetryLater));
    assert_eq!(second.phase(), Phase::Fresh);
    assert_eq!(programmed(&mut w).1, 0);
    assert_eq!(e.interrupt_fired(false), Ok(()));
    assert_eq!(e.copy_to(&mut w, &mut first, &data), Ok(Progress::Finished));
    assert_eq!(e.copy_to(&mut w, &mut second, &data), Ok(Progress::AwaitInterrupt));
    assert_eq!(programmed(&mut w), (0xA000_0000, 0x100, 8, 0x1000_0001));
}

#[test]
fn directions_have_buffers_of_their_own() {
    let mut e = engine(16);
    let mut w = window();
    let data = [1u8; 8];
    let mut back = [0u8; 8];
    let mut to = Transfer::to_device(0, 8);
    let mut from = Transfer::from_device(0x40, 8);
    assert_eq!(e.copy_to(&mut w, &mut to, &data), Ok(Progress::AwaitInterrupt));
    assert_eq!(e.copy_from(&mut w, &mut from, &mut back), Ok(Progress::AwaitInterrupt));
    assert_eq!(programmed(&mut w), (0xB000_0000, 0x40, 8, 0x1000_1000));
    assert_eq!(e.interrupt_fired(true), Ok(()));
    assert_eq!(e.copy_to(&mut w, &mut to, &data), Ok(Progress::AwaitInterrupt));
    assert_eq!(e.write_int().pending(), 0);
    assert_eq!(e.read_int().pending(), 1);
    assert_eq!(e.copy_from(&mut w, &mut from, &mut back), Ok(Progress::Finished));
    assert_eq!(e.read_int().pending(), 0);
    assert_eq!(from.waits(), 1);
    assert_eq!(to.waits(), 0);
}

#[test]
fn empty_transfer_takes_and_returns_a_buffer() {
    let mut e = engine(16);
    let mut w = window();
    let mut t = Transfer::to_device(0x10, 0);
    assert_eq!(e.copy_to(&mut w, &mut t, &[]), Ok(Progress::Finished));
    assert_eq!(t.waits(), 0);
    assert_eq!(programmed(&mut w), (0, 0, 0, 0));
    let mut next = Transfer::to_device(0x10, 1);
    assert_eq!(e.copy_to(&mut w, &mut next, &[9]), Ok(Progress::AwaitInterrupt));
}

#[test]
fn chunked_transfer_from_the_device() {
    let mut e = engine(100);
    let mut w = window();
    let mut data = vec![0xFFu8; 250];
    let mut t = Transfer::from_device(0x9000, 250);
    assert_eq!(e.copy_from(&mut w, &mut t, &mut data), Ok(Progress::AwaitInterrupt));
    assert_eq!(programmed(&mut w), (0xB000_0000, 0x9000, 100, 0x1000_1000));
    assert_eq!(data, vec![0xFFu8; 250]);
    assert_eq!(e.copy_from(&mut w, &mut t, &mut data), Ok(Progress::AwaitInterrupt));
    assert_eq!(data, vec![0xFFu8; 250]);

    assert_eq!(e.interrupt_fired(true), Ok(()));
    assert_eq!(e.copy_from(&mut w, &mut t, &mut data), Ok(Progress::AwaitInterrupt));
    assert_eq!(programmed(&mut w), (0xB000_0000, 0x9000 + 100, 100, 0x1000_1000));
    assert_eq!((t.done(), t.flying(), t.waits()), (100, 100, 1));
    assert_eq!(data[99], 99);
    assert_eq!(data[100], 0xFF);

    assert_eq!(e.interrupt_fired(true), Ok(()));
    assert_eq!(e.copy_from(&mut w, &mut t, &mut data), Ok(Progress::AwaitInterrupt));
    assert_eq!(programmed(&mut w), (0xB000_0000, 0x9000 + 200, 50, 0x1000_1000));

    assert_eq!(e.interrupt_fired(true), Ok(()));
    assert_eq!(e.copy_from(&mut w, &mut t, &mut data), Ok(Progress::Finished));
    assert_eq!(t.waits(), 3);
    let expected: Vec<u8> = (0..250usize).map(|i| ((i % 100) % 251) as u8).collect();
    assert_eq!(data, expected);
    assert_eq!(e.write_int().pending(), 0);
}

#[test]
fn transfer_of_a_whole_number_of_buffers() {
    let mut e = engine(8);
    let mut w = window();
    let data = [3u8; 16];
    let mut t = Transfer::to_device(0, 16);
    assert_eq!(e.copy_to(&mut w, &mut t, &data), Ok(Progress::AwaitInterrupt));
    assert_eq!(e.interrupt_fired(false), Ok(()));
    assert_eq!(e.copy_to(&mut w, &mut t, &data), Ok(Progress::AwaitInterrupt));
    assert_eq!(programmed(&mut w), (0xA000_0000, 8, 8, 0x1000_0001));
    assert_eq!(e.interrupt_fired(false), Ok(()));
    assert_eq!(e.copy_to(&mut w, &mut t, &data), Ok(Progress::Finished));
    assert_eq!(t.waits(), 2);
}

#[test]
fn schedule_programs_the_four_registers() {
    let e = engine(16);
    let mut w = window();
    e.schedule_dma_transfer(&mut w, 0x1111, 0x2222, 0x3333, true);
    assert_eq!(programmed(&mut w), (0x1111, 0x2222, 0x3333, 0x1000_1000));
    assert_eq!(w.read64(ENGINE + 0x18), 0);
    e.schedule_dma_transfer(&mut w, 1, 2, 3, false);
    assert_eq!(programmed(&mut w), (1, 2, 3, 0x1000_0001));
}

#[test]
fn pool_lends_in_the_order_of_arrival() {
    let mut pool = BufferPool::new();
    assert!(pool.steal().is_none());
    pool.push(buffer(1, 8, 0x10));
    pool.push(buffer(2, 8, 0x20));
    let a = pool.steal().unwrap();
    assert_eq!((a.id(), a.size(), a.addr()), (1, 8, 0x10));
    pool.push(buffer(3, 8, 0x30));
    let b = pool.steal().unwrap();
    assert_eq!(b.id(), 2);
    pool.push(a);
    assert_eq!(pool.steal().unwrap().id(), 3);
    assert_eq!(pool.steal().unwrap().id(), 1);
    assert!(pool.steal().is_none());
    pool.push(b);
    assert_eq!(pool.steal().unwrap().id(), 2);
}

#[test]
fn pool_lends_nothing_without_a_stolen_slot() {
    let mut pool = BufferPool::new();
    pool.push(buffer(1, 8, 0x10));
    assert!(pool.lend(Stolen::Empty).is_none());
    assert!(pool.lend(Stolen::Retry).is_none());
    assert_eq!(pool.steal().unwrap().id(), 1);
    assert!(pool.steal().is_none());
}

#[test]
fn buffer_holds_what_was_stored() {
    let mut b = buffer(1, 8, 0);
    b.store(2, &[1, 2, 3]);
    assert_eq!(b.load(0, 8), vec![0, 0, 1, 2, 3, 0, 0, 0]);
}

#[test]
fn fill_replaces_a_range() {
    let mut target = [9u8; 6];
    fill(&mut target, 2, &[1, 2, 3]);
    assert_eq!(target, [9, 9, 1, 2, 3, 9]);
    fill(&mut target, 6, &[]);
    assert_eq!(target, [9, 9, 1, 2, 3, 9]);
}
