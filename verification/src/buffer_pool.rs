//! The pinned buffers through which the user-space DMA engine stages its transfers, and the
//! pool that lends them out one at a time.

use crate::mapping::Mapping;
use crate::mapping::Store;
use crossbeam::deque::Injector;
use crossbeam::deque::Steal;
use vstd::prelude::*;

verus! {

/// `crossbeam::deque::Injector`, a queue that hands its items out first in, first out.
#[verifier::external_type_specification]
#[verifier::external_body]
#[verifier::reject_recursive_types(T)]
pub struct ExInjector<T>(Injector<T>);

/// The items of a queue, in the order in which they will be stolen. The queue is only ever
/// reached through an exclusive borrow, so that nothing pushes or steals beside the call that
/// is speaking of it.
pub uninterp spec fn queued(q: Injector<usize>) -> Seq<usize>;

/// What an attempt to steal from a queue gave.
pub enum Stolen {
    /// The queue holds nothing.
    Empty,
    /// The item that was first in the queue.
    Success(usize),
    /// The attempt has to be made again.
    Retry,
}

/// `Injector::new`: a queue that holds nothing.
#[verifier::external_body]
fn queue_new() -> (q: Injector<usize>)
    ensures
        queued(q) == Seq::<usize>::empty(),
{
    Injector::new()
}

/// `Injector::push`: `item` becomes the last item of the queue.
#[verifier::external_body]
fn queue_push(q: &mut Injector<usize>, item: usize)
    ensures
        queued(*final(q)) == queued(*old(q)).push(item),
{
    q.push(item)
}

/// `Injector::steal`: takes the first item out of the queue. An attempt may fail for no reason
/// that the caller can see, and the queue is then as it was; an empty queue is reported as
/// such.
#[verifier::external_body]
fn queue_steal(q: &mut Injector<usize>) -> (r: Stolen)
    ensures
        match r {
            Stolen::Success(item) => queued(*old(q)).len() > 0 && item == queued(*old(q))[0]
                && queued(*final(q)) == queued(*old(q)).drop_first(),
            Stolen::Empty => queued(*old(q)).len() == 0 && queued(*final(q)) == queued(*old(q)),
            Stolen::Retry => queued(*final(q)) == queued(*old(q)),
        },
{
    match q.steal() {
        Steal::Empty => Stolen::Empty,
        Steal::Success(item) => Stolen::Success(item),
        Steal::Retry => Stolen::Retry,
    }
}

/// What identifies a buffer: the number under which the driver knows it, the address under
/// which the DMA controller finds it, and its size in bytes.
pub struct Slot {
    pub id: usize,
    pub addr: u64,
    pub size: usize,
}

/// A pinned buffer that both the host and the DMA controller can reach.
pub struct DMABuffer {
    id: usize,
    size: usize,
    addr: u64,
    mapped: Mapping,
}

impl DMABuffer {
    /// A buffer is never empty, and its size is that of its mapping.
    pub closed spec fn wf(&self) -> bool {
        &&& self.size > 0
        &&& self.size == self.mapped.size()
        &&& self.mapped.memory() ==> self.mapped@.len() == self.size
    }

    /// The number under which the driver knows the buffer.
    pub closed spec fn spec_id(&self) -> usize {
        self.id
    }

    /// The number of bytes that the buffer holds.
    pub closed spec fn spec_size(&self) -> usize {
        self.size
    }

    /// The address under which the DMA controller finds the buffer.
    pub closed spec fn spec_addr(&self) -> u64 {
        self.addr
    }

    pub open spec fn slot(&self) -> Slot {
        Slot { id: self.spec_id(), addr: self.spec_addr(), size: self.spec_size() }
    }

    /// Whether the buffer is memory that the controller does not reach: so it is with the
    /// buffers of a simulation, and never with those of the driver.
    pub closed spec fn memory(&self) -> bool {
        self.mapped.memory()
    }

    /// The bytes of a buffer that is memory.
    pub closed spec fn bytes(&self) -> Seq<u8> {
        self.mapped@
    }

    /// What the host has stored into the buffer, oldest first.
    pub closed spec fn stores(&self) -> Seq<Store> {
        self.mapped.stores()
    }

    /// A buffer that is in working order holds at least one byte; where it is memory, it holds
    /// as many bytes as its size says.
    pub proof fn lemma_size(&self)
        requires
            self.wf(),
        ensures
            self.spec_size() > 0,
            self.memory() ==> self.bytes().len() == self.spec_size(),
    {
    }

    /// The buffer that the driver handed out as `id`, found by the controller at `addr` and
    /// by the host in `mapped`.
    pub fn new(id: usize, size: usize, addr: u64, mapped: Mapping) -> (r: DMABuffer)
        requires
            size > 0,
            size == mapped.size(),
        ensures
            r.wf(),
            r.spec_id() == id,
            r.spec_size() == size,
            r.spec_addr() == addr,
            r.memory() == mapped.memory(),
            r.bytes() == mapped@,
            r.stores() == mapped.stores(),
    {
        let len: usize = mapped.len();
        DMABuffer { id, size, addr, mapped }
    }

    #[verifier::when_used_as_spec(spec_id)]
    pub fn id(&self) -> (r: usize)
        ensures
            r == self.spec_id(),
    {
        self.id
    }

    #[verifier::when_used_as_spec(spec_size)]
    pub fn size(&self) -> (r: usize)
        ensures
            r == self.spec_size(),
            self.wf() ==> r > 0,
    {
        self.size
    }

    #[verifier::when_used_as_spec(spec_addr)]
    pub fn addr(&self) -> (r: u64)
        ensures
            r == self.spec_addr(),
    {
        self.addr
    }

    /// Copies `len` bytes out of the buffer, starting at `at`. Of a buffer that is memory
    /// these are the bytes that it holds there; of a buffer that the controller reaches they
    /// are what the controller has left there.
    pub fn load(&self, at: usize, len: usize) -> (r: Vec<u8>)
        requires
            self.wf(),
            at + len <= self.size(),
        ensures
            r@.len() == len,
            self.memory() ==> r@ == crate::mapping::loaded(self.bytes(), at as int, len as int),
    {
        self.mapped.load(at, len)
    }

    /// Copies `data` into the buffer, starting at `at`.
    pub fn store(&mut self, at: usize, data: &[u8])
        requires
            old(self).wf(),
            at + data@.len() <= old(self).size(),
        ensures
            final(self).wf(),
            final(self).slot() == old(self).slot(),
            final(self).memory() == old(self).memory(),
            final(self).stores() == old(self).stores().push(Store { at: at as int, data: data@ }),
            final(self).memory() ==> final(self).bytes() == crate::mapping::stored(
                old(self).bytes(),
                at as int,
                data@,
            ),
    {
        self.mapped.store(at, data);
    }
}

/// How often a steal that has to be made again is made again before the pool gives up.
pub const STEAL_ATTEMPTS: usize = 64;

/// The buffers of one direction that no transfer is using.
///
/// A buffer is either idle in the pool or in the hands of the one transfer that stole it.
pub struct BufferPool {
    queue: Injector<usize>,
    parked: Vec<Option<DMABuffer>>,
}

impl BufferPool {
    /// Every queued slot holds a buffer, and no slot is queued twice.
    pub closed spec fn wf(&self) -> bool {
        let q = queued(self.queue);
        &&& forall|i: int|
            0 <= i < q.len() ==> (#[trigger] q[i]) < self.parked@.len() && self.parked@[q[i] as int]
                is Some && self.parked@[q[i] as int]->Some_0.wf()
        &&& forall|i: int, j: int| 0 <= i < j < q.len() ==> q[i] != q[j]
    }

    /// The idle buffers, the one that is lent out next first.
    pub closed spec fn idle(&self) -> Seq<Slot> {
        let q = queued(self.queue);
        Seq::new(q.len(), |i: int| self.parked@[q[i] as int]->Some_0.slot())
    }

    /// A pool without buffers.
    pub fn new() -> (r: BufferPool)
        ensures
            r.wf(),
            r.idle() == Seq::<Slot>::empty(),
    {
        let r = BufferPool { queue: queue_new(), parked: Vec::new() };
        assert(r.idle() =~= Seq::<Slot>::empty());
        r
    }

    /// Puts `buffer` into the pool, behind the buffers that are idle already.
    pub fn push(&mut self, buffer: DMABuffer)
        requires
            old(self).wf(),
            buffer.wf(),
        ensures
            final(self).wf(),
            final(self).idle() == old(self).idle().push(buffer.slot()),
    {
        let ghost before = queued(self.queue);
        let total: usize = self.parked.len();
        let mut slot: usize = 0;
        while slot < total && self.parked[slot].is_some()
            invariant
                slot <= total,
                total == self.parked@.len(),
            decreases total - slot,
        {
            slot = slot + 1;
        }
        if slot < total {
            self.parked[slot] = Some(buffer);
        } else {
            self.parked.push(Some(buffer));
        }
        assert(forall|i: int| 0 <= i < before.len() ==> (#[trigger] before[i]) != slot);
        queue_push(&mut self.queue, slot);
        assert(self.idle() =~= old(self).idle().push(buffer.slot()));
    }

    /// Whether `slot` holds a buffer that is not in the queue: the state of a slot that a
    /// steal has just taken out of the queue.
    pub closed spec fn parks(&self, slot: usize) -> bool {
        &&& slot < self.parked@.len()
        &&& self.parked@[slot as int] matches Some(buffer)
        &&& buffer.wf()
        &&& !queued(self.queue).contains(slot)
    }

    /// What identifies the buffer in `slot`.
    pub closed spec fn parked(&self, slot: usize) -> Slot {
        self.parked@[slot as int]->Some_0.slot()
    }

    /// What the pool lends where the queue has answered `stolen` to a steal: the buffer of
    /// the slot that was stolen, and nothing where the queue was empty or asks for another
    /// attempt. The idle buffers are those that the queue still holds.
    pub fn lend(&mut self, stolen: Stolen) -> (r: Option<DMABuffer>)
        requires
            old(self).wf(),
            stolen matches Stolen::Success(slot) ==> old(self).parks(slot),
        ensures
            final(self).wf(),
            final(self).idle() == old(self).idle(),
            match stolen {
                Stolen::Success(slot) => r matches Some(buffer) && buffer.wf() && buffer.slot()
                    == old(self).parked(slot) && !final(self).parks(slot),
                Stolen::Empty | Stolen::Retry => r is None,
            },
    {
        match stolen {
            Stolen::Success(slot) => {
                let r = self.parked[slot].take();
                assert(self.idle() =~= old(self).idle());
                r
            },
            Stolen::Empty => None,
            Stolen::Retry => None,
        }
    }

    /// Lends out the buffer that has been idle longest. Nothing is lent where the pool is
    /// empty, or where the queue keeps asking for another attempt.
    pub fn steal(&mut self) -> (r: Option<DMABuffer>)
        requires
            old(self).wf(),
        ensures
            final(self).wf(),
            match r {
                Some(buffer) => buffer.wf() && old(self).idle().len() > 0 && buffer.slot() == old(
                    self,
                ).idle()[0] && final(self).idle() == old(self).idle().drop_first(),
                None => final(self).idle() == old(self).idle(),
            },
            old(self).idle().len() == 0 ==> r is None,
    {
        let mut attempts: usize = 0;
        while attempts < STEAL_ATTEMPTS
            invariant
                self.wf(),
                self.idle() == old(self).idle(),
            decreases STEAL_ATTEMPTS - attempts,
        {
            let ghost before = queued(self.queue);
            let stolen = queue_steal(&mut self.queue);
            proof {
                if let Stolen::Success(slot) = stolen {
                    let rest = queued(self.queue);
                    assert forall|i: int| 0 <= i < rest.len() implies rest[i] == before[i + 1] by {}
                    assert(!rest.contains(slot));
                    assert(self.idle() =~= old(self).idle().drop_first());
                    assert(old(self).idle()[0] == self.parked(slot));
                }
            }
            match stolen {
                Stolen::Retry => {},
                _ => {
                    return self.lend(stolen);
                },
            }
            attempts = attempts + 1;
        }
        None
    }
}

} // verus!
