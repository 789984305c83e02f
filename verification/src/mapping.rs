//! Byte-addressed memory windows backed by `memmap::MmapMut`.
//!
//! There are two kinds of window. A window that the library has made itself, as an anonymous
//! mapping, is memory: nothing but its owner reaches it, and it holds what was last stored in
//! it. A window that was made elsewhere may be shared with a device, which changes its bytes
//! without any call of the library. Of such a window the contracts state its size and what was
//! stored into it, in the order of the stores, and nothing of what a load finds.

use memmap::MmapMut;
use vstd::prelude::*;

verus! {

/// `memmap::MmapMut`, a mapped region that can be read and written.
#[verifier::external_type_specification]
#[verifier::external_body]
pub struct ExMmapMut(MmapMut);

/// The bytes of a mapping that only this process reaches, first byte first. Nothing is said
/// of it for any other mapping.
pub uninterp spec fn mapped(m: MmapMut) -> Seq<u8>;

/// The number of bytes that a mapping spans.
pub uninterp spec fn extent(m: MmapMut) -> nat;

/// Whether a mapping was made by `MmapMut::map_anon`, so that only this process reaches it.
pub uninterp spec fn anonymous(m: MmapMut) -> bool;

/// `memory` with the bytes from `at` on replaced by `data`.
pub open spec fn stored(memory: Seq<u8>, at: int, data: Seq<u8>) -> Seq<u8> {
    Seq::new(
        memory.len(),
        |i: int| if at <= i < at + data.len() { data[i - at] } else { memory[i] },
    )
}

/// The `len` bytes of `memory` from `at` on.
pub open spec fn loaded(memory: Seq<u8>, at: int, len: int) -> Seq<u8> {
    memory.subrange(at, at + len)
}

/// What was stored is what is loaded from the same place.
pub proof fn lemma_stored_then_loaded(memory: Seq<u8>, at: int, data: Seq<u8>)
    requires
        0 <= at,
        at + data.len() <= memory.len(),
    ensures
        loaded(stored(memory, at, data), at, data.len() as int) == data,
        stored(memory, at, data).len() == memory.len(),
{
    assert(loaded(stored(memory, at, data), at, data.len() as int) =~= data);
}

/// Storing leaves every byte outside the stored range as it was.
pub proof fn lemma_stored_elsewhere(memory: Seq<u8>, at: int, data: Seq<u8>, from: int, len: int)
    requires
        0 <= from,
        0 <= len,
        from + len <= memory.len(),
        from + len <= at || at + data.len() <= from,
    ensures
        loaded(stored(memory, at, data), from, len) == loaded(memory, from, len),
{
    assert(loaded(stored(memory, at, data), from, len) =~= loaded(memory, from, len));
}

/// The length of `MmapMut`'s slice view: the number of bytes that the mapping spans.
#[verifier::external_body]
fn mapped_len(m: &MmapMut) -> (n: usize)
    ensures
        n == extent(*m),
        anonymous(*m) ==> mapped(*m).len() == n,
{
    m.len()
}

/// `MmapMut`'s `Deref`, and a copy of the range `start..end` of the slice. The copy has the
/// length of the range; of an anonymous mapping it holds the bytes of the range.
#[verifier::external_body]
fn mapped_load(m: &MmapMut, start: usize, end: usize) -> (r: Vec<u8>)
    requires
        start <= end <= extent(*m),
    ensures
        r@.len() == end - start,
        anonymous(*m) ==> r@ == mapped(*m).subrange(start as int, end as int),
{
    m[start..end].to_vec()
}

/// `MmapMut`'s `DerefMut`, followed by a slice copy into the range `start..end`. The mapping
/// keeps its size and its kind. In an anonymous mapping the bytes of the range become `data`
/// and every other byte keeps its value.
#[verifier::external_body]
fn mapped_store(m: &mut MmapMut, start: usize, end: usize, data: &[u8])
    requires
        start <= end <= extent(*old(m)),
        end - start == data@.len(),
    ensures
        extent(*final(m)) == extent(*old(m)),
        anonymous(*final(m)) == anonymous(*old(m)),
        anonymous(*old(m)) ==> mapped(*final(m)) == stored(mapped(*old(m)), start as int, data@),
{
    m[start..end].copy_from_slice(data)
}

/// `MmapMut::map_anon`: a fresh anonymous mapping of `len` bytes, or the error number with
/// which the system refused one (0 where it gave none). A mapping of no bytes is refused
/// before the system is asked.
#[verifier::external_body]
fn mapped_anon(len: usize) -> (r: Result<MmapMut, i32>)
    ensures
        r matches Ok(m) ==> anonymous(m) && extent(m) == len && mapped(m).len() == len,
        len == 0 ==> r is Err,
{
    match MmapMut::map_anon(len) {
        Ok(m) => Ok(m),
        Err(e) => Err(e.raw_os_error().unwrap_or(0)),
    }
}

/// `MmapMut`'s `as_ptr`: the address at which the mapping starts in this process.
#[verifier::external_body]
fn mapped_address(m: &MmapMut) -> u64 {
    m.as_ptr() as u64
}

/// One store into a window: `data`, from the byte `at` on.
pub struct Store {
    pub at: int,
    pub data: Seq<u8>,
}

/// A window of memory.
pub struct Mapping {
    inner: MmapMut,
    stores: Ghost<Seq<Store>>,
}

impl View for Mapping {
    type V = Seq<u8>;

    /// The bytes of a window that is memory.
    closed spec fn view(&self) -> Seq<u8> {
        mapped(self.inner)
    }
}

impl Mapping {
    /// The number of bytes in the window.
    pub closed spec fn size(&self) -> nat {
        extent(self.inner)
    }

    /// Whether the window is memory: made by the library, reached by its owner alone.
    pub closed spec fn memory(&self) -> bool {
        anonymous(self.inner)
    }

    /// What has been stored into the window through this value, oldest first.
    pub closed spec fn stores(&self) -> Seq<Store> {
        self.stores@
    }

    /// Whether this window is `before` after `data` has been stored at `at`: the store is the
    /// last of its stores, and where the window is memory, its bytes are those of `before`
    /// with `data` at `at`.
    pub open spec fn stored_into(&self, before: Mapping, at: int, data: Seq<u8>) -> bool {
        &&& self.size() == before.size()
        &&& self.memory() == before.memory()
        &&& self.stores() == before.stores().push(Store { at, data })
        &&& self.memory() ==> self@ == stored(before@, at, data) && self@.len() == self.size()
    }

    /// Takes over a mapping that was made elsewhere. Nothing has been stored through it.
    pub fn new(inner: MmapMut) -> (r: Mapping)
        ensures
            r.size() == extent(inner),
            r.memory() == anonymous(inner),
            r@ == mapped(inner),
            r.stores() == Seq::<Store>::empty(),
    {
        Mapping { inner, stores: Ghost(Seq::empty()) }
    }

    /// The window over what the system answered to the wish for a mapping: the mapping that
    /// it granted, or the error number with which it refused.
    pub fn granted(answer: Result<MmapMut, i32>) -> (r: Result<Mapping, i32>)
        ensures
            match answer {
                Ok(inner) => r matches Ok(m) && m@ == mapped(inner) && m.size() == extent(inner)
                    && m.memory() == anonymous(inner) && m.stores() == Seq::<Store>::empty(),
                Err(errno) => r == Err::<Mapping, i32>(errno),
            },
    {
        match answer {
            Ok(inner) => Ok(Mapping { inner, stores: Ghost(Seq::empty()) }),
            Err(errno) => Err(errno),
        }
    }

    /// A fresh window of `len` bytes that is memory, or the error number with which the
    /// system refused it. The system decides, but for a window of no bytes, which is always
    /// refused.
    pub fn anonymous(len: usize) -> (r: Result<Mapping, i32>)
        ensures
            r matches Ok(m) ==> m.memory() && m.size() == len && m@.len() == len && m.stores()
                == Seq::<Store>::empty(),
            len == 0 ==> r is Err,
    {
        Mapping::granted(mapped_anon(len))
    }

    /// The address at which the window starts in this process.
    pub fn address(&self) -> u64 {
        mapped_address(&self.inner)
    }

    /// The number of bytes in the window.
    pub fn len(&self) -> (n: usize)
        ensures
            n == self.size(),
            self.memory() ==> self@.len() == n,
    {
        mapped_len(&self.inner)
    }

    /// Copies `len` bytes out of the window, starting at `at`. Of a window that is memory
    /// these are the bytes that it holds there.
    pub fn load(&self, at: usize, len: usize) -> (r: Vec<u8>)
        requires
            at + len <= self.size(),
        ensures
            r@.len() == len,
            self.memory() ==> r@ == loaded(self@, at as int, len as int),
    {
        let total: usize = mapped_len(&self.inner);
        mapped_load(&self.inner, at, at + len)
    }

    /// Copies `data` into the window, starting at `at`.
    pub fn store(&mut self, at: usize, data: &[u8])
        requires
            at + data@.len() <= old(self).size(),
        ensures
            final(self).stored_into(*old(self), at as int, data@),
    {
        let total: usize = mapped_len(&self.inner);
        let end: usize = at + data.len();
        mapped_store(&mut self.inner, at, end, data);
        self.stores = Ghost(self.stores@.push(Store { at: at as int, data: data@ }));
    }
}

} // verus!
