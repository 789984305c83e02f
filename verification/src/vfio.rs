//! The IOMMU container through which the device sees host memory: the steps that set it up,
//! the requests that map and unmap memory for the device, and the list of what is mapped.
//!
//! The library issues no ioctl. It says which request is due, is told what the kernel
//! answered, and keeps the books.

use vfio_bindings::bindings::vfio::VFIO_API_VERSION;
use vfio_bindings::bindings::vfio::VFIO_DMA_MAP_FLAG_READ;
use vfio_bindings::bindings::vfio::VFIO_DMA_MAP_FLAG_WRITE;
use vfio_bindings::bindings::vfio::VFIO_GROUP_FLAGS_VIABLE;
use vfio_bindings::bindings::vfio::VFIO_TYPE1_IOMMU;
use vstd::prelude::*;
use vstd::string::StringExecFns;

verus! {

/// `VFIO_API_VERSION` of the VFIO bindings: the version of the VFIO interface, 0.
#[verifier::external_body]
fn api_version() -> (v: u32)
    ensures
        v == 0,
{
    VFIO_API_VERSION
}

/// `VFIO_TYPE1_IOMMU` of the VFIO bindings: the number of the type 1 IOMMU, 1.
#[verifier::external_body]
fn type1_iommu() -> (v: u32)
    ensures
        v == 1,
{
    VFIO_TYPE1_IOMMU
}

/// `VFIO_GROUP_FLAGS_VIABLE` of the VFIO bindings: the flag of a viable group, bit 0.
#[verifier::external_body]
fn group_flags_viable() -> (v: u32)
    ensures
        v == 1,
{
    VFIO_GROUP_FLAGS_VIABLE
}

/// `VFIO_DMA_MAP_FLAG_READ` of the VFIO bindings: the flag of a mapping that the device may
/// read, bit 0.
#[verifier::external_body]
fn dma_map_flag_read() -> (v: u32)
    ensures
        v == 1,
{
    VFIO_DMA_MAP_FLAG_READ
}

/// `VFIO_DMA_MAP_FLAG_WRITE` of the VFIO bindings: the flag of a mapping that the device may
/// write, bit 1.
#[verifier::external_body]
fn dma_map_flag_write() -> (v: u32)
    ensures
        v == 2,
{
    VFIO_DMA_MAP_FLAG_WRITE
}

/// The requests that are made of the kernel.
#[derive(Debug, Clone, Copy, PartialEq, Eq, Structural)]
pub enum Operation {
    GetApiVersion,
    CheckExtension,
    GroupGetStatus,
    GroupSetContainer,
    SetIommu,
    GroupGetDeviceFd,
    IommuGetInfo,
    IommuMapDma,
    IommuUnmapDma,
    DeviceGetInfo,
    DeviceGetRegionInfo,
}

#[derive(Debug, Clone, PartialEq, Eq)]
pub enum Error {
    /// The file could not be opened.
    VfioOpen { file: String, errno: i32 },
    /// The kernel refused the request with the error number `errno`.
    VfioIoctl { operation: Operation, errno: i32 },
    /// The kernel answered the request with a value that means no.
    VfioRefused { operation: Operation, returned: i32 },
    /// Not every device of the group is bound to VFIO.
    VfioGroupNotViable { flags: u32 },
    /// The mapping is empty, does not fit into 64 bits, or overlaps one that exists.
    VfioMapping { iova: u64, size: u64 },
}

/// A part of the device's address space that is mapped to host memory.
#[derive(Debug, Clone, Copy, PartialEq, Eq, Structural)]
pub struct VfioMapping {
    pub iova: u64,
    pub size: u64,
}

/// What the kernel answered to a request: the value that the request returned, or the error
/// number with which it failed.
pub type Outcome = Result<i32, i32>;

/// Whether two mappings share an address.
pub open spec fn overlap(a: VfioMapping, b: VfioMapping) -> bool {
    a.iova < b.iova + b.size && b.iova < a.iova + a.size
}

/// Whether a mapping is not empty and ends within 64 bits.
pub open spec fn sound(m: VfioMapping) -> bool {
    m.size > 0 && m.iova + m.size <= u64::MAX
}

/// Whether `m` can be added to `mappings`: it is sound and overlaps none of them.
pub open spec fn fits(mappings: Seq<VfioMapping>, m: VfioMapping) -> bool {
    sound(m) && forall|i: int| 0 <= i < mappings.len() ==> !overlap(#[trigger] mappings[i], m)
}

/// Whether the mappings are sound and no two of them overlap.
pub open spec fn disjoint(mappings: Seq<VfioMapping>) -> bool {
    &&& forall|i: int| 0 <= i < mappings.len() ==> sound(#[trigger] mappings[i])
    &&& forall|i: int, j: int|
        0 <= i < j < mappings.len() ==> !overlap(#[trigger] mappings[i], #[trigger] mappings[j])
}

/// A request to map host memory for the device.
#[derive(Debug, Clone, Copy, PartialEq, Eq, Structural)]
pub struct DmaMap {
    pub flags: u32,
    pub vaddr: u64,
    pub iova: u64,
    pub size: u64,
}

/// A request to take a mapping away from the device.
#[derive(Debug, Clone, Copy, PartialEq, Eq, Structural)]
pub struct DmaUnmap {
    pub flags: u32,
    pub iova: u64,
    pub size: u64,
}

/// A request for what the IOMMU can do.
#[derive(Debug, Clone, Copy, PartialEq, Eq, Structural)]
pub struct IommuInfo {
    pub flags: u32,
    pub iova_pgsizes: u64,
}

/// A request for what the device has.
#[derive(Debug, Clone, Copy, PartialEq, Eq, Structural)]
pub struct DeviceInfo {
    pub flags: u32,
    pub num_regions: u32,
    pub num_irqs: u32,
}

/// A request for what one region of the device is.
#[derive(Debug, Clone, Copy, PartialEq, Eq, Structural)]
pub struct RegionInfo {
    pub flags: u32,
    pub index: u32,
    pub cap_offset: u32,
    pub size: u64,
    pub offset: u64,
}

/// An IOMMU container with its group and its device, and what is mapped through it.
#[derive(Debug)]
pub struct VfioDev {
    group: u32,
    mappings: Vec<VfioMapping>,
}

impl VfioDev {
    /// The mappings that are in place, oldest first.
    pub closed spec fn mappings(&self) -> Seq<VfioMapping> {
        self.mappings@
    }

    pub closed spec fn spec_group(&self) -> u32 {
        self.group
    }

    /// No two mappings overlap.
    pub closed spec fn wf(&self) -> bool {
        disjoint(self.mappings@)
    }

    #[verifier::when_used_as_spec(spec_group)]
    pub fn group(&self) -> (r: u32)
        ensures
            r == self.spec_group(),
    {
        self.group
    }

    /// The mapping list, oldest first.
    pub fn mapping_list(&self) -> (r: &Vec<VfioMapping>)
        ensures
            r@ == self.mappings(),
    {
        &self.mappings
    }

    /// Whether `m` can be added to the mappings in place.
    fn admits(&self, m: VfioMapping) -> (r: bool)
        ensures
            r == fits(self.mappings(), m),
    {
        if m.size == 0 || m.iova > u64::MAX - m.size {
            return false;
        }
        let mut i: usize = 0;
        while i < self.mappings.len()
            invariant
                i <= self.mappings@.len(),
                sound(m),
                forall|k: int| 0 <= k < i ==> !overlap(#[trigger] self.mappings@[k], m),
            decreases self.mappings@.len() - i,
        {
            let x = self.mappings[i];
            if x.iova as u128 + (x.size as u128) > m.iova as u128 && x.iova < m.iova + m.size {
                assert(overlap(self.mappings@[i as int], m));
                return false;
            }
            i = i + 1;
        }
        true
    }

    /// Records what the kernel answered to the request `request` to map memory, which
    /// [`vfio_dma_map`] has made for the mappings in place. Where the kernel agreed, the
    /// mapping becomes the list's last entry; otherwise the list is left as it was.
    pub fn dma_mapped(&mut self, request: DmaMap, outcome: Outcome) -> (r: Result<(), Error>)
        requires
            old(self).wf(),
            fits(old(self).mappings(), VfioMapping { iova: request.iova, size: request.size }),
        ensures
            final(self).wf(),
            final(self).spec_group() == old(self).spec_group(),
            r == dma_map_result(old(self).mappings(), request, outcome),
            r is Ok ==> final(self).mappings() == old(self).mappings().push(
                VfioMapping { iova: request.iova, size: request.size },
            ),
            r is Ok ==> final(self).mappings().contains(
                VfioMapping { iova: request.iova, size: request.size },
            ),
            r is Err ==> final(self).mappings() == old(self).mappings(),
    {
        match judge(Operation::IommuMapDma, outcome) {
            Err(e) => {
                return Err(e);
            },
            Ok(_) => {},
        }
        let m = VfioMapping { iova: request.iova, size: request.size };
        self.mappings.push(m);
        assert(self.mappings@.last() == m);
        Ok(())
    }

    /// Records what the kernel answered to the request `request` to unmap memory. Where the
    /// kernel agreed, the entry for the request's range leaves the list, and the other
    /// entries keep their order.
    pub fn dma_unmapped(&mut self, request: DmaUnmap, outcome: Outcome) -> (r: Result<(), Error>)
        requires
            old(self).wf(),
        ensures
            final(self).wf(),
            final(self).spec_group() == old(self).spec_group(),
            r == match judged(Operation::IommuUnmapDma, outcome) {
                Ok(_) => Ok::<(), Error>(()),
                Err(e) => Err::<(), Error>(e),
            },
            r is Err ==> final(self).mappings() == old(self).mappings(),
            r is Ok ==> final(self).mappings() == removed(
                old(self).mappings(),
                VfioMapping { iova: request.iova, size: request.size },
            ),
            r is Ok ==> !final(self).mappings().contains(
                VfioMapping { iova: request.iova, size: request.size },
            ),
    {
        match judge(Operation::IommuUnmapDma, outcome) {
            Err(e) => {
                return Err(e);
            },
            Ok(_) => {},
        }
        let ghost m = VfioMapping { iova: request.iova, size: request.size };
        let mut i: usize = 0;
        while i < self.mappings.len()
            invariant
                i <= self.mappings@.len(),
                self.mappings@ == old(self).mappings@,
                self.group == old(self).group,
                disjoint(self.mappings@),
                judged(Operation::IommuUnmapDma, outcome) is Ok,
                m == (VfioMapping { iova: request.iova, size: request.size }),
                forall|k: int| 0 <= k < i ==> self.mappings@[k] != m,
            decreases self.mappings@.len() - i,
        {
            let x = self.mappings[i];
            if x.iova == request.iova && x.size == request.size {
                proof {
                    lemma_found(self.mappings@, m, i as int);
                }
                self.mappings.remove(i);
                return Ok(());
            }
            i = i + 1;
        }
        proof {
            old(self).mappings@.index_of_first_ensures(m);
        }
        Ok(())
    }
}

/// `mappings` without the first entry that is equal to `m`.
pub open spec fn removed(mappings: Seq<VfioMapping>, m: VfioMapping) -> Seq<VfioMapping> {
    match mappings.index_of_first(m) {
        Some(i) => mappings.remove(i),
        None => mappings,
    }
}

/// In a list of mappings of which no two overlap, an entry is the only one of its value:
/// without it, the list does not hold the value, and still no two entries overlap.
pub proof fn lemma_found(mappings: Seq<VfioMapping>, m: VfioMapping, at: int)
    requires
        disjoint(mappings),
        0 <= at < mappings.len(),
        mappings[at] == m,
    ensures
        mappings.index_of_first(m) == Some(at),
        removed(mappings, m) == mappings.remove(at),
        !removed(mappings, m).contains(m),
        disjoint(removed(mappings, m)),
{
    mappings.index_of_first_ensures(m);
    let first = mappings.index_of_first(m).unwrap();
    if first != at {
        assert(overlap(mappings[first], mappings[at]));
    }
    let rest = mappings.remove(at);
    assert forall|i: int| 0 <= i < rest.len() implies rest[i] != m && sound(#[trigger] rest[i]) by {
        let j = if i < at {
            i
        } else {
            i + 1
        };
        assert(rest[i] == mappings[j]);
        if mappings[j] == m {
            assert(overlap(mappings[j], mappings[at]));
        }
    }
    assert forall|i: int, j: int| 0 <= i < j < rest.len() implies !overlap(
        #[trigger] rest[i],
        #[trigger] rest[j],
    ) by {
        let a = if i < at {
            i
        } else {
            i + 1
        };
        let b = if j < at {
            j
        } else {
            j + 1
        };
        assert(rest[i] == mappings[a]);
        assert(rest[j] == mappings[b]);
    }
}

/// What the kernel's answer to `operation` means: the value that the request returned, where
/// it did not fail and the value is not negative.
pub open spec fn judged(operation: Operation, outcome: Outcome) -> Result<i32, Error> {
    match outcome {
        Err(errno) => Err(Error::VfioIoctl { operation, errno }),
        Ok(returned) => if returned < 0 {
            Err(Error::VfioRefused { operation, returned })
        } else {
            Ok(returned)
        },
    }
}

/// Judges the kernel's answer to `operation`.
pub fn judge(operation: Operation, outcome: Outcome) -> (r: Result<i32, Error>)
    ensures
        r == judged(operation, outcome),
{
    match outcome {
        Err(errno) => Err(Error::VfioIoctl { operation, errno }),
        Ok(returned) => if returned < 0 {
            Err(Error::VfioRefused { operation, returned })
        } else {
            Ok(returned)
        },
    }
}

/// What recording the kernel's answer to a request to map memory gives.
pub open spec fn dma_map_result(
    mappings: Seq<VfioMapping>,
    request: DmaMap,
    outcome: Outcome,
) -> Result<(), Error> {
    match judged(Operation::IommuMapDma, outcome) {
        Err(e) => Err(e),
        Ok(_) => Ok(()),
    }
}

/// The request that maps `size` bytes of host memory at `vaddr` to the device address `iova`,
/// for the device to read and to write. A range that is empty, does not end within 64 bits or
/// overlaps a mapping in place is refused.
pub fn vfio_dma_map(dev: &VfioDev, size: u64, iova: u64, vaddr: u64) -> (r: Result<DmaMap, Error>)
    ensures
        r == if fits(dev.mappings(), VfioMapping { iova, size }) {
            Ok::<DmaMap, Error>(DmaMap { flags: 3, vaddr, iova, size })
        } else {
            Err::<DmaMap, Error>(Error::VfioMapping { iova, size })
        },
{
    if !dev.admits(VfioMapping { iova, size }) {
        return Err(Error::VfioMapping { iova, size });
    }
    Ok(dma_map_request(size, iova, vaddr))
}

/// The request that maps `size` bytes of host memory at `vaddr` to the device address `iova`,
/// for the device to read and to write, whatever is mapped already.
pub fn dma_map_request(size: u64, iova: u64, vaddr: u64) -> (r: DmaMap)
    ensures
        r == (DmaMap { flags: 3, vaddr, iova, size }),
{
    let read = dma_map_flag_read();
    let write = dma_map_flag_write();
    let flags: u32 = read | write;
    assert(1u32 | 2u32 == 3u32) by (bit_vector);
    DmaMap { flags, vaddr, iova, size }
}

/// The request that takes the mapping of `size` bytes at the device address `iova` away.
pub fn vfio_dma_unmap(dev: &VfioDev, iova: u64, size: u64) -> (r: DmaUnmap)
    ensures
        r == (DmaUnmap { flags: 0, iova, size }),
{
    DmaUnmap { flags: 0, iova, size }
}

/// The request for what the IOMMU of the container can do.
pub fn vfio_get_info(dev: &VfioDev) -> (r: IommuInfo)
    ensures
        r == (IommuInfo { flags: 0, iova_pgsizes: 0 }),
{
    IommuInfo { flags: 0, iova_pgsizes: 0 }
}

/// The request for what the device has: the number of its regions, among others.
pub fn vfio_get_device_info(dev: &VfioDev) -> (r: DeviceInfo)
    ensures
        r == (DeviceInfo { flags: 0, num_regions: 0, num_irqs: 0 }),
{
    DeviceInfo { flags: 0, num_regions: 0, num_irqs: 0 }
}

/// The request for the region `index` of the device.
pub open spec fn region_request(index: u32) -> RegionInfo {
    RegionInfo { flags: 0, index, cap_offset: 0, size: 0, offset: 0 }
}

/// The requests for the regions of a device that has `num_regions` of them: one for each
/// region, in the order of their numbers.
pub fn vfio_get_region_info(dev: &VfioDev, num_regions: u32) -> (r: Vec<RegionInfo>)
    ensures
        r@.len() == num_regions,
        forall|i: int| 0 <= i < num_regions ==> r@[i] == region_request(i as u32),
{
    let mut requests: Vec<RegionInfo> = Vec::new();
    let mut index: u32 = 0;
    while index < num_regions
        invariant
            index <= num_regions,
            requests@.len() == index,
            forall|i: int| 0 <= i < index ==> requests@[i] == region_request(i as u32),
        decreases num_regions - index,
    {
        requests.push(RegionInfo { flags: 0, index, cap_offset: 0, size: 0, offset: 0 });
        index = index + 1;
    }
    requests
}

/// The character of the decimal digit `d`.
pub open spec fn digit(d: nat) -> char {
    if d == 0 {
        '0'
    } else if d == 1 {
        '1'
    } else if d == 2 {
        '2'
    } else if d == 3 {
        '3'
    } else if d == 4 {
        '4'
    } else if d == 5 {
        '5'
    } else if d == 6 {
        '6'
    } else if d == 7 {
        '7'
    } else if d == 8 {
        '8'
    } else {
        '9'
    }
}

/// The decimal digits of `n`, without leading zeros.
pub open spec fn digits(n: nat) -> Seq<char>
    decreases n,
{
    if n < 10 {
        seq![digit(n)]
    } else {
        digits(n / 10).push(digit(n % 10))
    }
}

/// The decimal digit `d` as a string.
fn digit_str(d: u32) -> (r: &'static str)
    requires
        d < 10,
    ensures
        r@ == seq![digit(d as nat)],
{
    proof {
        reveal_strlit("0");
        reveal_strlit("1");
        reveal_strlit("2");
        reveal_strlit("3");
        reveal_strlit("4");
        reveal_strlit("5");
        reveal_strlit("6");
        reveal_strlit("7");
        reveal_strlit("8");
        reveal_strlit("9");
    }
    let r = if d == 0 {
        "0"
    } else if d == 1 {
        "1"
    } else if d == 2 {
        "2"
    } else if d == 3 {
        "3"
    } else if d == 4 {
        "4"
    } else if d == 5 {
        "5"
    } else if d == 6 {
        "6"
    } else if d == 7 {
        "7"
    } else if d == 8 {
        "8"
    } else {
        "9"
    };
    assert(r@ =~= seq![digit(d as nat)]);
    r
}

/// `n` in decimal digits.
pub fn decimal(n: u32) -> (r: String)
    ensures
        r@ == digits(n as nat),
    decreases n,
{
    if n < 10 {
        String::from_str(digit_str(n))
    } else {
        let mut r = decimal(n / 10);
        r.append(digit_str(n % 10));
        assert(r@ =~= digits(n as nat));
        r
    }
}

/// The file of the container.
pub fn container_path() -> (r: String)
    ensures
        r@ == "/dev/vfio/vfio"@,
{
    String::from_str("/dev/vfio/vfio")
}

/// The file of the group `group`: its number, in the directory of the container's file.
pub fn group_path(group: u32) -> (r: String)
    ensures
        r@ == "/dev/vfio/"@ + digits(group as nat),
{
    let mut r = String::from_str("/dev/vfio/");
    let number = decimal(group);
    r.append(number.as_str());
    r
}

/// The name under which the group knows the device.
pub fn device_name() -> (r: String)
    ensures
        r@ == "tapasco"@,
{
    String::from_str("tapasco")
}

/// The steps that set a container up, in their order.
#[derive(Debug, Clone, Copy, PartialEq, Eq, Structural)]
pub enum Step {
    /// Open the container's file.
    OpenContainer,
    /// Ask the container for the version of the interface.
    GetApiVersion,
    /// Ask the container whether it knows the type 1 IOMMU.
    CheckExtension,
    /// Open the group's file.
    OpenGroup,
    /// Ask the group for its status.
    GroupGetStatus,
    /// Put the group into the container.
    GroupSetContainer,
    /// Set the container's IOMMU to type 1.
    SetIommu,
    /// Ask the group for the device, by its name.
    GroupGetDeviceFd,
    /// Nothing is left to do.
    Done,
}

/// The step that follows `step`.
pub open spec fn following(step: Step) -> Step {
    match step {
        Step::OpenContainer => Step::GetApiVersion,
        Step::GetApiVersion => Step::CheckExtension,
        Step::CheckExtension => Step::OpenGroup,
        Step::OpenGroup => Step::GroupGetStatus,
        Step::GroupGetStatus => Step::GroupSetContainer,
        Step::GroupSetContainer => Step::SetIommu,
        Step::SetIommu => Step::GroupGetDeviceFd,
        Step::GroupGetDeviceFd => Step::Done,
        Step::Done => Step::Done,
    }
}

/// Why `step` has failed where the kernel answered `outcome`, and the group's status came
/// with `flags`: the error but for the file of a file that did not open. Nothing where the
/// step has not failed.
pub open spec fn failure(step: Step, outcome: Outcome, flags: u32) -> Option<Error> {
    match step {
        Step::OpenContainer | Step::OpenGroup | Step::Done => None,
        Step::GetApiVersion => match judged(Operation::GetApiVersion, outcome) {
            Err(e) => Some(e),
            Ok(version) => if version != 0 {
                Some(Error::VfioRefused { operation: Operation::GetApiVersion, returned: version })
            } else {
                None
            },
        },
        Step::CheckExtension => match judged(Operation::CheckExtension, outcome) {
            Err(e) => Some(e),
            Ok(known) => if known == 0 {
                Some(Error::VfioRefused { operation: Operation::CheckExtension, returned: 0 })
            } else {
                None
            },
        },
        Step::GroupGetStatus => match judged(Operation::GroupGetStatus, outcome) {
            Err(e) => Some(e),
            Ok(_) => if flags & 1 != 1 {
                Some(Error::VfioGroupNotViable { flags })
            } else {
                None
            },
        },
        Step::GroupSetContainer => match judged(Operation::GroupSetContainer, outcome) {
            Err(e) => Some(e),
            Ok(_) => None,
        },
        Step::SetIommu => match judged(Operation::SetIommu, outcome) {
            Err(e) => Some(e),
            Ok(_) => None,
        },
        Step::GroupGetDeviceFd => match judged(Operation::GroupGetDeviceFd, outcome) {
            Err(e) => Some(e),
            Ok(_) => None,
        },
    }
}

/// The file that `step` opens for the group `group`, where it opens one.
pub open spec fn opened(step: Step, group: u32) -> Option<Seq<char>> {
    match step {
        Step::OpenContainer => Some("/dev/vfio/vfio"@),
        Step::OpenGroup => Some("/dev/vfio/"@ + digits(group as nat)),
        _ => None,
    }
}

/// A container that is being set up.
#[derive(Debug, Clone, Copy, PartialEq, Eq, Structural)]
pub struct VfioInit {
    pub group: u32,
    /// The step that is due.
    pub step: Step,
}

/// Begins to set up a container for the group `vfio_group`: the first step is due.
pub fn init_vfio(vfio_group: u32) -> (r: VfioInit)
    ensures
        r == (VfioInit { group: vfio_group, step: Step::OpenContainer }),
{
    VfioInit { group: vfio_group, step: Step::OpenContainer }
}

impl VfioInit {
    /// The argument of the request that is due: the number of the type 1 IOMMU where the
    /// step asks for it or sets it, and 0 otherwise.
    pub fn argument(&self) -> (r: u32)
        ensures
            r == if self.step == Step::CheckExtension || self.step == Step::SetIommu {
                1u32
            } else {
                0u32
            },
    {
        match self.step {
            Step::CheckExtension | Step::SetIommu => type1_iommu(),
            _ => 0,
        }
    }

    /// The file that the step that is due opens, or the device's name where the step asks
    /// for the device; nothing for the other steps.
    pub fn name(&self) -> (r: Option<String>)
        ensures
            match self.step {
                Step::GroupGetDeviceFd => r matches Some(name) && name@ == "tapasco"@,
                _ => match opened(self.step, self.group) {
                    Some(path) => r matches Some(name) && name@ == path,
                    None => r is None,
                },
            },
    {
        match self.step {
            Step::OpenContainer => Some(container_path()),
            Step::OpenGroup => Some(group_path(self.group)),
            Step::GroupGetDeviceFd => Some(device_name()),
            _ => None,
        }
    }

    /// Takes the kernel's answer to the step that is due: what the request returned or the
    /// error number with which it failed and, for the group's status, the flags that came
    /// with it. Where the step has failed, it stays due; otherwise the next step is.
    pub fn advance(&mut self, outcome: Outcome, flags: u32) -> (r: Result<(), Error>)
        ensures
            final(self).group == old(self).group,
            r is Ok ==> final(self).step == following(old(self).step),
            r is Err ==> final(self).step == old(self).step,
            match opened(old(self).step, old(self).group) {
                Some(path) => match outcome {
                    Ok(_) => r is Ok,
                    Err(code) => r matches Err(Error::VfioOpen { file, errno }) && file@ == path
                        && errno == code,
                },
                None => match failure(old(self).step, outcome, flags) {
                    Some(e) => r == Err::<(), Error>(e),
                    None => r is Ok,
                },
            },
    {
        let next = match self.step {
            Step::OpenContainer => {
                match outcome {
                    Err(errno) => {
                        return Err(Error::VfioOpen { file: container_path(), errno });
                    },
                    Ok(_) => {},
                }
                Step::GetApiVersion
            },
            Step::GetApiVersion => {
                match judge(Operation::GetApiVersion, outcome) {
                    Err(e) => {
                        return Err(e);
                    },
                    Ok(version) => {
                        if version as i64 != api_version() as i64 {
                            return Err(
                                Error::VfioRefused {
                                    operation: Operation::GetApiVersion,
                                    returned: version,
                                },
                            );
                        }
                    },
                }
                Step::CheckExtension
            },
            Step::CheckExtension => {
                match judge(Operation::CheckExtension, outcome) {
                    Err(e) => {
                        return Err(e);
                    },
                    Ok(known) => {
                        if known == 0 {
                            return Err(
                                Error::VfioRefused {
                                    operation: Operation::CheckExtension,
                                    returned: 0,
                                },
                            );
                        }
                    },
                }
                Step::OpenGroup
            },
            Step::OpenGroup => {
                match outcome {
                    Err(errno) => {
                        return Err(Error::VfioOpen { file: group_path(self.group), errno });
                    },
                    Ok(_) => {},
                }
                Step::GroupGetStatus
            },
            Step::GroupGetStatus => {
                match judge(Operation::GroupGetStatus, outcome) {
                    Err(e) => {
                        return Err(e);
                    },
                    Ok(_) => {
                        let viable = group_flags_viable();
                        if (flags & viable) != viable {
                            return Err(Error::VfioGroupNotViable { flags });
                        }
                    },
                }
                Step::GroupSetContainer
            },
            Step::GroupSetContainer => {
                match judge(Operation::GroupSetContainer, outcome) {
                    Err(e) => {
                        return Err(e);
                    },
                    Ok(_) => {},
                }
                Step::SetIommu
            },
            Step::SetIommu => {
                match judge(Operation::SetIommu, outcome) {
                    Err(e) => {
                        return Err(e);
                    },
                    Ok(_) => {},
                }
                Step::GroupGetDeviceFd
            },
            Step::GroupGetDeviceFd => {
                match judge(Operation::GroupGetDeviceFd, outcome) {
                    Err(e) => {
                        return Err(e);
                    },
                    Ok(_) => {},
                }
                Step::Done
            },
            Step::Done => Step::Done,
        };
        self.step = next;
        Ok(())
    }

    /// The container, once every step is done: nothing is mapped through it yet.
    pub fn finish(self) -> (r: Option<VfioDev>)
        ensures
            self.step == Step::Done ==> (r matches Some(dev) && dev.wf() && dev.spec_group()
                == self.group && dev.mappings() == Seq::<VfioMapping>::empty()),
            self.step != Step::Done ==> r is None,
    {
        match self.step {
            Step::Done => Some(VfioDev { group: self.group, mappings: Vec::new() }),
            _ => None,
        }
    }
}

/// The number of places at which `a` and `b` hold different bytes.
pub open spec fn differences(a: Seq<u8>, b: Seq<u8>) -> nat
    decreases a.len(),
{
    if a.len() == 0 || b.len() == 0 {
        0
    } else {
        differences(a.drop_last(), b.drop_last()) + if a.last() != b.last() {
            1nat
        } else {
            0nat
        }
    }
}

/// Counts the places at which two buffers of one length differ: what the device should have
/// copied from one to the other, and has not.
pub fn count_differences(a: &[u8], b: &[u8]) -> (r: usize)
    requires
        a@.len() == b@.len(),
    ensures
        r == differences(a@, b@),
{
    let n: usize = a.len();
    let mut errors: usize = 0;
    let mut i: usize = 0;
    assert(a@.take(0) =~= Seq::<u8>::empty());
    while i < n
        invariant
            i <= n,
            n == a@.len(),
            n == b@.len(),
            errors <= i,
            errors == differences(a@.take(i as int), b@.take(i as int)),
        decreases n - i,
    {
        assert(a@.take(i + 1).drop_last() =~= a@.take(i as int));
        assert(b@.take(i + 1).drop_last() =~= b@.take(i as int));
        if a[i] != b[i] {
            errors = errors + 1;
        }
        i = i + 1;
    }
    assert(a@.take(n as int) =~= a@);
    assert(b@.take(n as int) =~= b@);
    errors
}

} // verus!
