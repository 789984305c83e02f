//! The design manifest of a bitstream, and the status that is made of it: the numbers of the
//! manifest are read from their hexadecimal text, the processing elements are listed with
//! their memories, and the encoded status is laid out as the text of a memory file.

use hex::encode;
use vstd::pervasive::unreached;
use vstd::prelude::*;
use vstd::string::StringExecFns;
use vstd::utf8::encode_utf8;

verus! {

/// Why a text is no hexadecimal number of 64 bits.
#[derive(Debug, Clone, Copy, PartialEq, Eq, Structural)]
pub enum HexError {
    /// There is no text.
    Empty,
    /// A character is no hexadecimal digit.
    InvalidDigit,
    /// The number does not fit into 64 bits.
    PosOverflow,
}

#[derive(Debug, Clone, PartialEq, Eq)]
pub enum JSONToStatusError {
    /// The input file `filename` is no manifest.
    JSONFormatError { filename: String },
    /// A text of the manifest is no hexadecimal number.
    HexToIntError { err: HexError },
    /// No input file was named.
    MissingInput,
    /// No output file was named.
    MissingOutput,
    /// A local memory comes before the first processing element.
    MemoryWithoutPE,
}

impl JSONToStatusError {
    /// The error for a manifest that could not be read from the file `filename`.
    pub fn from_filename(filename: String) -> (r: JSONToStatusError)
        ensures
            r matches JSONToStatusError::JSONFormatError { filename: name } && name@ == filename@,
    {
        JSONToStatusError::JSONFormatError { filename }
    }

    /// The error for a text that is no hexadecimal number.
    pub fn from_hex(err: HexError) -> (r: JSONToStatusError)
        ensures
            r == (JSONToStatusError::HexToIntError { err }),
    {
        JSONToStatusError::HexToIntError { err }
    }
}

/// The value of the hexadecimal digit `c`, in either case.
pub open spec fn hex_digit_value(c: u8) -> Option<u64> {
    if 0x30 <= c <= 0x39 {
        Some((c - 0x30) as u64)
    } else if 0x61 <= c <= 0x66 {
        Some((c - 0x61 + 10) as u64)
    } else if 0x41 <= c <= 0x46 {
        Some((c - 0x41 + 10) as u64)
    } else {
        None
    }
}

/// `text` without the marks `0x` that it begins with.
pub open spec fn without_marks(text: Seq<u8>) -> Seq<u8>
    decreases text.len(),
{
    if text.len() >= 2 && text[0] == 0x30 && text[1] == 0x78 {
        without_marks(text.skip(2))
    } else {
        text
    }
}

/// The number that the hexadecimal digits `digits` stand for, most significant digit first.
/// The first character that is no digit, or the first digit with which the number leaves
/// 64 bits, decides the error.
pub open spec fn hex_number(digits: Seq<u8>) -> Result<u64, HexError>
    decreases digits.len(),
{
    if digits.len() == 0 {
        Ok(0)
    } else {
        match hex_number(digits.drop_last()) {
            Err(e) => Err(e),
            Ok(high) => match hex_digit_value(digits.last()) {
                None => Err(HexError::InvalidDigit),
                Some(low) => if high * 16 + low > u64::MAX {
                    Err(HexError::PosOverflow)
                } else {
                    Ok((high * 16 + low) as u64)
                },
            },
        }
    }
}

/// The number that `text` stands for: hexadecimal digits, after any marks `0x` and one `+`.
pub open spec fn hex_text(text: Seq<u8>) -> Result<u64, HexError> {
    let rest = without_marks(text);
    if rest.len() == 0 {
        Err(HexError::Empty)
    } else if rest[0] == 0x2b {
        if rest.len() == 1 {
            Err(HexError::InvalidDigit)
        } else {
            hex_number(rest.skip(1))
        }
    } else {
        hex_number(rest)
    }
}

fn digit_value(c: u8) -> (r: Option<u64>)
    ensures
        r == hex_digit_value(c),
{
    if 0x30 <= c && c <= 0x39 {
        Some((c - 0x30) as u64)
    } else if 0x61 <= c && c <= 0x66 {
        Some((c - 0x61 + 10) as u64)
    } else if 0x41 <= c && c <= 0x46 {
        Some((c - 0x41 + 10) as u64)
    } else {
        None
    }
}

/// Reads the hexadecimal number that the bytes `text` spell.
pub fn from_hex_bytes(text: &[u8]) -> (r: Result<u64, HexError>)
    ensures
        r == hex_text(text@),
{
    let n: usize = text.len();
    let mut start: usize = 0;
    assert(text@.skip(0) =~= text@);
    while n - start >= 2 && text[start] == 0x30 && text[start + 1] == 0x78
        invariant
            start <= n,
            n == text@.len(),
            without_marks(text@) == without_marks(text@.skip(start as int)),
        decreases n - start,
    {
        assert(text@.skip(start as int).skip(2) =~= text@.skip(start + 2));
        start = start + 2;
    }
    let ghost rest = text@.skip(start as int);
    assert(without_marks(text@) == rest);
    if start == n {
        return Err(HexError::Empty);
    }
    if text[start] == 0x2b {
        if n - start == 1 {
            return Err(HexError::InvalidDigit);
        }
        start = start + 1;
    }
    let ghost digits = text@.skip(start as int);
    assert(digits =~= if rest[0] == 0x2b {
        rest.skip(1)
    } else {
        rest
    });
    assert(hex_text(text@) == hex_number(digits));
    let mut value: u64 = 0;
    let mut i: usize = start;
    assert(digits.take(0) =~= Seq::<u8>::empty());
    while i < n
        invariant
            start <= i <= n,
            n == text@.len(),
            digits == text@.skip(start as int),
            hex_text(text@) == hex_number(digits),
            hex_number(digits.take(i - start)) == Ok::<u64, HexError>(value),
        decreases n - i,
    {
        let ghost upto = digits.take(i - start + 1);
        assert(upto.drop_last() =~= digits.take(i - start));
        assert(upto.last() == text@[i as int]);
        let low = match digit_value(text[i]) {
            None => {
                proof {
                    lemma_hex_error_stays(digits, i - start + 1);
                }
                return Err(HexError::InvalidDigit);
            },
            Some(low) => low,
        };
        if value > (u64::MAX - low) / 16 {
            proof {
                lemma_hex_error_stays(digits, i - start + 1);
            }
            return Err(HexError::PosOverflow);
        }
        value = value * 16 + low;
        i = i + 1;
    }
    assert(digits.take(n - start) =~= digits);
    Ok(value)
}

/// The number that the text `text` stands for, by the bytes of its characters.
pub open spec fn hex_value(text: Seq<char>) -> Result<u64, HexError> {
    hex_text(encode_utf8(text))
}

/// Reads the hexadecimal number that `s` spells: its digits, in either case, after any marks
/// `0x` and one `+`.
pub fn from_hex_str(s: &str) -> (r: Result<u64, JSONToStatusError>)
    ensures
        r == match hex_value(s@) {
            Ok(value) => Ok::<u64, JSONToStatusError>(value),
            Err(err) => Err::<u64, JSONToStatusError>(JSONToStatusError::HexToIntError { err }),
        },
{
    match from_hex_bytes(s.as_bytes()) {
        Ok(value) => Ok(value),
        Err(err) => Err(JSONToStatusError::from_hex(err)),
    }
}

/// An error within the first `upto` digits is the error of the whole.
pub proof fn lemma_hex_error_stays(digits: Seq<u8>, upto: int)
    requires
        0 <= upto <= digits.len(),
        hex_number(digits.take(upto)) is Err,
    ensures
        hex_number(digits) == hex_number(digits.take(upto)),
    decreases digits.len() - upto,
{
    if upto < digits.len() {
        let next = digits.take(upto + 1);
        assert(next.drop_last() =~= digits.take(upto));
        lemma_hex_error_stays(digits, upto + 1);
    } else {
        assert(digits.take(upto) =~= digits);
    }
}

/// The character of the hexadecimal digit `d`, in lower case.
pub open spec fn hex_char(d: int) -> char {
    if d == 0 {
        '0'
    } else if d == 1 {
        '1'
    } else if d == 2 {
        '2'
    } else if d == 3 {
        '3'
    } else if d == 4 {
        '4'
    } else if d == 5 {
        '5'
    } else if d == 6 {
        '6'
    } else if d == 7 {
        '7'
    } else if d == 8 {
        '8'
    } else if d == 9 {
        '9'
    } else if d == 10 {
        'a'
    } else if d == 11 {
        'b'
    } else if d == 12 {
        'c'
    } else if d == 13 {
        'd'
    } else if d == 14 {
        'e'
    } else {
        'f'
    }
}

/// The two hexadecimal digits of `byte`, the high one first.
pub open spec fn hex_pair_of(byte: u8) -> Seq<char> {
    seq![hex_char(byte as int / 16), hex_char(byte as int % 16)]
}

/// `hex::encode` of a single byte: its two hexadecimal digits in lower case, the high digit
/// first.
#[verifier::external_body]
fn hex_pair(byte: u8) -> (r: String)
    ensures
        r@ == hex_pair_of(byte),
{
    encode([byte])
}

/// The bytes `data` as the initialization vector of a memory file: two hexadecimal digits
/// for each byte, a comma and a new line between one byte and the next.
pub open spec fn initialization_vector(data: Seq<u8>) -> Seq<char>
    decreases data.len(),
{
    if data.len() == 0 {
        Seq::empty()
    } else if data.len() == 1 {
        hex_pair_of(data[0])
    } else {
        initialization_vector(data.drop_last()) + ",\n                "@ + hex_pair_of(
            data.last(),
        )
    }
}

/// The text of the memory file that holds `data`.
pub open spec fn mem_file(data: Seq<u8>) -> Seq<char> {
    "memory_initialization_radix=16;\n    memory_initialization_vector=\n    "@
        + initialization_vector(data) + ";\n    "@
}

/// Lays `data` out as the text of a memory file in radix 16.
pub fn mem_file_content(data: &[u8]) -> (r: String)
    ensures
        r@ == mem_file(data@),
{
    let mut init_vec = String::from_str("");
    proof {
        reveal_strlit("");
    }
    let mut i: usize = 0;
    while i < data.len()
        invariant
            i <= data@.len(),
            init_vec@ == initialization_vector(data@.take(i as int)),
        decreases data@.len() - i,
    {
        let pair = hex_pair(data[i]);
        let ghost upto = data@.take(i + 1);
        assert(upto.drop_last() =~= data@.take(i as int));
        assert(upto.last() == data@[i as int]);
        if i == 0 {
            init_vec = pair;
            assert(upto[0] == data@[0]);
        } else {
            init_vec.append(",\n                ");
            init_vec.append(pair.as_str());
        }
        i = i + 1;
    }
    assert(data@.take(data@.len() as int) =~= data@);
    let mut coe_content = String::from_str(
        "memory_initialization_radix=16;\n    memory_initialization_vector=\n    ",
    );
    coe_content.append(init_vec.as_str());
    coe_content.append(";\n    ");
    coe_content
}

/// One slot of the design: a kernel, or the local memory of the kernel before it.
#[derive(Debug, Clone, PartialEq, Eq)]
pub struct Composition {
    /// `Memory` for a local memory.
    pub kind: String,
    /// The slot, which numbers the offsets of the architecture.
    pub slot_id: u64,
    pub kernel: u64,
}

#[derive(Debug, Clone, PartialEq, Eq)]
pub struct Version {
    pub software: String,
    pub year: u64,
    pub release: u64,
}

#[derive(Debug, Clone, PartialEq, Eq)]
pub struct Clocks {
    pub domain: String,
    pub frequency: u64,
}

#[derive(Debug, Clone, PartialEq, Eq)]
pub struct Component {
    pub name: String,
    /// The offset of the component, in hexadecimal.
    pub address: String,
}

#[derive(Debug, Clone, PartialEq, Eq)]
pub struct ComponentAddresses {
    /// The base address of the platform, in hexadecimal.
    pub base: String,
    pub components: Vec<Component>,
}

#[derive(Debug, Clone, PartialEq, Eq)]
pub struct PEAddresses {
    /// The base address of the architecture, in hexadecimal.
    pub base: String,
    /// The offset of each slot, in hexadecimal.
    pub offsets: Vec<String>,
}

#[derive(Debug, Clone, PartialEq, Eq)]
pub struct BaseAddresses {
    pub architecture: PEAddresses,
    pub platform: ComponentAddresses,
}

/// The manifest of a design.
#[derive(Debug, Clone, PartialEq, Eq)]
pub struct Design {
    pub composition: Vec<Composition>,
    pub timestamp: u64,
    pub versions: Vec<Version>,
    pub clocks: Vec<Clocks>,
    pub base_addresses: BaseAddresses,
}

/// A processing element of the status.
#[derive(Debug, Clone, PartialEq, Eq)]
pub struct StatusPe {
    pub name: String,
    pub id: u32,
    pub offset: u64,
    pub local_memory: u64,
}

/// A component of the platform in the status.
#[derive(Debug, Clone, PartialEq, Eq)]
pub struct StatusPlatform {
    pub name: String,
    pub offset: u64,
}

/// A clock of the status.
#[derive(Debug, Clone, PartialEq, Eq)]
pub struct StatusClock {
    pub name: String,
    pub frequency_mhz: u32,
}

/// A version of the status.
#[derive(Debug, Clone, PartialEq, Eq)]
pub struct StatusVersion {
    pub software: String,
    pub year: u32,
    pub release: u32,
}

/// The status of a design, as it is stored with the bitstream.
#[derive(Debug, Clone, PartialEq, Eq)]
pub struct Status {
    pub arch_base: u64,
    pub platform_base: u64,
    pub timestamp: u64,
    pub pe: Vec<StatusPe>,
    pub platform: Vec<StatusPlatform>,
    pub clocks: Vec<StatusClock>,
    pub versions: Vec<StatusVersion>,
}

/// A processing element of the status as contracts see it.
pub struct PeEntry {
    pub name: Seq<char>,
    pub id: u32,
    pub offset: u64,
    pub local_memory: u64,
}

impl View for StatusPe {
    type V = PeEntry;

    open spec fn view(&self) -> PeEntry {
        PeEntry {
            name: self.name@,
            id: self.id,
            offset: self.offset,
            local_memory: self.local_memory,
        }
    }
}

/// The low 32 bits of `x`.
pub open spec fn low32(x: u64) -> u32 {
    (x & 0xffff_ffff) as u32
}

/// The processing elements of `list` as contracts see them.
pub open spec fn entries(list: Seq<StatusPe>) -> Seq<PeEntry> {
    Seq::new(list.len(), |i: int| list[i]@)
}

/// Whether the slots of `composition` that are reached are among the `offsets`: every slot
/// before which the composition can be listed.
pub open spec fn slots_known(composition: Seq<Composition>, offsets: Seq<String>) -> bool {
    forall|i: int|
        0 <= i < composition.len() && listed(#[trigger] composition.take(i), offsets) is Ok
            ==> composition[i].slot_id < offsets.len()
}

/// Whether the addresses of the platform's components are hexadecimal numbers, where the
/// design gets as far as its platform: its base addresses are numbers and its composition can
/// be listed.
pub open spec fn platform_known(design: Design) -> bool {
    hex_value(design.base_addresses.architecture.base@) is Ok && hex_value(
        design.base_addresses.platform.base@,
    ) is Ok && listed(design.composition@, design.base_addresses.architecture.offsets@) is Ok
        ==> addresses_known(design.base_addresses.platform.components@)
}

/// Whether the slots of the design's composition that are reached have an offset, where the
/// design gets as far as its composition: its base addresses are numbers.
pub open spec fn composition_known(design: Design) -> bool {
    hex_value(design.base_addresses.architecture.base@) is Ok && hex_value(
        design.base_addresses.platform.base@,
    ) is Ok ==> slots_known(design.composition@, design.base_addresses.architecture.offsets@)
}

/// Whether the addresses of `components` are hexadecimal numbers.
pub open spec fn addresses_known(components: Seq<Component>) -> bool {
    forall|i: int|
        0 <= i < components.len() ==> hex_value((#[trigger] components[i]).address@)
            is Ok
}

/// The processing elements that `composition` lists. A kernel becomes a processing element
/// at the offset of its slot; a memory gives the offset of its slot to the processing element
/// before it as its local memory. The first slot that cannot be listed decides the error.
pub open spec fn listed(composition: Seq<Composition>, offsets: Seq<String>) -> Result<
    Seq<PeEntry>,
    JSONToStatusError,
>
    decreases composition.len(),
{
    if composition.len() == 0 {
        Ok(Seq::empty())
    } else {
        match listed(composition.drop_last(), offsets) {
            Err(e) => Err(e),
            Ok(pes) => {
                let slot = composition.last();
                match hex_value(offsets[slot.slot_id as int]@) {
                    Err(err) => Err(JSONToStatusError::HexToIntError { err }),
                    Ok(addr) => if slot.kind@ == "Memory"@ {
                        if pes.len() == 0 {
                            Err(JSONToStatusError::MemoryWithoutPE)
                        } else {
                            Ok(
                                pes.update(
                                    pes.len() - 1,
                                    PeEntry { local_memory: addr, ..pes.last() },
                                ),
                            )
                        }
                    } else {
                        Ok(
                            pes.push(
                                PeEntry {
                                    name: "UNNAMED KERNEL"@,
                                    id: low32(slot.kernel),
                                    offset: addr,
                                    local_memory: 0,
                                },
                            ),
                        )
                    },
                }
            },
        }
    }
}

/// An error among the first `upto` slots is the error of the whole composition.
pub proof fn lemma_listed_error_stays(
    composition: Seq<Composition>,
    offsets: Seq<String>,
    upto: int,
)
    requires
        0 <= upto <= composition.len(),
        listed(composition.take(upto), offsets) is Err,
    ensures
        listed(composition, offsets) == listed(composition.take(upto), offsets),
    decreases composition.len() - upto,
{
    if upto < composition.len() {
        let next = composition.take(upto + 1);
        assert(next.drop_last() =~= composition.take(upto));
        lemma_listed_error_stays(composition, offsets, upto + 1);
    } else {
        assert(composition.take(upto) =~= composition);
    }
}

/// Lists the processing elements of `composition`, whose slots have the offsets `offsets`.
pub fn list_pes(composition: &Vec<Composition>, offsets: &Vec<String>) -> (r: Result<
    Vec<StatusPe>,
    JSONToStatusError,
>)
    requires
        slots_known(composition@, offsets@),
    ensures
        match listed(composition@, offsets@) {
            Ok(pes) => r matches Ok(list) && entries(list@) == pes,
            Err(e) => r == Err::<Vec<StatusPe>, JSONToStatusError>(e),
        },
{
    let memory = String::from_str("Memory");
    let mut pes: Vec<StatusPe> = Vec::new();
    let mut i: usize = 0;
    assert(composition@.take(0) =~= Seq::<Composition>::empty());
    assert(entries(pes@) =~= Seq::<PeEntry>::empty());
    while i < composition.len()
        invariant
            i <= composition@.len(),
            memory@ == "Memory"@,
            slots_known(composition@, offsets@),
            listed(composition@.take(i as int), offsets@) == Ok::<
                Seq<PeEntry>,
                JSONToStatusError,
            >(entries(pes@)),
        decreases composition@.len() - i,
    {
        let pe = &composition[i];
        let ghost upto = composition@.take(i + 1);
        assert(upto.drop_last() =~= composition@.take(i as int));
        assert(upto.last() == composition@[i as int]);
        assert(listed(composition@.take(i as int), offsets@) is Ok);
        assert(composition@[i as int].slot_id < offsets@.len());
        let known: usize = offsets.len();
        let slot: usize = pe.slot_id as usize;
        let addr = match from_hex_str(offsets[slot].as_str()) {
            Ok(addr) => addr,
            Err(e) => {
                proof {
                    lemma_listed_error_stays(composition@, offsets@, i + 1);
                }
                return Err(e);
            },
        };
        if pe.kind == memory {
            if pes.len() == 0 {
                proof {
                    lemma_listed_error_stays(composition@, offsets@, i + 1);
                }
                return Err(JSONToStatusError::MemoryWithoutPE);
            }
            let ghost before = entries(pes@);
            let mut last = pes.pop().unwrap();
            last.local_memory = addr;
            pes.push(last);
            assert(entries(pes@) =~= before.update(
                before.len() - 1,
                PeEntry { local_memory: addr, ..before.last() },
            ));
        } else {
            let ghost before = entries(pes@);
            let entry = StatusPe {
                name: String::from_str("UNNAMED KERNEL"),
                id: (pe.kernel & 0xffff_ffff) as u32,
                offset: addr,
                local_memory: 0,
            };
            pes.push(entry);
            assert(entries(pes@) =~= before.push(entry@));
        }
        i = i + 1;
    }
    assert(composition@.take(composition@.len() as int) =~= composition@);
    Ok(pes)
}

/// Makes the status of `design`. The base addresses and the offsets of the slots are read
/// from their hexadecimal text; the years, releases, frequencies and kernels are cut to
/// 32 bits. Only what is reached has to be in order: a design that fails early may name
/// slots and addresses that do not exist.
pub fn status_of(design: &Design) -> (r: Result<Status, JSONToStatusError>)
    requires
        composition_known(*design),
        platform_known(*design),
    ensures
        match hex_value(design.base_addresses.architecture.base@) {
            Err(err) => r == Err::<Status, JSONToStatusError>(
                JSONToStatusError::HexToIntError { err },
            ),
            Ok(arch_base) => match hex_value(design.base_addresses.platform.base@) {
                Err(err) => r == Err::<Status, JSONToStatusError>(
                    JSONToStatusError::HexToIntError { err },
                ),
                Ok(platform_base) => match listed(
                    design.composition@,
                    design.base_addresses.architecture.offsets@,
                ) {
                    Err(e) => r == Err::<Status, JSONToStatusError>(e),
                    Ok(pes) => {
                        &&& r matches Ok(status)
                        &&& status.arch_base == arch_base
                        &&& status.platform_base == platform_base
                        &&& status.timestamp == design.timestamp
                        &&& entries(status.pe@) == pes
                        &&& status.clocks@.len() == design.clocks@.len()
                        &&& forall|i: int|
                            0 <= i < design.clocks@.len() ==> (#[trigger] status.clocks@[i]).name@
                                == design.clocks@[i].domain@ && status.clocks@[i].frequency_mhz
                                == low32(design.clocks@[i].frequency)
                        &&& status.platform@.len() == design.base_addresses.platform.components@.len()
                        &&& forall|i: int|
                            0 <= i < status.platform@.len() ==> (#[trigger] status.platform@[i]).name@
                                == design.base_addresses.platform.components@[i].name@ && Ok::<
                                u64,
                                HexError,
                            >(status.platform@[i].offset) == hex_value(
                                design.base_addresses.platform.components@[i].address@,
                            )
                        &&& status.versions@.len() == design.versions@.len()
                        &&& forall|i: int|
                            0 <= i < design.versions@.len() ==> (
                            #[trigger] status.versions@[i]).software@
                                == design.versions@[i].software@ && status.versions@[i].year
                                == low32(design.versions@[i].year) && status.versions@[i].release
                                == low32(design.versions@[i].release)
                    },
                },
            },
        },
{
    let arch_base = match from_hex_str(design.base_addresses.architecture.base.as_str()) {
        Ok(v) => v,
        Err(e) => {
            return Err(e);
        },
    };
    let platform_base = match from_hex_str(design.base_addresses.platform.base.as_str()) {
        Ok(v) => v,
        Err(e) => {
            return Err(e);
        },
    };
    let pes = match list_pes(&design.composition, &design.base_addresses.architecture.offsets) {
        Ok(v) => v,
        Err(e) => {
            return Err(e);
        },
    };
    let mut clocks: Vec<StatusClock> = Vec::new();
    let mut i: usize = 0;
    while i < design.clocks.len()
        invariant
            i <= design.clocks@.len(),
            clocks@.len() == i,
            forall|k: int|
                0 <= k < i ==> (#[trigger] clocks@[k]).name@ == design.clocks@[k].domain@
                    && clocks@[k].frequency_mhz == low32(design.clocks@[k].frequency),
        decreases design.clocks@.len() - i,
    {
        let x = &design.clocks[i];
        clocks.push(
            StatusClock {
                name: x.domain.clone(),
                frequency_mhz: (x.frequency & 0xffff_ffff) as u32,
            },
        );
        i = i + 1;
    }
    let components = &design.base_addresses.platform.components;
    let mut platforms: Vec<StatusPlatform> = Vec::new();
    let mut i: usize = 0;
    while i < components.len()
        invariant
            i <= components@.len(),
            platforms@.len() == i,
            addresses_known(components@),
            forall|k: int|
                0 <= k < i ==> (#[trigger] platforms@[k]).name@ == components@[k].name@ && Ok::<
                    u64,
                    HexError,
                >(platforms@[k].offset) == hex_value(components@[k].address@),
        decreases components@.len() - i,
    {
        let x = &components[i];
        let offset = match from_hex_bytes(x.address.as_str().as_bytes()) {
            Ok(offset) => offset,
            Err(_) => unreached(),
        };
        platforms.push(StatusPlatform { name: x.name.clone(), offset });
        i = i + 1;
    }
    let mut versions: Vec<StatusVersion> = Vec::new();
    let mut i: usize = 0;
    while i < design.versions.len()
        invariant
            i <= design.versions@.len(),
            versions@.len() == i,
            forall|k: int|
                0 <= k < i ==> (#[trigger] versions@[k]).software@ == design.versions@[k].software@
                    && versions@[k].year == low32(design.versions@[k].year) && versions@[k].release
                    == low32(design.versions@[k].release),
        decreases design.versions@.len() - i,
    {
        let x = &design.versions[i];
        versions.push(
            StatusVersion {
                software: x.software.clone(),
                year: (x.year & 0xffff_ffff) as u32,
                release: (x.release & 0xffff_ffff) as u32,
            },
        );
        i = i + 1;
    }
    Ok(
        Status {
            arch_base,
            platform_base,
            timestamp: design.timestamp,
            pe: pes,
            platform: platforms,
            clocks,
            versions,
        },
    )
}

} // verus!
