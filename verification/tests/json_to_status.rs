use tapasco::json_to_status::from_hex_bytes;
use tapasco::json_to_status::from_hex_str;
use tapasco::json_to_status::list_pes;
use tapasco::json_to_status::mem_file_content;
use tapasco::json_to_status::status_of;
use tapasco::json_to_status::BaseAddresses;
use tapasco::json_to_status::Clocks;
use tapasco::json_to_status::Component;
use tapasco::json_to_status::ComponentAddresses;
use tapasco::json_to_status::Composition;
use tapasco::json_to_status::Design;
use tapasco::json_to_status::HexError;
use tapasco::json_to_status::JSONToStatusError;
use tapasco::json_to_status::PEAddresses;
use tapasco::json_to_status::Status;
use tapasco::json_to_status::StatusClock;
use tapasco::json_to_status::StatusPe;
use tapasco::json_to_status::StatusPlatform;
use tapasco::json_to_status::StatusVersion;
use tapasco::json_to_status::Version;
use tapasco::vfio::count_differences;

fn slot(kind: &str, slot_id: u64, kernel: u64) -> Composition {
    Composition { kind: String::from(kind), slot_id, kernel }
}

fn offsets(list: &[&str]) -> Vec<String> {
    list.iter().map(|s| String::from(*s)).collect()
}

fn unnamed(id: u32, offset: u64, local_memory: u64) -> StatusPe {
    StatusPe { name: String::from("UNNAMED KERNEL"), id, offset, local_memory }
}

fn hex_error(err: HexError) -> JSONToStatusError {
    JSONToStatusError::HexToIntError { err }
}

fn design() -> Design {
    Design {
        composition: vec![slot("Kernel", 0, 14), slot("Memory", 1, 0), slot("Kernel", 2, 9)],
        timestamp: 1_600_000_000,
        versions: vec![Version { software: String::from("Vivado"), year: 2020, release: 1 }],
        clocks: vec![
            Clocks { domain: String::from("Host"), frequency: 250 },
            Clocks { domain: String::from("Design"), frequency: 0x1_0000_0064 },
        ],
        base_addresses: BaseAddresses {
            architecture: PEAddresses {
                base: String::from("0x0000000002000000"),
                offsets: offsets(&["0x0", "0x10000", "0x20000"]),
            },
            platform: ComponentAddresses {
                base: String::from("0x0"),
                components: vec![
                    Component {
                        name: String::from("PLATFORM_COMPONENT_STATUS"),
                        address: String::from("0x0"),
                    },
                    Component {
                        name: String::from("PLATFORM_COMPONENT_INTC0"),
                        address: String::from("0x20000"),
                    },
                ],
            },
        },
    }
}

#[test]
fn hexadecimal_numbers_are_read() {
    assert_eq!(from_hex_str("0x10"), Ok(16));
    assert_eq!(from_hex_str("10"), Ok(16));
    assert_eq!(from_hex_str("0"), Ok(0));
    assert_eq!(from_hex_str("0x0"), Ok(0));
    assert_eq!(from_hex_str("0xdeadBEEF"), Ok(0xDEAD_BEEF));
    assert_eq!(from_hex_str("0x0000000002000000"), Ok(0x200_0000));
    assert_eq!(from_hex_str("ffffffffffffffff"), Ok(u64::MAX));
    assert_eq!(from_hex_str("0x00000ffffffffffffffff"), Ok(u64::MAX));
    assert_eq!(from_hex_str("+1f"), Ok(31));
    assert_eq!(from_hex_str("0x+1f"), Ok(31));
    assert_eq!(from_hex_str("0x0x0x7"), Ok(7));
    assert_eq!(from_hex_bytes(b"0xAb"), Ok(0xAB));
}

#[test]
fn hexadecimal_numbers_are_refused() {
    assert_eq!(from_hex_str(""), Err(hex_error(HexError::Empty)));
    assert_eq!(from_hex_str("0x"), Err(hex_error(HexError::Empty)));
    assert_eq!(from_hex_str("0x0x"), Err(hex_error(HexError::Empty)));
    assert_eq!(from_hex_str("+"), Err(hex_error(HexError::InvalidDigit)));
    assert_eq!(from_hex_str("-"), Err(hex_error(HexError::InvalidDigit)));
    assert_eq!(from_hex_str("-1"), Err(hex_error(HexError::InvalidDigit)));
    assert_eq!(from_hex_str("++1"), Err(hex_error(HexError::InvalidDigit)));
    assert_eq!(from_hex_str("+0x1"), Err(hex_error(HexError::InvalidDigit)));
    assert_eq!(from_hex_str("0X10"), Err(hex_error(HexError::InvalidDigit)));
    assert_eq!(from_hex_str("12g"), Err(hex_error(HexError::InvalidDigit)));
    assert_eq!(from_hex_str(" 12"), Err(hex_error(HexError::InvalidDigit)));
    assert_eq!(from_hex_str("x10"), Err(hex_error(HexError::InvalidDigit)));
    assert_eq!(from_hex_str("1\u{e9}"), Err(hex_error(HexError::InvalidDigit)));
    assert_eq!(from_hex_str("10000000000000000"), Err(hex_error(HexError::PosOverflow)));
    assert_eq!(from_hex_str("fffffffffffffffff"), Err(hex_error(HexError::PosOverflow)));
    assert_eq!(from_hex_str("ffffffffffffffffg"), Err(hex_error(HexError::InvalidDigit)));
    assert_eq!(from_hex_str("fffffffffffffffffg"), Err(hex_error(HexError::PosOverflow)));
}

#[test]
fn hexadecimal_numbers_are_read_as_the_standard_library_reads_them() {
    for text in [
        "0", "7f", "+7f", "-7f", "", "+", "-", "zz", "FFFFFFFFFFFFFFFF", "10000000000000000",
        "00000000000000000001", "fffffffffffffffffg", "ffffffffffffffffg", "1_000", "0x12",
    ] {
        let expected = u64::from_str_radix(text.trim_start_matches("0x"), 16).ok();
        assert_eq!(from_hex_str(text).ok(), expected, "{}", text);
    }
}

#[test]
fn errors_keep_what_they_are_made_of() {
    assert_eq!(
        JSONToStatusError::from_filename(String::from("design.json")),
        JSONToStatusError::JSONFormatError { filename: String::from("design.json") }
    );
    assert_eq!(
        JSONToStatusError::from_hex(HexError::Empty),
        JSONToStatusError::HexToIntError { err: HexError::Empty }
    );
}

#[test]
fn memory_file_of_no_bytes() {
    assert_eq!(
        mem_file_content(&[]),
        "memory_initialization_radix=16;\n    memory_initialization_vector=\n    ;\n    "
    );
}

#[test]
fn memory_file_of_one_byte() {
    assert_eq!(
        mem_file_content(&[0x0a]),
        "memory_initialization_radix=16;\n    memory_initialization_vector=\n    0a;\n    "
    );
}

#[test]
fn memory_file_lists_the_bytes_in_lower_case() {
    assert_eq!(
        mem_file_content(&[0x00, 0xFF, 0x1b, 0xC4]),
        "memory_initialization_radix=16;\n    memory_initialization_vector=\n    00,\n                ff,\n                1b,\n                c4;\n    "
    );
}

#[test]
fn memory_file_holds_every_byte_value() {
    let all: Vec<u8> = (0..=255u8).collect();
    let text = mem_file_content(&all);
    let body = text
        .strip_prefix("memory_initialization_radix=16;\n    memory_initialization_vector=\n    ")
        .unwrap()
        .strip_suffix(";\n    ")
        .unwrap();
    let pairs: Vec<&str> = body.split(",\n                ").collect();
    assert_eq!(pairs.len(), 256);
    for (i, pair) in pairs.iter().enumerate() {
        assert_eq!(*pair, format!("{:02x}", i));
    }
}

#[test]
fn kernels_and_their_memories_are_listed() {
    let offs = offsets(&["0x0", "0x10000", "0x20000", "0x30000"]);
    let composition = vec![
        slot("Kernel", 0, 14),
        slot("Memory", 1, 0),
        slot("Kernel", 3, 0x1_0000_0009),
        slot("Memory", 2, 5),
        slot("Memory", 1, 5),
        slot("kernel", 0, 1),
    ];
    assert_eq!(
        list_pes(&composition, &offs),
        Ok(vec![unnamed(14, 0, 0x10000), unnamed(9, 0x30000, 0x10000), unnamed(1, 0, 0)])
    );
    assert_eq!(list_pes(&vec![], &offs), Ok(vec![]));
}

#[test]
fn memory_needs_a_kernel_before_it() {
    let offs = offsets(&["0x0", "0x10000"]);
    assert_eq!(
        list_pes(&vec![slot("Memory", 1, 0), slot("Kernel", 0, 1)], &offs),
        Err(JSONToStatusError::MemoryWithoutPE)
    );
}

#[test]
fn first_slot_that_fails_decides() {
    let offs = offsets(&["0x0", "nothing", ""]);
    assert_eq!(
        list_pes(&vec![slot("Memory", 1, 0)], &offs),
        Err(hex_error(HexError::InvalidDigit))
    );
    assert_eq!(
        list_pes(&vec![slot("Kernel", 0, 0), slot("Kernel", 2, 0), slot("Kernel", 1, 0)], &offs),
        Err(hex_error(HexError::Empty))
    );
    assert_eq!(
        list_pes(&vec![slot("Memory", 0, 0), slot("Kernel", 1, 0)], &offs),
        Err(JSONToStatusError::MemoryWithoutPE)
    );
}

#[test]
fn status_is_made_of_the_design() {
    assert_eq!(
        status_of(&design()),
        Ok(Status {
            arch_base: 0x200_0000,
            platform_base: 0,
            timestamp: 1_600_000_000,
            pe: vec![unnamed(14, 0, 0x10000), unnamed(9, 0x20000, 0)],
            platform: vec![
                StatusPlatform { name: String::from("PLATFORM_COMPONENT_STATUS"), offset: 0 },
                StatusPlatform { name: String::from("PLATFORM_COMPONENT_INTC0"), offset: 0x20000 },
            ],
            clocks: vec![
                StatusClock { name: String::from("Host"), frequency_mhz: 250 },
                StatusClock { name: String::from("Design"), frequency_mhz: 100 },
            ],
            versions: vec![StatusVersion {
                software: String::from("Vivado"),
                year: 2020,
                release: 1
            }],
        })
    );
}

#[test]
fn status_fails_with_the_first_number_that_is_none() {
    let mut d = design();
    d.base_addresses.platform.base = String::from("0xzz");
    d.composition.insert(0, slot("Memory", 0, 0));
    assert_eq!(status_of(&d), Err(hex_error(HexError::InvalidDigit)));
    d.base_addresses.architecture.base = String::from("");
    assert_eq!(status_of(&d), Err(hex_error(HexError::Empty)));
    d.base_addresses.architecture.base = String::from("1");
    d.base_addresses.platform.base = String::from("2");
    assert_eq!(status_of(&d), Err(JSONToStatusError::MemoryWithoutPE));
}

#[test]
fn status_asks_only_for_what_it_reaches() {
    let mut d = design();
    d.base_addresses.architecture.base = String::from("none");
    d.composition.push(slot("Kernel", 99, 0));
    d.base_addresses.platform.components[0].address = String::from("none");
    assert_eq!(status_of(&d), Err(hex_error(HexError::InvalidDigit)));
    d.base_addresses.architecture.base = String::from("0");
    d.composition.insert(0, slot("Memory", 0, 0));
    assert_eq!(status_of(&d), Err(JSONToStatusError::MemoryWithoutPE));
    assert_eq!(
        list_pes(&d.composition, &d.base_addresses.architecture.offsets),
        Err(JSONToStatusError::MemoryWithoutPE)
    );
}

#[test]
fn differences_are_counted() {
    assert_eq!(count_differences(&[], &[]), 0);
    assert_eq!(count_differences(&[1, 2, 3], &[1, 2, 3]), 0);
    assert_eq!(count_differences(&[1, 2, 3], &[3, 2, 1]), 2);
    assert_eq!(count_differences(&[0u8; 4096], &[1u8; 4096]), 4096);
}
