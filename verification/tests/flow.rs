use tockloader_lib::board::clean_port_path;
use tockloader_lib::board::BoardSettings;
use tockloader_lib::console::output_box;
use tockloader_lib::console::InputBox;
use tockloader_lib::console::Section;
use tockloader_lib::errors::InstallError;
use tockloader_lib::errors::TockloaderError;
use tockloader_lib::install::InstallFlow;
use tockloader_lib::install::SessionFlow;
use tockloader_lib::install::Reply;
use tockloader_lib::install::Request;
use tockloader_lib::planner::align_address;
use tockloader_lib::planner::get_valid_pages;
use tockloader_lib::planner::pad_binary;
use tockloader_lib::planner::plan;
use tockloader_lib::tab::parse_kernel_version;
use tockloader_lib::tab::Metadata;
use tockloader_lib::tab::Tab;
use tockloader_lib::tab::TabFile;
use tockloader_lib::tab::TbfFile;
use tockloader_lib::tab::TockKernelVersion;

#[test]
fn alignment_rounds_up_to_own_size() {
    assert_eq!(align_address(0x40000, 1024), 0x40000);
    assert_eq!(align_address(0x40001, 1024), 0x40400);
    assert_eq!(align_address(0x403FF, 1024), 0x40400);
    assert_eq!(align_address(1, 3), 3);
    for (candidate, size) in [(0u64, 1u64), (7, 8), (513, 512), (0x3FFFF, 2048)] {
        let aligned = align_address(candidate, size);
        assert_eq!(aligned % size, 0);
        assert!(aligned >= candidate);
        assert!(aligned < candidate + size);
    }
}

#[test]
fn padding_fills_with_erase_value() {
    let padded = pad_binary(vec![1, 2, 3], 4);
    assert_eq!(padded, vec![1, 2, 3, 0xFF]);
    let exact = pad_binary(vec![1, 2, 3, 4], 4);
    assert_eq!(exact, vec![1, 2, 3, 4]);
}

#[test]
fn page_selection_all_zero_writes_everything() {
    let image = vec![0u8; 4 * 16];
    assert_eq!(get_valid_pages(&image, 16), (0u8..4).collect::<Vec<u8>>());
}

#[test]
fn page_selection_takes_dirty_page_and_successor() {
    // Four 16-byte pages; one nonzero byte sits in page 2 (counting from 0).
    let mut image = vec![0u8; 4 * 16];
    image[2 * 16 + 5] = 0x7F;
    assert_eq!(get_valid_pages(&image, 16), vec![2, 3]);
    // The same byte in the last page selects only that page.
    let mut tail = vec![0u8; 4 * 16];
    tail[3 * 16] = 1;
    assert_eq!(get_valid_pages(&tail, 16), vec![3]);
}

#[test]
fn page_selection_is_ascending() {
    let mut image = vec![0u8; 6 * 16];
    image[0] = 1;
    image[2 * 16] = 1;
    image[4 * 16 + 3] = 9;
    assert_eq!(get_valid_pages(&image, 16), vec![0, 1, 2, 3, 4, 5]);
}

#[test]
fn plan_combines_alignment_padding_and_selection() {
    let mut binary = vec![0u8; 600];
    binary[0] = 0xAB;
    let p = plan(0x40001, binary, 512);
    assert_eq!(p.target_address, 262200); // the next multiple of 600
    assert_eq!(p.target_address % 600, 0);
    assert_eq!(p.padded_binary.len(), 1024);
    assert_eq!(p.page_size, 512);
    assert_eq!(p.pages_to_write, vec![0, 1]);
}

fn sample_tab() -> Tab {
    Tab::new(
        Metadata {
            tab_version: 2,
            name: String::from("blink"),
            minimum_tock_kernel_version: TockKernelVersion { major: 2, minor: 0 },
            build_date: String::from("2024-01-01"),
            only_for_boards: Some(vec![String::from("microbit_v2")]),
        },
        vec![
            TbfFile { filename: String::from("cortex-m0.tbf"), data: vec![0x11; 16] },
            TbfFile { filename: String::from("cortex-m4.tbf"), data: vec![0xFF; 1024] },
        ],
    )
}

#[test]
fn tab_compatibility_and_extraction() {
    let tab = sample_tab();
    assert!(tab.is_compatible_with_board(&String::from("microbit_v2")));
    assert!(!tab.is_compatible_with_board(&String::from("nrf52dk")));
    assert!(tab.is_compatible_with_kernel_verison(1));
    assert_eq!(tab.extract_binary("cortex-m4").unwrap(), vec![0xFF; 1024]);
    assert_eq!(tab.extract_binary("cortex-m0").unwrap(), vec![0x11; 16]);
    match tab.extract_binary("riscv32") {
        Err(TockloaderError::NoBinaryError(arch)) => assert_eq!(arch, "riscv32"),
        other => panic!("expected no binary, got {:?}", other.map(|b| b.len())),
    }
    let open_tab = Tab::new(
        Metadata { only_for_boards: None, ..sample_tab().metadata },
        Vec::new(),
    );
    assert!(open_tab.is_compatible_with_board(&String::from("anything")));
    assert_eq!(TabFile::new(String::from("a/b.tab")).path, "a/b.tab");
}

#[test]
fn kernel_version_strings() {
    assert_eq!(
        parse_kernel_version("2.0"),
        Some(TockKernelVersion { major: 2, minor: 0 })
    );
    assert_eq!(
        parse_kernel_version("12.34"),
        Some(TockKernelVersion { major: 12, minor: 34 })
    );
    assert_eq!(parse_kernel_version("2"), None);
    assert_eq!(parse_kernel_version("2."), None);
    assert_eq!(parse_kernel_version(".2"), None);
    assert_eq!(parse_kernel_version("2.0.1"), None);
    assert_eq!(parse_kernel_version("a.b"), None);
}

#[test]
fn board_settings_addresses() {
    let known = BoardSettings::new(String::from("microbit_v2"), String::from("nRF52833_xxAA"));
    assert_eq!(known.start_address, 0x0004_0000);
    let other = BoardSettings::new(String::from("custom"), String::from("chip"));
    assert_eq!(other.start_address, 0x0003_0000);
}

#[test]
fn port_paths_are_normalised() {
    assert_eq!(
        clean_port_path(String::from("/sys/class/tty/ttyACM0")),
        "/dev/ttyACM0"
    );
    assert_eq!(clean_port_path(String::from("/dev/ttyACM0")), "/dev/ttyACM0");
    assert_eq!(clean_port_path(String::from("COM3")), "COM3");
}

#[test]
fn input_box_editing() {
    let mut input = InputBox::new();
    assert!(input.is_empty());
    input.enter_char('h');
    input.enter_char('i');
    assert_eq!(input.text(), "hi");
    input.move_cursor_left();
    input.enter_char('u');
    assert_eq!(input.text(), "hui");
    input.delete_char();
    assert_eq!(input.text(), "hi");
    input.move_cursor_right();
    input.delete_char();
    assert_eq!(input.text(), "h");
    input.clear();
    assert!(input.is_empty());
    assert_eq!(input.text(), "");
}

#[test]
fn output_box_holds_lines() {
    let mut log: output_box<String> = output_box::new();
    assert!(log.is_empty());
    log.push(String::from("hello"));
    log.push(String::from("board"));
    assert_eq!(log.content().len(), 2);
    assert_eq!(log.content()[1], "board");
    log.clear();
    assert!(log.is_empty());
}

#[test]
fn errors_have_messages() {
    assert!(!TockloaderError::NoMetadata.message().is_empty());
    assert!(!TockloaderError::UnusableTab.message().is_empty());
    assert!(!TockloaderError::InvalidMetadata.message().is_empty());
}

#[test]
fn section_indices() {
    assert_eq!(Section::AppsList.to_usize(), 0);
    assert_eq!(Section::Terminal.to_usize(), 1);
    assert_eq!(Section::from_usize(0), Some(Section::AppsList));
    assert_eq!(Section::from_usize(1), Some(Section::Terminal));
    assert_eq!(Section::from_usize(2), None);
}

fn attribute_table() -> Vec<u8> {
    let mut table = vec![0u8; 1024];
    let entries: [(usize, &[u8], &[u8]); 3] = [
        (0, b"board", b"microbit_v2"),
        (1, b"arch", b"cortex-m4"),
        (2, b"appaddr", b"0x40000"),
    ];
    for (slot, key, value) in entries {
        let base = slot * 64;
        table[base..base + key.len()].copy_from_slice(key);
        table[base + 8] = value.len() as u8;
        table[base + 9..base + 9 + value.len()].copy_from_slice(value);
    }
    table
}

/// The whole install, driven against a mock transport that answers Ping
/// with Pong on the second attempt and serves a board with an empty
/// application directory at 0x40000.  The 1024-byte all-0xFF image lands
/// at the start address itself, and both of its pages hold bytes other
/// than zero, so both are written, in order, before the terminating
/// erase one page past the image.
#[test]
fn install_against_mock_transport() {
    let (mut flow, first) = InstallFlow::new(sample_tab());
    assert!(matches!(first, Request::Ping { sync: true }));

    // First ping attempt: not Pong yet.
    let r = flow.step(Reply::Code(0x16)).unwrap();
    assert!(matches!(r, Some(Request::Ping { sync: false })));

    // Second attempt: Pong; the flow asks for the attribute table.
    let r = flow.step(Reply::Code(0x11)).unwrap();
    match r {
        Some(Request::ReadRange { address, length }) => {
            assert_eq!((address, length), (0x600, 1024));
        }
        other => panic!("expected a table read, got {:?}", describe(&other)),
    }

    let r = flow.step(Reply::Data(attribute_table())).unwrap();
    match r {
        Some(Request::ReadRange { address, length }) => {
            assert_eq!((address, length), (0x40E, 8));
        }
        other => panic!("expected a version read, got {:?}", describe(&other)),
    }
    assert_eq!(flow.attrs.board.as_deref(), Some("microbit_v2"));
    assert_eq!(flow.attrs.arch.as_deref(), Some("cortex-m4"));
    assert_eq!(flow.attrs.appaddr, Some(0x40000));

    let r = flow.step(Reply::Data(vec![0x76, 0x31, 0, 0, 0, 0, 0, 0])).unwrap();
    match r {
        Some(Request::ReadRange { address, length }) => {
            assert_eq!((address, length), (0x40000 - 100, 100));
        }
        other => panic!("expected the kernel block read, got {:?}", describe(&other)),
    }

    let r = flow.step(Reply::Data(vec![0u8; 100])).unwrap();
    match r {
        Some(Request::ReadRange { address, length }) => {
            assert_eq!((address, length), (0x40000, 200));
        }
        other => panic!("expected the first walk read, got {:?}", describe(&other)),
    }

    // A zero header: the directory is empty, planning begins.
    let r = flow.step(Reply::Data(vec![0u8; 200])).unwrap();
    match r {
        Some(Request::WritePage { address, data }) => {
            assert_eq!(address, 0x40000);
            assert_eq!(data, vec![0xFF; 512]);
        }
        other => panic!("expected the first page write, got {:?}", describe(&other)),
    }

    let r = flow.step(Reply::Code(0x15)).unwrap();
    match r {
        Some(Request::WritePage { address, data }) => {
            assert_eq!(address, 0x40200);
            assert_eq!(data, vec![0xFF; 512]);
        }
        other => panic!("expected the second page write, got {:?}", describe(&other)),
    }

    let r = flow.step(Reply::Code(0x15)).unwrap();
    match r {
        Some(Request::ErasePage { address }) => assert_eq!(address, 0x40400),
        other => panic!("expected the terminating erase, got {:?}", describe(&other)),
    }

    assert!(flow.step(Reply::Code(0x15)).unwrap().is_none());
}

#[test]
fn install_rejects_incompatible_board() {
    let tab = Tab::new(
        Metadata {
            only_for_boards: Some(vec![String::from("nrf52dk")]),
            ..sample_tab().metadata
        },
        sample_tab().tbf_files,
    );
    let (mut flow, _) = InstallFlow::new(tab);
    flow.step(Reply::Code(0x11)).unwrap();
    flow.step(Reply::Data(attribute_table())).unwrap();
    flow.step(Reply::Data(vec![0u8; 8])).unwrap();
    match flow.step(Reply::Data(vec![0u8; 100])) {
        Err(TockloaderError::Install(InstallError::IncompatibleBoard)) => {}
        other => panic!("expected the board check to fail, got {:?}", describe_r(&other)),
    }
}

#[test]
fn install_rejects_corrupt_version_string() {
    let (mut flow, _) = InstallFlow::new(sample_tab());
    flow.step(Reply::Code(0x11)).unwrap();
    flow.step(Reply::Data(attribute_table())).unwrap();
    match flow.step(Reply::Data(vec![0xFF; 8])) {
        Err(TockloaderError::MisconfiguredBoard(_)) => {}
        other => panic!("expected corrupted-data error, got {:?}", describe_r(&other)),
    }
}

#[test]
fn install_aborts_on_failed_page_write() {
    let (mut flow, _) = InstallFlow::new(sample_tab());
    flow.step(Reply::Code(0x11)).unwrap();
    flow.step(Reply::Data(attribute_table())).unwrap();
    flow.step(Reply::Data(vec![0u8; 8])).unwrap();
    flow.step(Reply::Data(vec![0u8; 100])).unwrap();
    flow.step(Reply::Data(vec![0u8; 200])).unwrap();
    match flow.step(Reply::Code(0x12)) {
        Err(TockloaderError::Install(InstallError::PageWriteFailed(0, 0x12))) => {}
        other => panic!("expected the write to abort, got {:?}", describe_r(&other)),
    }
}

#[test]
fn install_gives_up_after_both_ping_rounds() {
    let (mut flow, _) = InstallFlow::new(sample_tab());
    let mut slept = false;
    for _ in 0..100 {
        match flow.step(Reply::Code(0x16)) {
            Ok(Some(Request::Ping { .. })) => {}
            Ok(Some(Request::SleepThenPing)) => {
                assert!(!slept, "only one resynchronisation round is allowed");
                slept = true;
            }
            Err(TockloaderError::BootloaderError(0x16)) => {
                assert!(slept, "the flow must sleep and retry once before giving up");
                return;
            }
            other => panic!("unexpected step result: {:?}", describe_r(&other)),
        }
    }
    panic!("the ping retries must be bounded");
}

fn describe(r: &Option<Request>) -> String {
    match r {
        None => String::from("done"),
        Some(Request::Ping { .. }) => String::from("ping"),
        Some(Request::SleepThenPing) => String::from("sleep-then-ping"),
        Some(Request::ReadRange { .. }) => String::from("read"),
        Some(Request::WritePage { .. }) => String::from("write"),
        Some(Request::ErasePage { .. }) => String::from("erase"),
    }
}

fn describe_r(r: &Result<Option<Request>, TockloaderError>) -> String {
    match r {
        Ok(inner) => describe(inner),
        Err(e) => e.message(),
    }
}

/// XOR all 32-bit little-endian words with the checksum field zeroed, and
/// store the result at bytes 12..16.
fn with_checksum(mut bytes: Vec<u8>) -> Vec<u8> {
    let mut zeroed = bytes.clone();
    for i in 12..16 {
        zeroed[i] = 0;
    }
    while zeroed.len() % 4 != 0 {
        zeroed.push(0);
    }
    let mut checksum: u32 = 0;
    for w in zeroed.chunks(4) {
        checksum ^= u32::from_le_bytes([w[0], w[1], w[2], w[3]]);
    }
    bytes[12..16].copy_from_slice(&checksum.to_le_bytes());
    bytes
}

/// A read-only session against a mock transport: one application whose
/// header carries a Program record and one credentials footer, then the
/// chain terminator.  The decoded directory holds exactly that entry.
#[test]
fn session_lists_one_app_with_footer() {
    let total_size: u32 = 1024;
    let binary_end: u32 = 1017; // footer record: 4 prelude bytes + 3 value bytes
    let header_size: u16 = 16 + 4 + 20;
    let mut header = Vec::new();
    header.extend_from_slice(&2u16.to_le_bytes());
    header.extend_from_slice(&header_size.to_le_bytes());
    header.extend_from_slice(&total_size.to_le_bytes());
    header.extend_from_slice(&1u32.to_le_bytes());
    header.extend_from_slice(&0u32.to_le_bytes());
    header.extend_from_slice(&9u16.to_le_bytes()); // program record
    header.extend_from_slice(&20u16.to_le_bytes());
    header.extend_from_slice(&41u32.to_le_bytes()); // init_fn_offset
    header.extend_from_slice(&0u32.to_le_bytes()); // protected_trailer_size
    header.extend_from_slice(&2048u32.to_le_bytes()); // minimum_ram_size
    header.extend_from_slice(&binary_end.to_le_bytes());
    header.extend_from_slice(&7u32.to_le_bytes()); // app version
    let header = with_checksum(header);

    let (mut flow, first) = SessionFlow::new();
    assert!(matches!(first, Request::Ping { sync: true }));
    let r = flow.step(Reply::Code(0x11)).unwrap();
    assert!(matches!(r, Some(Request::ReadRange { address: 0x600, length: 1024 })));
    let r = flow.step(Reply::Data(attribute_table())).unwrap();
    assert!(matches!(r, Some(Request::ReadRange { address: 0x40E, length: 8 })));
    let r = flow.step(Reply::Data(vec![0x76, 0x32, 0, 0, 0, 0, 0, 0])).unwrap();
    match r {
        Some(Request::ReadRange { address, length }) => {
            assert_eq!((address, length), (0x40000 - 100, 100));
        }
        other => panic!("expected the kernel block read, got {:?}", describe(&other)),
    }
    let r = flow.step(Reply::Data(vec![0u8; 100])).unwrap();
    assert!(matches!(r, Some(Request::ReadRange { address: 0x40000, length: 200 })));

    // The probe window shows the header lengths; the whole header is read.
    let mut window = header.clone();
    window.resize(200, 0);
    let r = flow.step(Reply::Data(window)).unwrap();
    match r {
        Some(Request::ReadRange { address, length }) => {
            assert_eq!((address, length), (0x40000, header_size));
        }
        other => panic!("expected the header read, got {:?}", describe(&other)),
    }

    // The header names a footer region of 7 bytes after the binary.
    let r = flow.step(Reply::Data(header)).unwrap();
    match r {
        Some(Request::ReadRange { address, length }) => {
            assert_eq!((address, length), (0x40000 + binary_end, 7));
        }
        other => panic!("expected the footer read, got {:?}", describe(&other)),
    }

    let mut region = Vec::new();
    region.extend_from_slice(&128u16.to_le_bytes());
    region.extend_from_slice(&3u16.to_le_bytes());
    region.extend_from_slice(&[0xAA, 0xBB, 0xCC]);
    let r = flow.step(Reply::Data(region)).unwrap();
    assert!(matches!(r, Some(Request::ReadRange { address: 0x40400, length: 200 })));

    // The terminating zero header ends the session.
    assert!(flow.step(Reply::Data(vec![0u8; 200])).unwrap().is_none());

    assert_eq!(flow.attrs.board.as_deref(), Some("microbit_v2"));
    assert_eq!(flow.attrs.appaddr, Some(0x40000));
    assert_eq!(flow.apps.len(), 1);
    let app = &flow.apps[0];
    assert_eq!(app.tbf_header.total_size, 1024);
    assert_eq!(app.tbf_header.get_binary_end(), binary_end);
    assert_eq!(app.tbf_header.get_init_function_offset(), 41);
    assert_eq!(app.tbf_header.get_binary_version(), 7);
    assert_eq!(app.tbf_footers.len(), 1);
    assert_eq!(app.tbf_footers[0].credentials.get_type(), 128);
    assert_eq!(app.tbf_footers[0].credentials.data, vec![0xAA, 0xBB, 0xCC]);
}

/// A session over an empty directory yields the identity and no apps.
#[test]
fn session_over_empty_directory() {
    let (mut flow, _) = SessionFlow::new();
    flow.step(Reply::Code(0x11)).unwrap();
    flow.step(Reply::Data(attribute_table())).unwrap();
    flow.step(Reply::Data(vec![0u8; 8])).unwrap();
    flow.step(Reply::Data(vec![0u8; 100])).unwrap();
    assert!(flow.step(Reply::Data(vec![0u8; 200])).unwrap().is_none());
    assert!(flow.apps.is_empty());
    assert_eq!(flow.attrs.arch.as_deref(), Some("cortex-m4"));
}
