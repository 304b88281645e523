use tockloader_lib::attributes::decode_attribute;
use tockloader_lib::attributes::SystemAttributes;
use tockloader_lib::errors::TbfError;
use tockloader_lib::errors::TockloaderError;
use tockloader_lib::mock_probe::MockProbe;
use tockloader_lib::tbf::parse_tbf_footer;
use tockloader_lib::tbf::parse_tbf_footers;
use tockloader_lib::tbf::parse_tbf_header;
use tockloader_lib::tbf::parse_tbf_header_lengths;
use tockloader_lib::tbf::verify_checksum;
use tockloader_lib::tbf::TBFHeaderV2Base;
use tockloader_lib::walker::next_free_address;
use tockloader_lib::walker::read_apps_data;

/// XOR all 32-bit little-endian words of `bytes` with the checksum field
/// (bytes 12..16) zeroed, and store the result back at bytes 12..16.
fn with_checksum(mut bytes: Vec<u8>) -> Vec<u8> {
    let mut zeroed = bytes.clone();
    for i in 12..16 {
        zeroed[i] = 0;
    }
    while zeroed.len() % 4 != 0 {
        zeroed.push(0);
    }
    let mut checksum: u32 = 0;
    for w in zeroed.chunks(4) {
        checksum ^= u32::from_le_bytes([w[0], w[1], w[2], w[3]]);
    }
    bytes[12..16].copy_from_slice(&checksum.to_le_bytes());
    bytes
}

/// A minimal version-2 header: 16-byte base followed by a kernel-version
/// record, with a correct checksum.
fn sample_header(total_size: u32) -> Vec<u8> {
    let header_size: u16 = 24;
    let mut h = Vec::new();
    h.extend_from_slice(&2u16.to_le_bytes());
    h.extend_from_slice(&header_size.to_le_bytes());
    h.extend_from_slice(&total_size.to_le_bytes());
    h.extend_from_slice(&1u32.to_le_bytes()); // flags: enabled, not sticky
    h.extend_from_slice(&0u32.to_le_bytes()); // checksum, filled below
    h.extend_from_slice(&8u16.to_le_bytes()); // kernel version record
    h.extend_from_slice(&4u16.to_le_bytes());
    h.extend_from_slice(&2u16.to_le_bytes());
    h.extend_from_slice(&0u16.to_le_bytes());
    with_checksum(h)
}

#[test]
fn checksum_accepts_valid_header() {
    let h = sample_header(1024);
    assert!(verify_checksum(&h));
}

#[test]
fn checksum_rejects_bit_flip() {
    let mut h = sample_header(1024);
    h[0] ^= 0x01;
    assert!(!verify_checksum(&h));
    let mut h2 = sample_header(1024);
    h2[17] ^= 0x80;
    assert!(!verify_checksum(&h2));
}

#[test]
fn header_lengths_split() {
    let h = sample_header(1024);
    let first8 = h[0..8].to_vec();
    assert_eq!(parse_tbf_header_lengths(&first8), Ok((2, 24, 1024)));
    assert_eq!(parse_tbf_header_lengths(&vec![0u8; 4]), Err(TbfError::TruncatedHeader));
    // A version other than 2 with a nonzero header size is unsupported.
    let mut alien = first8.clone();
    alien[0] = 3;
    assert_eq!(parse_tbf_header_lengths(&alien), Err(TbfError::UnsupportedVersion(3)));
    // A zero header size passes through: it ends the directory walk.
    let terminator = vec![0u8; 8];
    assert_eq!(parse_tbf_header_lengths(&terminator), Ok((0, 0, 0)));
}

#[test]
fn header_parses_records() {
    let h = sample_header(1024);
    let parsed = parse_tbf_header(&h, 2).unwrap();
    assert_eq!(parsed.version, 2);
    assert_eq!(parsed.header_size, 24);
    assert_eq!(parsed.total_size, 1024);
    assert!(parsed.enabled);
    assert!(!parsed.sticky);
    assert!(parsed.main.is_none());
    assert!(parsed.program.is_none());
    let kv = parsed.kernel_version.unwrap();
    assert_eq!((kv.major, kv.minor), (2, 0));
    assert_eq!(parsed.get_kernel_version(), Some((2, 0)));
    assert_eq!(parsed.get_binary_end(), 1024);
    assert_eq!(parsed.tlvs.len(), 1);
}

#[test]
fn header_with_package_name() {
    let name = b"blink";
    let header_size: u16 = 16 + 4 + 5;
    let mut h = Vec::new();
    h.extend_from_slice(&2u16.to_le_bytes());
    h.extend_from_slice(&header_size.to_le_bytes());
    h.extend_from_slice(&2048u32.to_le_bytes());
    h.extend_from_slice(&3u32.to_le_bytes()); // enabled and sticky
    h.extend_from_slice(&0u32.to_le_bytes());
    h.extend_from_slice(&3u16.to_le_bytes()); // package name record
    h.extend_from_slice(&5u16.to_le_bytes());
    h.extend_from_slice(name);
    let h = with_checksum(h);
    let parsed = parse_tbf_header(&h, 2).unwrap();
    assert_eq!(parsed.package_name.as_deref(), Some("blink"));
    assert!(parsed.enabled);
    assert!(parsed.sticky);
}

#[test]
fn header_checksum_mismatch_reports_both_values() {
    let mut h = sample_header(1024);
    let stored = u32::from_le_bytes([h[12], h[13], h[14], h[15]]);
    h[12..16].copy_from_slice(&stored.wrapping_add(1).to_le_bytes());
    match parse_tbf_header(&h, 2) {
        Err(TbfError::ChecksumMismatch(provided, calculated)) => {
            assert_eq!(provided, stored.wrapping_add(1));
            assert_eq!(calculated, stored);
        }
        other => panic!("expected a checksum mismatch, got {:?}", other),
    }
}

#[test]
fn header_base_fields() {
    let h = sample_header(1024);
    let base = TBFHeaderV2Base::new(h);
    assert_eq!(base.tbf_version, 2);
    assert_eq!(base.header_size, 24);
    assert_eq!(base.total_size, 1024);
    assert_eq!(base.flag, 1);
    assert!(base.is_app);
}

#[test]
fn footer_decoding() {
    let mut region = Vec::new();
    region.extend_from_slice(&128u16.to_le_bytes());
    region.extend_from_slice(&3u16.to_le_bytes());
    region.extend_from_slice(&[0xAA, 0xBB, 0xCC]);
    region.extend_from_slice(&128u16.to_le_bytes());
    region.extend_from_slice(&0u16.to_le_bytes());
    let (credentials, consumed) = parse_tbf_footer(&region).unwrap();
    assert_eq!(credentials.get_type(), 128);
    assert_eq!(credentials.data, vec![0xAA, 0xBB, 0xCC]);
    assert_eq!(consumed, 3);
    let footers = parse_tbf_footers(&region).unwrap();
    assert_eq!(footers.len(), 2);
    assert_eq!(footers[0].size, 3);
    assert_eq!(footers[1].size, 0);
    match parse_tbf_footers(&vec![0x80, 0x00, 0x09]) {
        Err(TbfError::TruncatedFooter) => {}
        other => panic!("expected a truncated footer, got {:?}", other.map(|f| f.len())),
    }
}

#[test]
fn attribute_slot_decoding() {
    let mut slot = vec![0u8; 64];
    slot[0..5].copy_from_slice(b"board");
    slot[8] = 11;
    slot[9..20].copy_from_slice(b"microbit_v2");
    let decoded = decode_attribute(&slot).unwrap();
    assert_eq!(decoded.key, "board");
    assert_eq!(decoded.value, "microbit_v2");

    let empty = vec![0u8; 64];
    assert!(decode_attribute(&empty).is_none());
    let mut too_long = vec![0u8; 64];
    too_long[8] = 56;
    assert!(decode_attribute(&too_long).is_none());
    // A value that is not UTF-8 marks the slot undecodable.
    let mut bad_value = vec![0u8; 64];
    bad_value[0..5].copy_from_slice(b"board");
    bad_value[8] = 2;
    bad_value[9] = 0xC3;
    bad_value[10] = 0x28;
    assert!(decode_attribute(&bad_value).is_none());
    // A two-byte scalar in the value decodes to one character.
    let mut accented = vec![0u8; 64];
    accented[0..3].copy_from_slice(b"key");
    accented[8] = 2;
    accented[9] = 0xC3;
    accented[10] = 0xA9;
    let decoded = decode_attribute(&accented).unwrap();
    assert_eq!(decoded.value, "\u{e9}");
}

fn sample_table() -> Vec<u8> {
    let mut table = vec![0u8; 1024];
    let entries: [(usize, &[u8], &[u8]); 4] = [
        (0, b"board", b"microbit_v2"),
        (1, b"arch", b"cortex-m4"),
        (2, b"appaddr", b"0x40000"),
        (3, b"boothash", b"aabbccdd"),
    ];
    for (slot, key, value) in entries {
        let base = slot * 64;
        table[base..base + key.len()].copy_from_slice(key);
        table[base + 8] = value.len() as u8;
        table[base + 9..base + 9 + value.len()].copy_from_slice(value);
    }
    table
}

#[test]
fn system_attributes_from_table() {
    let mut attrs = SystemAttributes::new();
    attrs.decode_table(&sample_table()).unwrap();
    assert_eq!(attrs.board.as_deref(), Some("microbit_v2"));
    assert_eq!(attrs.arch.as_deref(), Some("cortex-m4"));
    assert_eq!(attrs.appaddr, Some(0x40000));
    assert_eq!(attrs.boothash.as_deref(), Some("aabbccdd"));
    assert_eq!(attrs.kernel_info_address(), Some(0x40000 - 100));
}

#[test]
fn system_attributes_bad_appaddr() {
    let mut table = sample_table();
    // Replace the address value with something that is not hexadecimal.
    table[2 * 64 + 9..2 * 64 + 16].copy_from_slice(b"0xzzzzz");
    let mut attrs = SystemAttributes::new();
    match attrs.decode_table(&table) {
        Err(TockloaderError::MisconfiguredBoard(_)) => {}
        other => panic!("expected a misconfigured board error, got {:?}", other),
    }
}

#[test]
fn kernel_block_decoding() {
    let mut block = vec![0u8; 100];
    block[96..100].copy_from_slice(b"TOCK");
    block[95] = 2;
    block[80..84].copy_from_slice(&0x2000_0000u32.to_le_bytes());
    block[84..88].copy_from_slice(&0x0002_0000u32.to_le_bytes());
    block[68..72].copy_from_slice(&0x0000_0000u32.to_le_bytes());
    block[72..76].copy_from_slice(&0x0004_0000u32.to_le_bytes());
    let mut attrs = SystemAttributes::new();
    attrs.set_kernel_attributes(&block);
    assert_eq!(attrs.sentinel.as_deref(), Some("TOCK"));
    assert_eq!(attrs.kernel_version, Some(2));
    assert_eq!(attrs.app_mem_start, Some(0x2000_0000));
    assert_eq!(attrs.app_mem_len, Some(0x0002_0000));
    assert_eq!(attrs.kernel_bin_start, Some(0));
    assert_eq!(attrs.kernel_bin_len, Some(0x0004_0000));
    let mut garbled = vec![0u8; 100];
    garbled[96..100].copy_from_slice(&[0xFF, 0xFF, 0xFF, 0xFF]);
    let mut no_sentinel = SystemAttributes::new();
    no_sentinel.set_kernel_attributes(&garbled);
    assert!(no_sentinel.sentinel.is_none());
    let mut bl = SystemAttributes::new();
    bl.set_bootloader_version(&vec![0x76, 0x31, 0x2E, 0x31, 0, 0, 0, 0]).unwrap();
    assert_eq!(bl.bootloader_version.as_deref(), Some("v1.1"));
    let mut bad = SystemAttributes::new();
    match bad.set_bootloader_version(&vec![0xFF; 8]) {
        Err(TockloaderError::MisconfiguredBoard(_)) => {}
        other => panic!("expected corrupted-data error, got {:?}", other),
    }
    assert!(bad.bootloader_version.is_none());
}

/// A flash image holding `headers.len()` applications back to back,
/// followed by a zero header as the chain terminator.
fn synthetic_image(start: u64, apps: &[(u32, u8)]) -> MockProbe {
    let mut memory = Vec::new();
    for &(total_size, fill) in apps {
        let mut app = sample_header(total_size);
        app.resize(total_size as usize, fill);
        memory.extend_from_slice(&app);
    }
    memory.extend_from_slice(&[0u8; 16]);
    MockProbe::new(start, memory)
}

#[test]
fn walk_returns_every_app_and_stops() {
    let probe = synthetic_image(0x40000, &[(1024, 0xAA), (512, 0xBB), (2048, 0xCC)]);
    let apps = read_apps_data(&probe, 0x40000).unwrap();
    assert_eq!(apps.len(), 3);
    assert_eq!(apps[0].tbf_header.total_size, 1024);
    assert_eq!(apps[1].tbf_header.total_size, 512);
    assert_eq!(apps[2].tbf_header.total_size, 2048);
    assert!(apps.iter().all(|a| a.tbf_footers.is_empty()));
    assert_eq!(
        next_free_address(&probe, 0x40000).unwrap(),
        0x40000 + 1024 + 512 + 2048
    );
}

#[test]
fn walk_of_empty_directory() {
    let probe = synthetic_image(0x40000, &[]);
    let apps = read_apps_data(&probe, 0x40000).unwrap();
    assert!(apps.is_empty());
    assert_eq!(next_free_address(&probe, 0x40000).unwrap(), 0x40000);
}

#[test]
fn walk_aborts_on_zero_total_size() {
    let mut memory = sample_header(1024);
    memory[4..8].copy_from_slice(&0u32.to_le_bytes());
    memory.resize(1024, 0);
    // Recompute the checksum over the altered base.
    let fixed = {
        let mut h = memory[0..24].to_vec();
        h = with_checksum(h);
        let mut m = memory.clone();
        m[0..24].copy_from_slice(&h);
        m
    };
    let probe = MockProbe::new(0x40000, fixed);
    match read_apps_data(&probe, 0x40000) {
        Err(TockloaderError::ParsingError(TbfError::ZeroTotalSize)) => {}
        other => panic!("expected the walk to abort, got {:?}", other.map(|a| a.len())),
    }
    match next_free_address(&probe, 0x40000) {
        Err(TockloaderError::ParsingError(TbfError::ZeroTotalSize)) => {}
        other => panic!("expected the walk to abort, got {:?}", other),
    }
}

#[test]
fn mock_probe_reads_and_writes() {
    let mut probe = MockProbe::new(0x1000, vec![0u8; 32]);
    probe.write(0x1008, &vec![1, 2, 3]).unwrap();
    assert_eq!(probe.read(0x1008, 3).unwrap(), vec![1, 2, 3]);
    assert_eq!(probe.read(0x1000, 2).unwrap(), vec![0, 0]);
    assert!(probe.read(0x0FFF, 1).is_err());
    assert!(probe.read(0x1000, 33).is_err());
    assert!(probe.write(0x101F, &vec![1, 2]).is_err());
}
