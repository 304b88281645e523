use tockloader_lib::errors::ProtocolError;
use tockloader_lib::framing::de_escape;
use tockloader_lib::framing::decode_header;
use tockloader_lib::framing::decode_payload;
use tockloader_lib::framing::encode_frame;
use tockloader_lib::framing::erase_page_payload;
use tockloader_lib::framing::escape;
use tockloader_lib::framing::read_range_payload;
use tockloader_lib::framing::trailing_escape_run;
use tockloader_lib::framing::write_page_payload;
use tockloader_lib::framing::ESCAPE_CHAR;
use tockloader_lib::framing::SYNC_MESSAGE;
use tockloader_lib::protocol::Command;
use tockloader_lib::protocol::Response;
use tockloader_lib::text::bytes_to_string;
use tockloader_lib::text::trim_end_nuls_vec;
use tockloader_lib::text::trim_nuls_vec;
use tockloader_lib::text::utf8_to_string;
use tockloader_lib::text::parse_dec_u32;
use tockloader_lib::text::parse_hex_u64;
use tockloader_lib::text::str_eq;
use tockloader_lib::text::strip_hex_prefix;

#[test]
fn escape_doubles_reserved_byte() {
    let data = vec![0x01, 0xFC, 0x02, 0xFC, 0xFC];
    assert_eq!(escape(&data), vec![0x01, 0xFC, 0xFC, 0x02, 0xFC, 0xFC, 0xFC, 0xFC]);
}

#[test]
fn escape_round_trip_concrete() {
    let cases: Vec<Vec<u8>> = vec![
        vec![],
        vec![0xFC],
        vec![0xFC, 0xFC, 0xFC],
        vec![0x00, 0xFC, 0x05, 0x42],
        (0u8..=255).collect(),
    ];
    for b in cases {
        assert_eq!(de_escape(&escape(&b)), b);
    }
}

#[test]
fn trailing_escape_run_counts_odd_tail() {
    assert_eq!(trailing_escape_run(&vec![0x01, 0xFC]), 1);
    assert_eq!(trailing_escape_run(&vec![0x01, 0xFC, 0xFC]), 2);
    assert_eq!(trailing_escape_run(&vec![0x01, 0x02]), 0);
    assert_eq!(trailing_escape_run(&vec![]), 0);
}

#[test]
fn encode_frame_layout() {
    let payload = vec![0xAA, 0xFC];
    let framed = encode_frame(Command::WritePage.code(), &payload, true);
    assert_eq!(framed, vec![0x00, 0xFC, 0x05, 0xAA, 0xFC, 0xFC, 0xFC, 0x07]);
    let unsynced = encode_frame(Command::Ping.code(), &Vec::new(), false);
    assert_eq!(unsynced, vec![0xFC, 0x01]);
    assert_eq!(SYNC_MESSAGE, [0x00, 0xFC, 0x05]);
    assert_eq!(ESCAPE_CHAR, 0xFC);
}

#[test]
fn command_and_response_codes() {
    assert_eq!(Command::Ping.code(), 0x01);
    assert_eq!(Command::Info.code(), 0x03);
    assert_eq!(Command::Reset.code(), 0x05);
    assert_eq!(Command::ErasePage.code(), 0x06);
    assert_eq!(Command::WritePage.code(), 0x07);
    assert_eq!(Command::ReadRange.code(), 0x11);
    assert_eq!(Command::GetAttribute.code(), 0x14);
    assert_eq!(Command::SetStartAddress.code(), 0x23);
    assert_eq!(Response::from_byte(0x11), Response::Pong);
    assert_eq!(Response::from_byte(0x15), Response::OK);
    assert_eq!(Response::from_byte(0x20), Response::ReadRange);
    assert_eq!(Response::from_byte(0x12), Response::BadAddr);
    assert_eq!(Response::from_byte(0x14), Response::BadArgs);
    assert_eq!(Response::from_byte(0xEE), Response::BadResp);
    let via_from: Response = Response::from(0x11);
    assert_eq!(via_from, Response::Pong);
}

#[test]
fn header_validation() {
    assert_eq!(decode_header(&vec![0xFC, 0x15], 0x15), Ok((0xFC, 0x15)));
    assert_eq!(
        decode_header(&vec![0xAB, 0x15], 0x15),
        Err(ProtocolError::MalformedFrame(0xAB))
    );
    assert_eq!(
        decode_header(&vec![0xFC, 0x12], 0x15),
        Err(ProtocolError::UnexpectedResponse(0x12))
    );
    assert_eq!(decode_header(&vec![0xFC], 0x15), Err(ProtocolError::WrongPayloadLength));
}

#[test]
fn payload_decoding() {
    assert_eq!(decode_payload(&vec![0x01, 0xFC, 0xFC, 0x02], 3), Ok(vec![0x01, 0xFC, 0x02]));
    assert_eq!(
        decode_payload(&vec![0x01, 0x02], 3),
        Err(ProtocolError::WrongPayloadLength)
    );
}

#[test]
fn command_payloads() {
    assert_eq!(read_range_payload(0x600, 1024), vec![0x00, 0x06, 0x00, 0x00, 0x00, 0x04]);
    assert_eq!(
        write_page_payload(0x0004_0000, &vec![0xAB, 0xCD]),
        vec![0x00, 0x00, 0x04, 0x00, 0xAB, 0xCD]
    );
    assert_eq!(erase_page_payload(0x0004_0400), vec![0x00, 0x04, 0x04, 0x00]);
}

#[test]
fn byte_strings_and_trimming() {
    assert_eq!(bytes_to_string(&[0x62, 0x6F, 0x61, 0x72, 0x64]), "board");
    assert_eq!(trim_end_nuls_vec(&[0x62, 0x6F, 0x61, 0x72, 0x64, 0, 0, 0]), b"board");
    assert_eq!(trim_nuls_vec(&[0, 0, 0x76, 0x31, 0, 0]), b"v1");
    assert_eq!(trim_nuls_vec(&[0, 0, 0]), Vec::<u8>::new());
}

#[test]
fn utf8_decoding() {
    // One two-byte scalar decodes to one character.
    assert_eq!(utf8_to_string(&[0xC3, 0xA9]), Some(String::from("\u{e9}")));
    assert_eq!(utf8_to_string(&[0xC3, 0xA9]).unwrap().chars().count(), 1);
    // Three- and four-byte scalars.
    assert_eq!(utf8_to_string(&[0xE2, 0x82, 0xAC]), Some(String::from("\u{20ac}")));
    assert_eq!(utf8_to_string(&[0xF0, 0x9F, 0x92, 0xBE]).unwrap().chars().count(), 1);
    // Invalid encodings: a lone continuation byte, a truncated pair, an
    // overlong encoding, and a surrogate.
    assert_eq!(utf8_to_string(&[0x80]), None);
    assert_eq!(utf8_to_string(&[0xC3]), None);
    assert_eq!(utf8_to_string(&[0xC0, 0x80]), None);
    assert_eq!(utf8_to_string(&[0xED, 0xA0, 0x80]), None);
    assert_eq!(utf8_to_string(&[0xFF; 8]), None);
    // Agreement with std on every two-byte run.
    for a in 0..=255u8 {
        for b in [0x00u8, 0x42, 0x80, 0x9F, 0xA9, 0xBF, 0xC3, 0xFF] {
            let bytes = [a, b];
            assert_eq!(
                utf8_to_string(&bytes),
                std::str::from_utf8(&bytes).ok().map(|s| s.to_string()),
                "bytes {:02x} {:02x}",
                a,
                b
            );
        }
    }
}

#[test]
fn string_equality() {
    assert!(str_eq("microbit_v2", "microbit_v2"));
    assert!(!str_eq("microbit_v2", "microbit_v1"));
    assert!(!str_eq("abc", "ab"));
    assert!(str_eq("", ""));
}

#[test]
fn hex_parsing() {
    assert_eq!(parse_hex_u64("40000"), Some(0x40000));
    assert_eq!(parse_hex_u64("FFFFFFFFFFFFFFFF"), Some(u64::MAX));
    assert_eq!(parse_hex_u64("10000000000000000"), None);
    assert_eq!(parse_hex_u64(""), None);
    assert_eq!(parse_hex_u64("40g00"), None);
    assert_eq!(strip_hex_prefix("0x40000"), "40000");
    assert_eq!(strip_hex_prefix("40000"), "40000");
    assert_eq!(parse_hex_u64(strip_hex_prefix("0x40000")), Some(0x40000));
}

#[test]
fn decimal_parsing() {
    assert_eq!(parse_dec_u32("2"), Some(2));
    assert_eq!(parse_dec_u32("4294967295"), Some(u32::MAX));
    assert_eq!(parse_dec_u32("4294967296"), None);
    assert_eq!(parse_dec_u32(""), None);
    assert_eq!(parse_dec_u32("1.2"), None);
}
