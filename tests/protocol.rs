use adb_client::error::AdbError;
use adb_client::frame::{encode_command, length_prefix, parse_length_prefix};
use adb_client::host::{parse_server_version, shell_output};
use adb_client::reader::{status_of, ResponseReader, Status};

#[test]
fn encode_trims_and_prefixes_hex_length() {
    let frame = encode_command("  host:version \n").unwrap();
    assert_eq!(frame, b"000Chost:version".to_vec());
}

#[test]
fn encode_uses_utf8_byte_length() {
    let frame = encode_command("shell:é").unwrap();
    assert_eq!(frame, "0008shell:é".as_bytes().to_vec());
}

#[test]
fn encode_empty_command() {
    assert_eq!(encode_command("   ").unwrap(), b"0000".to_vec());
}

#[test]
fn encode_largest_and_too_long() {
    let largest = "a".repeat(65535);
    let frame = encode_command(&largest).unwrap();
    assert_eq!(&frame[..4], b"FFFF");
    assert_eq!(frame.len(), 65539);
    let too_long = "a".repeat(65536);
    assert!(matches!(encode_command(&too_long), Err(AdbError::CommandTooLong)));
}

#[test]
fn encode_then_decode_gives_trimmed_text() {
    for text in ["host:devices", "  shell:ls -a  ", "", "\tχ y\n"] {
        let frame = encode_command(text).unwrap();
        let mut reader = ResponseReader::new(frame.clone());
        assert_eq!(reader.read_string_block().unwrap(), text.trim());
        assert_eq!(reader.position(), frame.len());
    }
}

#[test]
fn length_prefix_is_uppercase_hex() {
    assert_eq!(length_prefix(0x1A2B), b"1A2B".to_vec());
    assert_eq!(length_prefix(0), b"0000".to_vec());
    assert_eq!(parse_length_prefix(b"1a2B"), Some(0x1A2B));
    assert_eq!(parse_length_prefix(b"12G4"), None);
    assert_eq!(parse_length_prefix(b"123"), None);
}

#[test]
fn equal_streams_decode_alike() {
    let bytes = b"0005hello0003abc".to_vec();
    let mut first = ResponseReader::new(bytes.clone());
    let mut second = ResponseReader::new(bytes);
    assert_eq!(first.read_string_block().unwrap(), second.read_string_block().unwrap());
    assert_eq!(first.read_string_block().unwrap(), "abc");
    assert_eq!(second.read_string_block().unwrap(), "abc");
}

#[test]
fn okay_with_trailing_bytes_consumes_four() {
    let mut reader = ResponseReader::new(b"OKAYtrailing".to_vec());
    assert_eq!(reader.check_oky().unwrap(), Status::Okay);
    assert_eq!(reader.position(), 4);
    assert_eq!(reader.remaining(), 8);
}

#[test]
fn fail_then_error_block() {
    let mut reader = ResponseReader::new(b"FAIL0005error".to_vec());
    assert_eq!(reader.check_oky().unwrap(), Status::Fail);
    assert_eq!(reader.read_string_block().unwrap(), "error");
    let mut again = ResponseReader::new(b"FAIL0005error".to_vec());
    match again.expect_okay() {
        Err(AdbError::ResponseStatusError { content }) => assert_eq!(content, "error"),
        other => panic!("unexpected {:?}", other),
    }
}

#[test]
fn unknown_status_token_is_reported() {
    assert_eq!(status_of(b"DENT"), Status::Other);
    let mut reader = ResponseReader::new(b"DONE".to_vec());
    match reader.expect_okay() {
        Err(AdbError::UnexpectedStatus { token }) => assert_eq!(token, b"DONE".to_vec()),
        other => panic!("unexpected {:?}", other),
    }
}

#[test]
fn short_status_is_read_closed() {
    let mut reader = ResponseReader::new(b"OK".to_vec());
    assert!(matches!(reader.check_oky(), Err(AdbError::ReadClosed)));
    assert_eq!(reader.remaining(), 0);
}

#[test]
fn block_errors_by_kind() {
    let mut empty = ResponseReader::new(Vec::new());
    assert!(matches!(empty.read_string_block(), Err(AdbError::ConnectionClosed)));
    let mut short_prefix = ResponseReader::new(b"00".to_vec());
    assert!(matches!(short_prefix.read_string_block(), Err(AdbError::ReadClosed)));
    let mut bad_prefix = ResponseReader::new(b"zz12abc".to_vec());
    assert!(matches!(bad_prefix.read_string_block(), Err(AdbError::InvalidLength)));
    let mut short_payload = ResponseReader::new(b"0005ab".to_vec());
    assert!(matches!(short_payload.read_string_block(), Err(AdbError::ReadClosed)));
    let mut bad_text = ResponseReader::new(vec![b'0', b'0', b'0', b'2', 0xff, 0xfe]);
    assert!(matches!(bad_text.read_string_block(), Err(AdbError::ParseResponseError)));
}

#[test]
fn read_exact_and_read_some() {
    let mut reader = ResponseReader::new(b"abcdef".to_vec());
    assert_eq!(reader.read_exact(2).unwrap(), b"ab".to_vec());
    assert_eq!(reader.read_some(3), b"cde".to_vec());
    assert_eq!(reader.read_some(3), b"f".to_vec());
    assert_eq!(reader.read_some(3), Vec::<u8>::new());
    assert!(matches!(reader.read_exact(1), Err(AdbError::ReadClosed)));
}

#[test]
fn read_until_close_spans_chunks() {
    let body = "x".repeat(10_000) + "é";
    let mut reader = ResponseReader::new(body.as_bytes().to_vec());
    assert_eq!(reader.read_until_close().unwrap(), body);
    assert_eq!(reader.remaining(), 0);
    let mut bad = ResponseReader::new(vec![b'a', 0xc3]);
    assert!(matches!(bad.read_until_close(), Err(AdbError::ParseResponseError)));
}

#[test]
fn shell_echo_returns_output() {
    let mut reader = ResponseReader::new(b"OKAYhi\n".to_vec());
    assert_eq!(shell_output(&mut reader).unwrap(), "hi\n");
}

#[test]
fn shell_output_not_utf8_is_parse_error() {
    let mut reader = ResponseReader::new(vec![b'O', b'K', b'A', b'Y', b'h', 0xff]);
    assert!(matches!(shell_output(&mut reader), Err(AdbError::ParseResponseError)));
}

#[test]
fn shell_failure_carries_message() {
    let mut reader = ResponseReader::new(b"FAIL000Edevice offline".to_vec());
    match shell_output(&mut reader) {
        Err(AdbError::ResponseStatusError { content }) => assert_eq!(content, "device offline"),
        other => panic!("unexpected {:?}", other),
    }
}

#[test]
fn server_version_text() {
    assert_eq!(parse_server_version("0029").unwrap(), 29);
    assert_eq!(parse_server_version("41").unwrap(), 41);
    assert_eq!(parse_server_version("4294967295").unwrap(), 4294967295);
    for bad in ["", "001F", "+41", "4294967296", "99999999999", "4 1"] {
        assert!(matches!(parse_server_version(bad), Err(AdbError::ParseResponseError)), "{}", bad);
    }
}
