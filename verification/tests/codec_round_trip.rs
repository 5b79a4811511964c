use worker_bridge::codec::decode_command_line;
use worker_bridge::codec::encode_command_line;

fn round_trip(payload: &[u8]) {
    let line = encode_command_line(payload);
    let back = decode_command_line(&line).expect("an encoded line must decode");
    assert_eq!(back, payload.to_vec());
}

#[test]
fn encodes_plain_text_exactly() {
    let line = encode_command_line(b"hi");
    assert_eq!(line, b"{\"query\":\"hi\"}\n".to_vec());
}

#[test]
fn encodes_empty_payload_exactly() {
    let line = encode_command_line(b"");
    assert_eq!(line, b"{\"query\":\"\"}\n".to_vec());
}

#[test]
fn escapes_quotes_backslashes_and_newlines() {
    let line = encode_command_line(b"a\"b\\c\nd");
    assert_eq!(line, b"{\"query\":\"a\\\"b\\\\c\\nd\"}\n".to_vec());
}

#[test]
fn escapes_control_bytes_in_four_digit_form() {
    let line = encode_command_line(&[0x01u8, 0x1f]);
    assert_eq!(line, b"{\"query\":\"\\u0001\\u001f\"}\n".to_vec());
}

#[test]
fn round_trips_plain_and_empty() {
    round_trip(b"");
    round_trip(b"hello worker");
}

#[test]
fn round_trips_quotes_backslashes_newlines() {
    round_trip(b"say \"hi\" to C:\\path\\file");
    round_trip(b"line one\nline two\r\n\ttabbed");
    round_trip(b"\\n is not a newline, \n is");
}

#[test]
fn round_trips_every_byte_value() {
    let mut all: Vec<u8> = Vec::new();
    let mut b: u8 = 0;
    loop {
        all.push(b);
        if b == 255 {
            break;
        }
        b += 1;
    }
    round_trip(&all);
}

#[test]
fn round_trips_multibyte_text() {
    round_trip("über âê—ƶ".as_bytes());
}

#[test]
fn encoded_line_ends_with_single_newline() {
    let line = encode_command_line(b"a\nb\nc");
    assert_eq!(*line.last().unwrap(), b'\n');
    assert_eq!(line.iter().filter(|&&b| b == b'\n').count(), 1);
}

#[test]
fn encoded_line_is_valid_json_with_the_payload() {
    let texts = ["plain", "with \"quotes\"", "back\\slash", "multi\nline\u{1}"];
    for t in texts.iter() {
        let line = encode_command_line(t.as_bytes());
        let parsed: serde_json::Value =
            serde_json::from_slice(&line).expect("the encoded line must be well-formed");
        assert_eq!(parsed.get("query").unwrap().as_str().unwrap(), *t);
    }
}

#[test]
fn decode_accepts_upper_case_hex_digits() {
    let back = decode_command_line(b"{\"query\":\"\\u001F\"}\n").unwrap();
    assert_eq!(back, vec![0x1fu8]);
}

#[test]
fn decode_rejects_malformed_lines() {
    assert!(decode_command_line(b"").is_none());
    assert!(decode_command_line(b"{\"query\":\"x\"}").is_none());
    assert!(decode_command_line(b"{\"other\":\"x\"}\n").is_none());
    assert!(decode_command_line(b"{\"query\":\"a\nb\"}\n").is_none());
    assert!(decode_command_line(b"{\"query\":\"a\"b\"}\n").is_none());
    assert!(decode_command_line(b"{\"query\":\"a\\x\"}\n").is_none());
    assert!(decode_command_line(b"{\"query\":\"a\\u00\"}\n").is_none());
    assert!(decode_command_line(b"{\"query\":\"a\\u01ff\"}\n").is_none());
}
