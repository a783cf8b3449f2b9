use git_remote_util::assuan::decode_assuan_data;
use git_remote_util::assuan::encode_assuan_data;

#[test]
fn decode_plain_text() {
    assert_eq!(decode_assuan_data(b"hunter2"), Some(String::from("hunter2")));
}

#[test]
fn decode_empty_is_empty_string() {
    assert_eq!(decode_assuan_data(b""), Some(String::new()));
}

#[test]
fn decode_percent_escape() {
    assert_eq!(decode_assuan_data(b"pass%25word"), Some(String::from("pass%word")));
    assert_eq!(decode_assuan_data(b"a%0Ab"), Some(String::from("a\nb")));
}

#[test]
fn decode_accepts_both_hex_cases() {
    assert_eq!(decode_assuan_data(b"%2f"), Some(String::from("/")));
    assert_eq!(decode_assuan_data(b"%2F"), Some(String::from("/")));
}

#[test]
fn decode_multibyte_text() {
    assert_eq!(decode_assuan_data(b"caf%C3%A9"), Some(String::from("caf\u{e9}")));
}

#[test]
fn decode_truncated_escape_fails() {
    assert_eq!(decode_assuan_data(b"abc%"), None);
    assert_eq!(decode_assuan_data(b"ab%1"), None);
}

#[test]
fn decode_non_hex_escape_fails() {
    assert_eq!(decode_assuan_data(b"ab%zz"), None);
    assert_eq!(decode_assuan_data(b"%g0"), None);
}

#[test]
fn decode_invalid_utf8_fails() {
    assert_eq!(decode_assuan_data(b"%FF"), None);
}

#[test]
fn encode_escapes_reserved_bytes() {
    assert_eq!(encode_assuan_data(b"a%b"), b"a%25b".to_vec());
    assert_eq!(encode_assuan_data(b"a\nb\r"), b"a%0Ab%0D".to_vec());
}

#[test]
fn round_trip_plain() {
    let original = "swordfish";
    let encoded = encode_assuan_data(original.as_bytes());
    assert_eq!(decode_assuan_data(&encoded), Some(String::from(original)));
}

#[test]
fn round_trip_with_reserved_and_multibyte() {
    let original = "100% caf\u{e9}\nnew line";
    let encoded = encode_assuan_data(original.as_bytes());
    assert_eq!(decode_assuan_data(&encoded), Some(String::from(original)));
}
