use noise_bridge::handshake::parse_connection_id;

#[test]
fn parses_plain_id() {
    let buf: Vec<u8> = b"123;".to_vec();
    assert_eq!(parse_connection_id(&buf), Some(123));
}

#[test]
fn parses_zero() {
    let buf: Vec<u8> = b"0;".to_vec();
    assert_eq!(parse_connection_id(&buf), Some(0));
}

#[test]
fn parses_leading_zeros() {
    let buf: Vec<u8> = b"007;".to_vec();
    assert_eq!(parse_connection_id(&buf), Some(7));
}

#[test]
fn parses_largest_id() {
    let buf: Vec<u8> = b"18446744073709551615;".to_vec();
    assert_eq!(parse_connection_id(&buf), Some(u64::MAX));
}

#[test]
fn rejects_overflowing_id() {
    let buf: Vec<u8> = b"18446744073709551616;".to_vec();
    assert_eq!(parse_connection_id(&buf), None);
}

#[test]
fn rejects_empty_line() {
    let buf: Vec<u8> = Vec::new();
    assert_eq!(parse_connection_id(&buf), None);
}

#[test]
fn rejects_bare_terminator() {
    let buf: Vec<u8> = b";".to_vec();
    assert_eq!(parse_connection_id(&buf), None);
}

#[test]
fn rejects_missing_terminator() {
    let buf: Vec<u8> = b"123".to_vec();
    assert_eq!(parse_connection_id(&buf), None);
}

#[test]
fn rejects_non_digit() {
    let buf: Vec<u8> = b"12a;".to_vec();
    assert_eq!(parse_connection_id(&buf), None);
}

#[test]
fn rejects_sign_prefix() {
    let buf: Vec<u8> = b"+12;".to_vec();
    assert_eq!(parse_connection_id(&buf), None);
}
